//! What the window front end decides: the colour and the square of each
//! cell, and how the keyboard drives the run.

use vstd::prelude::*;

use crate::cell::Cell;
use crate::coord::Dim2;

verus! {

/// Pacing and scale of the display.
#[derive(Debug)]
pub struct Settings {
    /// Milliseconds between two generations.
    pub delay: usize,
    /// Side of the square drawn for one cell, in pixels.
    pub cell_size: usize,
}

/// The colour `(red, green, blue)` of a cell: live cells bright green, unborn
/// ones white, dead ones grey fading from near white to black over twenty
/// generations and black after that.
pub open spec fn color_of(cell: Cell) -> (u8, u8, u8) {
    match cell {
        Cell::Alive => (0, 255, 0),
        Cell::Unborn => (255, 255, 255),
        Cell::Dead(x) => if x <= 20 {
            let y = (250 - x * 10) as u8;
            (y, y, y)
        } else {
            (0, 0, 0)
        },
    }
}

pub fn cell_color(cell: Cell) -> (r: (u8, u8, u8))
    ensures
        r == color_of(cell),
{
    match cell {
        Cell::Alive => (0, 255, 0),
        Cell::Unborn => (255, 255, 255),
        Cell::Dead(x) => if x <= 20 {
            let y = 250 - (x as u8) * 10;
            (y, y, y)
        } else {
            (0, 0, 0)
        },
    }
}

/// The pixel position `(x, y)` of the top-left corner of the square whose
/// horizontal and vertical cell indices are `coord`, or `None` where it does
/// not fit a `usize`.
pub fn cell_origin(coord: Dim2, cell_size: usize) -> (r: Option<(usize, usize)>)
    ensures
        r is Some <==> (cell_size * coord.0 <= usize::MAX && cell_size * coord.1 <= usize::MAX),
        r is Some ==> r->0 == ((cell_size * coord.0) as usize, (cell_size * coord.1) as usize),
{
    match (cell_size.checked_mul(coord.x()), cell_size.checked_mul(coord.y())) {
        (Some(x), Some(y)) => Some((x, y)),
        _ => None,
    }
}

/// A key press, as far as the run cares.
#[derive(Debug, Clone, Copy, PartialEq, Eq, Structural)]
pub enum Control {
    /// End the run.
    Quit,
    /// Pause a running world, or resume a paused one.
    Toggle,
    /// Any other input.
    Ignore,
}

/// Whether the world runs after `input`, or `None` where the run ends.
pub fn handle(running: bool, input: Control) -> (r: Option<bool>)
    ensures
        input is Quit ==> r is None,
        input is Toggle ==> r == Some(!running),
        input is Ignore ==> r == Some(running),
{
    match input {
        Control::Quit => None,
        Control::Toggle => Some(!running),
        Control::Ignore => Some(running),
    }
}

/// The shade `(red, green, blue)` of a live cell with `n` live neighbours:
/// black when isolated, lighter greys up to four neighbours, red beyond.
pub open spec fn shade_of(n: u32) -> (u8, u8, u8) {
    if n == 0 {
        (0, 0, 0)
    } else if n == 1 {
        (75, 75, 75)
    } else if n == 2 {
        (100, 100, 100)
    } else if n == 3 {
        (150, 150, 150)
    } else if n == 4 {
        (200, 200, 200)
    } else {
        (255, 0, 0)
    }
}

pub fn neighbour_shade(n: u32) -> (r: (u8, u8, u8))
    ensures
        r == shade_of(n),
{
    match n {
        0 => (0, 0, 0),
        1 => (75, 75, 75),
        2 => (100, 100, 100),
        3 => (150, 150, 150),
        4 => (200, 200, 200),
        _ => (255, 0, 0),
    }
}

} // verus!
