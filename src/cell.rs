//! The state of one automaton unit and its transitions.

use vstd::prelude::*;

use crate::grid::GridItem;
use vstd::std_specs::cmp::PartialEqSpec;

verus! {

/// One unit of the automaton.
///
/// `Dead` carries the number of generations since the cell died. The age is
/// cosmetic: it never changes what the rules decide, and `==` ignores it.
#[derive(Debug, Copy, Clone, Eq)]
pub enum Cell {
    Alive,
    Dead(usize),
    Unborn,
}

/// The three categories that equality and the rules look at.
pub open spec fn same_category(a: Cell, b: Cell) -> bool {
    match (a, b) {
        (Cell::Alive, Cell::Alive) => true,
        (Cell::Dead(_), Cell::Dead(_)) => true,
        (Cell::Unborn, Cell::Unborn) => true,
        _ => false,
    }
}

/// The age after one more generation of being dead; it stops at the largest
/// `usize` rather than wrap.
pub open spec fn next_age(a: usize) -> usize {
    if a < usize::MAX {
        (a + 1) as usize
    } else {
        a
    }
}

/// Why a symbol could not be read as a cell.
#[derive(Debug, Clone, Copy, PartialEq, Eq, Structural)]
pub enum ParseCellError {
    UnknownSymbol,
}

impl Cell {
    pub fn is_dead(&self) -> (r: bool)
        ensures
            r == (*self is Dead),
    {
        match *self {
            Cell::Dead(_) => true,
            _ => false,
        }
    }

    pub fn is_unborn(&self) -> (r: bool)
        ensures
            r == (*self is Unborn),
    {
        match *self {
            Cell::Unborn => true,
            _ => false,
        }
    }

    /// The one-character form of the cell: `#` alive, `.` dead, `_` unborn.
    pub fn symbol(&self) -> (r: char)
        ensures
            r == symbol_of(*self),
    {
        match *self {
            Cell::Alive => '#',
            Cell::Dead(_) => '.',
            Cell::Unborn => '_',
        }
    }

    /// Reads `#` as alive and `_` as unborn; any other text is refused.
    pub fn parse(s: &str) -> (r: Result<Cell, ParseCellError>)
        ensures
            s@ == seq!['#'] ==> r == Ok::<Cell, ParseCellError>(Cell::Alive),
            s@ == seq!['_'] ==> r == Ok::<Cell, ParseCellError>(Cell::Unborn),
            s@ != seq!['#'] && s@ != seq!['_'] ==> r == Err::<Cell, ParseCellError>(
                ParseCellError::UnknownSymbol,
            ),
    {
        if s.unicode_len() != 1 {
            return Err(ParseCellError::UnknownSymbol);
        }
        let c = s.get_char(0);
        proof {
            assert(s@ =~= seq![c]);
        }
        if c == '#' {
            Ok(Cell::Alive)
        } else if c == '_' {
            Ok(Cell::Unborn)
        } else {
            Err(ParseCellError::UnknownSymbol)
        }
    }
}

pub open spec fn symbol_of(c: Cell) -> char {
    match c {
        Cell::Alive => '#',
        Cell::Dead(_) => '.',
        Cell::Unborn => '_',
    }
}

/// The one-character text of a cell.
pub(crate) fn symbol_str(c: Cell) -> (r: &'static str)
    ensures
        r@ == seq![symbol_of(c)],
{
    proof {
        reveal_strlit("#");
        reveal_strlit(".");
        reveal_strlit("_");
    }
    match c {
        Cell::Alive => "#",
        Cell::Dead(_) => ".",
        Cell::Unborn => "_",
    }
}

impl GridItem for Cell {
    open spec fn spec_alive(&self) -> bool {
        *self is Alive
    }

    open spec fn spec_kill(&self) -> Cell {
        match *self {
            Cell::Alive => Cell::Dead(0),
            x => x,
        }
    }

    open spec fn spec_rot(&self) -> Cell {
        match *self {
            Cell::Dead(a) => Cell::Dead(next_age(a)),
            x => x,
        }
    }

    open spec fn spec_revive(&self) -> Cell {
        Cell::Alive
    }

    fn is_alive(&self) -> (r: bool) {
        match *self {
            Cell::Alive => true,
            _ => false,
        }
    }

    fn keep(&self) -> (r: Cell) {
        *self
    }

    /// Kills a cell if it's alive.
    fn kill(&self) -> (r: Cell) {
        match *self {
            Cell::Alive => Cell::Dead(0),
            x => x,
        }
    }

    /// Ages a cell if it's dead.
    fn rot(&self) -> (r: Cell) {
        match *self {
            Cell::Dead(a) => Cell::Dead(a.saturating_add(1)),
            x => x,
        }
    }

    /// Revives a cell no matter what.
    fn revive(&self) -> (r: Cell) {
        Cell::Alive
    }
}

impl PartialEq for Cell {
    fn eq(&self, other: &Cell) -> (r: bool) {
        match (*self, *other) {
            (Cell::Alive, Cell::Alive) => true,
            (Cell::Dead(_), Cell::Dead(_)) => true,
            (Cell::Unborn, Cell::Unborn) => true,
            _ => false,
        }
    }
}

impl vstd::std_specs::cmp::PartialEqSpecImpl for Cell {
    open spec fn obeys_eq_spec() -> bool {
        true
    }

    open spec fn eq_spec(&self, other: &Cell) -> bool {
        same_category(*self, *other)
    }
}

impl From<usize> for Cell {
    fn from(x: usize) -> (r: Cell) {
        if x == 1 {
            Cell::Alive
        } else {
            Cell::Unborn
        }
    }
}

impl vstd::std_specs::convert::FromSpecImpl<usize> for Cell {
    open spec fn obeys_from_spec() -> bool {
        true
    }

    open spec fn from_spec(x: usize) -> Cell {
        if x == 1 {
            Cell::Alive
        } else {
            Cell::Unborn
        }
    }
}

impl From<bool> for Cell {
    fn from(x: bool) -> (r: Cell) {
        if x {
            Cell::Alive
        } else {
            Cell::Unborn
        }
    }
}

impl vstd::std_specs::convert::FromSpecImpl<bool> for Cell {
    open spec fn obeys_from_spec() -> bool {
        true
    }

    open spec fn from_spec(x: bool) -> Cell {
        if x {
            Cell::Alive
        } else {
            Cell::Unborn
        }
    }
}

impl std::str::FromStr for Cell {
    type Err = ParseCellError;

    fn from_str(s: &str) -> Result<Cell, ParseCellError> {
        Cell::parse(s)
    }
}

/// Equality looks at the category alone: every dead cell equals every other
/// dead cell whatever their ages, and no dead cell equals a live or an unborn
/// one.
pub proof fn lemma_equality_ignores_age(a: usize, b: usize)
    ensures
        Cell::Dead(a).eq_spec(&Cell::Dead(b)),
        !Cell::Alive.eq_spec(&Cell::Dead(a)),
        !Cell::Dead(a).eq_spec(&Cell::Alive),
        !Cell::Unborn.eq_spec(&Cell::Dead(a)),
        !Cell::Dead(a).eq_spec(&Cell::Unborn),
{
}

} // verus!
