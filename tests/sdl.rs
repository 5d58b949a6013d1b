use conway::cell::Cell;
use conway::coord::Dim2;
use conway::sdl::{cell_color, cell_origin, handle, neighbour_shade, Control, Settings};

#[test]
fn colors_of_cells() {
    assert_eq!(cell_color(Cell::Alive), (0, 255, 0));
    assert_eq!(cell_color(Cell::Unborn), (255, 255, 255));
    assert_eq!(cell_color(Cell::Dead(0)), (250, 250, 250));
    assert_eq!(cell_color(Cell::Dead(7)), (180, 180, 180));
    assert_eq!(cell_color(Cell::Dead(20)), (50, 50, 50));
    assert_eq!(cell_color(Cell::Dead(21)), (0, 0, 0));
    assert_eq!(cell_color(Cell::Dead(usize::MAX)), (0, 0, 0));
}

#[test]
fn shades_by_neighbour_count() {
    assert_eq!(neighbour_shade(0), (0, 0, 0));
    assert_eq!(neighbour_shade(1), (75, 75, 75));
    assert_eq!(neighbour_shade(2), (100, 100, 100));
    assert_eq!(neighbour_shade(3), (150, 150, 150));
    assert_eq!(neighbour_shade(4), (200, 200, 200));
    assert_eq!(neighbour_shade(8), (255, 0, 0));
}

#[test]
fn cell_squares() {
    let settings = Settings { delay: 150, cell_size: 10 };
    assert_eq!(cell_origin(Dim2(3, 4), settings.cell_size), Some((30, 40)));
    assert_eq!(cell_origin(Dim2(usize::MAX, 1), 2), None);
    assert_eq!(cell_origin(Dim2(0, 0), usize::MAX), Some((0, 0)));
}

#[test]
fn keys_drive_the_run() {
    assert_eq!(handle(false, Control::Toggle), Some(true));
    assert_eq!(handle(true, Control::Toggle), Some(false));
    assert_eq!(handle(true, Control::Ignore), Some(true));
    assert_eq!(handle(false, Control::Ignore), Some(false));
    assert_eq!(handle(true, Control::Quit), None);
}
