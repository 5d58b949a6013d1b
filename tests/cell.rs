use conway::cell::{Cell, ParseCellError};
use conway::grid::GridItem;

#[test]
fn dead_cells_are_equal_whatever_their_age() {
    assert_eq!(Cell::Dead(0), Cell::Dead(5));
    assert_ne!(Cell::Alive, Cell::Dead(0));
    assert_ne!(Cell::Alive, Cell::Dead(5));
    for n in [0, 1, 5, 20, usize::MAX] {
        assert_ne!(Cell::Unborn, Cell::Dead(n));
        assert_ne!(Cell::Dead(n), Cell::Unborn);
    }
    assert_ne!(Cell::Alive, Cell::Unborn);
    assert_eq!(Cell::Alive, Cell::Alive);
    assert_eq!(Cell::Unborn, Cell::Unborn);
}

#[test]
fn categories() {
    assert!(Cell::Dead(3).is_dead());
    assert!(!Cell::Alive.is_dead());
    assert!(Cell::Unborn.is_unborn());
    assert!(!Cell::Dead(0).is_unborn());
    assert!(Cell::Alive.is_alive());
    assert!(!Cell::Dead(0).is_alive());
    assert!(!Cell::Unborn.is_alive());
}

#[test]
fn transitions() {
    assert!(matches!(Cell::Alive.keep(), Cell::Alive));
    assert!(matches!(Cell::Dead(7).keep(), Cell::Dead(7)));
    assert!(matches!(Cell::Alive.kill(), Cell::Dead(0)));
    assert!(matches!(Cell::Dead(2).kill(), Cell::Dead(2)));
    assert!(matches!(Cell::Unborn.kill(), Cell::Unborn));
    assert!(matches!(Cell::Dead(2).rot(), Cell::Dead(3)));
    assert!(matches!(Cell::Dead(usize::MAX).rot(), Cell::Dead(usize::MAX)));
    assert!(matches!(Cell::Unborn.rot(), Cell::Unborn));
    assert!(matches!(Cell::Alive.rot(), Cell::Alive));
    assert!(matches!(Cell::Unborn.revive(), Cell::Alive));
    assert!(matches!(Cell::Dead(4).revive(), Cell::Alive));
}

#[test]
fn conversions_from_numbers_and_flags() {
    assert!(matches!(Cell::from(1usize), Cell::Alive));
    assert!(matches!(Cell::from(0usize), Cell::Unborn));
    assert!(matches!(Cell::from(2usize), Cell::Unborn));
    assert!(matches!(Cell::from(true), Cell::Alive));
    assert!(matches!(Cell::from(false), Cell::Unborn));
}

#[test]
fn symbols_parse_and_print() {
    assert!(matches!("#".parse::<Cell>(), Ok(Cell::Alive)));
    assert!(matches!("_".parse::<Cell>(), Ok(Cell::Unborn)));
    assert_eq!("x".parse::<Cell>(), Err(ParseCellError::UnknownSymbol));
    assert_eq!(Cell::parse("."), Err(ParseCellError::UnknownSymbol));
    assert_eq!(Cell::parse(""), Err(ParseCellError::UnknownSymbol));
    assert_eq!(Cell::parse("##"), Err(ParseCellError::UnknownSymbol));
    assert_eq!(Cell::Alive.symbol(), '#');
    assert_eq!(Cell::Dead(3).symbol(), '.');
    assert_eq!(Cell::Unborn.symbol(), '_');
}
