use conway::cell::Cell;
use conway::community::{Community, PlacementError};
use conway::coord::Dim2;
use conway::grid::Grid;
use conway::pattern::{Beacon, Blinker, Block, Glider, Layout, LightweightSpaceship, Pulsar, Toad};

fn live(g: &Community) -> Vec<(usize, usize)> {
    let n = g.size();
    (0..n)
        .flat_map(|x| (0..n).map(move |y| (x, y)))
        .filter(|&(x, y)| matches!(g.item(Dim2(x, y)), Cell::Alive))
        .collect()
}

#[test]
fn empty_grid_is_unborn() {
    let g = Community::empty(4);
    assert_eq!(g.size(), 4);
    for (_, c) in g.enumerate() {
        assert!(matches!(c, Cell::Unborn));
    }
    assert_eq!(g.enumerate().len(), 16);
}

#[test]
fn blinker_has_period_two() {
    for orientation in [Blinker::TopBottom, Blinker::LeftRight] {
        let mut g = Community::empty(7);
        g.insert(Layout::new((2, 2), orientation));
        let first = live(&g);
        let g1 = g.evolve();
        let g2 = g1.evolve();
        let g3 = g2.evolve();
        let g4 = g3.evolve();
        assert_ne!(live(&g1), first);
        assert_eq!(live(&g2), first);
        assert_eq!(live(&g3), live(&g1));
        // From the first generation on the dead and unborn cells match too.
        assert!(g3 == g1);
        assert!(g4 == g2);
        assert!(g2 != g1);
    }
}

#[test]
fn vertical_blinker_turns_horizontal() {
    let mut g = Community::empty(5);
    g.insert(Layout::new((1, 1), Blinker::TopBottom));
    assert_eq!(live(&g), vec![(1, 2), (2, 2), (3, 2)]);
    assert_eq!(live(&g.evolve()), vec![(2, 1), (2, 2), (2, 3)]);
}

#[test]
fn glider_on_a_five_by_five_torus() {
    let mut g = Community::empty(5);
    g.insert(Layout::new((1, 1), Glider::BottomRight));
    assert_eq!(live(&g), vec![(1, 2), (2, 3), (3, 1), (3, 2), (3, 3)]);
    let g1 = g.evolve();
    assert_eq!(live(&g1), vec![(2, 1), (2, 3), (3, 2), (3, 3), (4, 2)]);
    // The cells that died are dead at age 0; the others never lived.
    assert!(matches!(g1.item(Dim2(1, 2)), Cell::Dead(0)));
    assert!(matches!(g1.item(Dim2(3, 1)), Cell::Dead(0)));
    assert!(matches!(g1.item(Dim2(0, 0)), Cell::Unborn));
    let g2 = g1.evolve();
    assert!(matches!(g2.item(Dim2(1, 2)), Cell::Dead(1)));
}

#[test]
fn insert_overwrites_the_footprint() {
    let mut g = Community::empty(6);
    g.insert(Layout::new((0, 0), Block));
    assert_eq!(live(&g), vec![(0, 0), (0, 1), (1, 0), (1, 1)]);
    // A blinker over the block clears the cells of its square that it holds unborn.
    g.insert(Layout::new((0, 0), Blinker::TopBottom));
    assert_eq!(live(&g), vec![(0, 1), (1, 1), (2, 1)]);
}

#[test]
fn insert_at_the_far_edge() {
    let mut g = Community::empty(5);
    g.insert(Layout::new((1, 1), Toad));
    assert_eq!(live(&g), vec![(2, 2), (2, 3), (2, 4), (3, 1), (3, 2), (3, 3)]);
}

#[test]
fn placement_errors() {
    let mut g = Community::empty(10);
    assert_eq!(g.try_insert(Layout::new((0, 0), Pulsar)), Err(PlacementError::TooLarge));
    assert_eq!(g.try_insert(Layout::new((7, 0), Beacon)), Err(PlacementError::OutOfBounds));
    assert_eq!(g.try_insert(Layout::new((0, 7), Beacon)), Err(PlacementError::OutOfBounds));
    assert_eq!(g.try_insert(Layout::new((6, 6), LightweightSpaceship::Left)), Err(PlacementError::OutOfBounds));
    assert!(live(&g).is_empty());
    assert_eq!(g.try_insert(Layout::new((6, 6), Beacon)), Ok(()));
    assert_eq!(live(&g).len(), 6);
    // A 4 x 5 spaceship fits at (6, 5) but not at (5, 6).
    let mut h = Community::empty(10);
    assert_eq!(h.try_insert(Layout::new((6, 5), LightweightSpaceship::Left)), Ok(()));
    assert_eq!(h.try_insert(Layout::new((5, 6), LightweightSpaceship::Left)), Err(PlacementError::OutOfBounds));
    assert_eq!(h.try_insert(Layout::new((5, 6), LightweightSpaceship::Top)), Ok(()));
}

#[test]
fn grid_equality_ignores_ages() {
    let a = Community::new(vec![vec![Cell::Dead(0), Cell::Alive], vec![Cell::Unborn, Cell::Unborn]], 1);
    let b = Community::new(vec![vec![Cell::Dead(7), Cell::Alive], vec![Cell::Unborn, Cell::Unborn]], 3);
    let c = Community::new(vec![vec![Cell::Unborn, Cell::Alive], vec![Cell::Unborn, Cell::Unborn]], 1);
    assert!(a == b);
    assert!(a != c);
}

#[test]
fn evolution_is_deterministic() {
    let mut g = Community::empty(8);
    g.insert(Layout::new((1, 1), Glider::TopRight));
    g.insert(Layout::new((4, 3), Toad));
    let mut a = g.clone();
    let mut b = g.clone();
    for _ in 0..12 {
        a = a.evolve();
        b = b.evolve();
        assert_eq!(a.enumerate().iter().map(|p| format!("{:?}", p.1)).collect::<Vec<_>>(),
                   b.enumerate().iter().map(|p| format!("{:?}", p.1)).collect::<Vec<_>>());
    }
}

#[test]
fn enumerate_gives_row_then_column() {
    let mut rows = vec![vec![Cell::Unborn; 3]; 3];
    rows[1][2] = Cell::Alive;
    let g = Community::new(rows, 1);
    let cells = g.enumerate();
    assert_eq!(cells.len(), 9);
    let (coord, cell) = cells[5];
    assert_eq!((coord.x(), coord.y()), (1, 2));
    assert!(matches!(cell, Cell::Alive));
}

#[test]
fn community_text() {
    let mut g = Community::empty(3);
    g.insert(Layout::new((0, 0), Glider::BottomRight));
    let g1 = g.evolve();
    assert_eq!(g.to_string(), "_#_\n__#\n###\n");
    assert_eq!(g1.to_string().len(), 12);
    assert!(g1.to_string().contains('.'));
}
