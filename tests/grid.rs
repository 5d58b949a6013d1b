use conway::cell::Cell;
use conway::community::Community;
use conway::coord::Dim2;
use conway::grid::{count_alive_cells, dec, inc, Grid, GridItem};

#[test]
fn grid_test_inc() {
    let size = 3;
    let xs = vec![(0, 1), (1, 2), (2, 0)];

    for (x, y) in xs {
        assert_eq!(inc(x, size), y)
    }
}

#[test]
fn grid_test_dec() {
    let size = 3;
    let xs = vec![(0, 2), (1, 0), (2, 1)];

    for (x, y) in xs {
        assert_eq!(dec(x, size), y)
    }
}

#[test]
fn wrap_on_a_single_cell_ring() {
    assert_eq!(inc(0, 1), 0);
    assert_eq!(dec(0, 1), 0);
}

#[test]
fn neighbours_wrap_at_the_corner() {
    // 3 x 3 grid, only the bottom-right corner alive: it is a diagonal
    // neighbour of the top-left corner through the wrap.
    let mut rows = vec![vec![Cell::Unborn; 3]; 3];
    rows[2][2] = Cell::Alive;
    let g = Community::new(rows, 1);
    let ns = g.item_neighbours(Dim2(0, 0));
    assert_eq!(ns.len(), 8);
    assert!(ns[4].is_alive());
    assert_eq!(count_alive_cells(&ns), 1);
    // Every cell of a 3 x 3 torus neighbours every other one.
    let ns = g.item_neighbours(Dim2(1, 1));
    assert_eq!(count_alive_cells(&ns), 1);
    assert!(ns[7].is_alive());
}

#[test]
fn fate_follows_the_rule_table() {
    // Row 0: three live cells; (1, 1) is born, (0, 1) survives, (0, 0) with
    // a single live neighbour in a 4 x 4 grid dies.
    let mut rows = vec![vec![Cell::Unborn; 4]; 4];
    rows[0][0] = Cell::Alive;
    rows[0][1] = Cell::Alive;
    rows[0][2] = Cell::Alive;
    rows[2][3] = Cell::Dead(4);
    let g = Community::new(rows, 1);
    assert!(matches!(g.item_fate(Dim2(1, 1)), Cell::Alive));
    assert!(matches!(g.item_fate(Dim2(0, 1)), Cell::Alive));
    assert!(matches!(g.item_fate(Dim2(0, 0)), Cell::Dead(0)));
    assert!(matches!(g.item_fate(Dim2(2, 3)), Cell::Dead(5)));
    assert!(matches!(g.item_fate(Dim2(2, 2)), Cell::Unborn));
}
