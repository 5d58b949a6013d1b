use conway::cell::Cell;
use conway::coord::Dim2;
use conway::grid::{dec, inc, Grid};
use conway::population::{glider, glider_bl, glider_br, glider_tl, glider_tr, isqrt, Population};

#[test]
fn population_test_inc() {
    let size = 3;
    let xs = vec![(0, 1), (1, 2), (2, 0)];

    for (x, y) in xs {
        assert_eq!(inc(x, size), y)
    }
}

#[test]
fn population_test_dec() {
    let size = 3;
    let xs = vec![(0, 2), (1, 0), (2, 1)];

    for (x, y) in xs {
        assert_eq!(dec(x, size), y)
    }
}

fn alive_count(p: &Population) -> usize {
    p.cells().iter().filter(|x| matches!(x, Cell::Alive)).count()
}

#[test]
fn test_glider() {
    let size = 5;
    let offset = (1, 1);
    let ppl = vec![false; size * size];
    let glr = glider(ppl.into(), offset);
    let alive = alive_count(&glr);

    let xs = vec![
        ((1, 2), Cell::Alive),
        ((2, 3), Cell::Alive),
        ((3, 1), Cell::Alive),
        ((3, 2), Cell::Alive),
        ((3, 3), Cell::Alive),
    ];

    for ((x, y), expected) in xs {
        assert_eq!(glr.item(Dim2(x, y)), expected);
    }

    assert_eq!(alive, 5);
}

#[test]
fn test_fate() {
    let size = 5;
    let offset = (1, 1);
    let ppl = glider(vec![false; size * size].into(), offset);

    let xs = vec![
        ((0, 0), Cell::Unborn),
        ((1, 1), Cell::Unborn),
        ((2, 2), Cell::Unborn),
        ((3, 3), Cell::Alive),
        ((4, 4), Cell::Unborn),
        ((1, 2), Cell::Dead(0)),
    ];

    for ((x, y), expected) in xs {
        assert_eq!(ppl.item_fate(Dim2(x, y)), expected);
    }
}

#[test]
fn test_neigbours() {
    let size = 5;
    let offset = (1, 1);
    let ppl = glider(vec![false; size * size].into(), offset);
    let ns = ppl.item_neighbours(Dim2(1, 2));

    let expected: Population = vec![
        false, false, false,
        false,        false,
        false, false, true ,
    ].into();

    assert_eq!(ns, *expected.cells());
    assert_eq!(ns.into_iter().filter(|x| matches!(x, Cell::Alive)).count(), 1);
}

#[test]
fn side_is_the_integer_square_root() {
    assert_eq!(isqrt(0), 0);
    assert_eq!(isqrt(8), 2);
    assert_eq!(isqrt(9), 3);
    assert_eq!(isqrt(24), 4);
    assert_eq!(isqrt(25), 5);
    assert_eq!(Population::from(vec![false; 8]).size(), 2);
    assert_eq!(Population::empty(7).size(), 7);
}

#[test]
fn every_glider_places_five_cells() {
    let cases: Vec<(fn(Population, (usize, usize)) -> Population, Vec<(usize, usize)>)> = vec![
        (glider_br, vec![(0, 1), (1, 2), (2, 0), (2, 1), (2, 2)]),
        (glider_tl, vec![(0, 0), (0, 1), (0, 2), (1, 0), (2, 1)]),
        (glider_bl, vec![(0, 0), (0, 1), (0, 2), (1, 2), (2, 1)]),
        (glider_tr, vec![(0, 1), (1, 0), (2, 0), (2, 1), (2, 2)]),
    ];
    for (place, cells) in cases {
        let p = place(Population::empty(6), (2, 3));
        assert_eq!(alive_count(&p), 5);
        for (dx, dy) in cells {
            assert_eq!(p.item(Dim2(2 + dx, 3 + dy)), Cell::Alive);
        }
    }
}

#[test]
fn population_evolves_a_glider() {
    let p = glider(Population::empty(5), (1, 1));
    assert_eq!(p.generation(), 1);
    let next = p.evolve();
    assert_eq!(next.generation(), 2);
    let live: Vec<(usize, usize)> = (0..5)
        .flat_map(|x| (0..5).map(move |y| (x, y)))
        .filter(|&(x, y)| matches!(next.item(Dim2(x, y)), Cell::Alive))
        .collect();
    assert_eq!(live, vec![(2, 1), (2, 3), (3, 2), (3, 3), (4, 2)]);
    assert!(matches!(next.item(Dim2(1, 2)), Cell::Dead(0)));
}

#[test]
fn regenerate_revives_one_cell() {
    let mut p = Population::empty(4);
    p.regenerate(Dim2(3, 1));
    assert_eq!(p.cells()[13], Cell::Alive);
    assert_eq!(alive_count(&p), 1);
}

#[test]
fn population_equality_ignores_ages() {
    let a: Population = vec![Cell::Dead(0), Cell::Alive, Cell::Unborn, Cell::Unborn].into();
    let b: Population = vec![Cell::Dead(9), Cell::Alive, Cell::Unborn, Cell::Unborn].into();
    let c: Population = vec![Cell::Unborn, Cell::Alive, Cell::Unborn, Cell::Unborn].into();
    assert!(a == b);
    assert!(a != c);
}

#[test]
fn population_text_has_one_line_per_row() {
    let p = glider(Population::empty(3), (0, 0));
    assert_eq!(p.to_string(), "_#_\n__#\n###\n");
}

#[test]
fn population_enumerate_covers_every_cell() {
    let mut p: Population = vec![false; 10].into();
    p.regenerate(Dim2(2, 1));
    let cells = p.enumerate();
    assert_eq!(cells.len(), 10);
    let (coord, cell) = cells[7];
    assert_eq!((coord.x(), coord.y()), (2, 1));
    assert_eq!(cell, Cell::Alive);
    let (coord, _) = cells[9];
    assert_eq!((coord.x(), coord.y()), (3, 0));
}
