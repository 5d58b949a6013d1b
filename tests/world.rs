use conway::cell::Cell;
use conway::community::Community;
use conway::coord::Dim2;
use conway::grid::Grid;
use conway::pattern::{Glider, Layout};
use conway::population::{glider_br, Population};
use conway::world::World;

fn live<G: Grid>(g: &G) -> Vec<(usize, usize)> {
    let n = g.size();
    (0..n)
        .flat_map(|x| (0..n).map(move |y| (x, y)))
        .filter(|&(x, y)| matches!(g.item(Dim2(x, y)), Cell::Alive))
        .collect()
}

#[test]
fn world_hands_out_each_generation_in_turn() {
    let mut grid = Community::empty(5);
    grid.insert(Layout::new((1, 1), Glider::BottomRight));
    let mut world = World::new(grid);
    assert_eq!(world.size(), (5, 5));
    let first = world.next().unwrap();
    assert_eq!(live(&first), vec![(1, 2), (2, 3), (3, 1), (3, 2), (3, 3)]);
    let second = world.next().unwrap();
    assert_eq!(live(&second), vec![(2, 1), (2, 3), (3, 2), (3, 3), (4, 2)]);
    assert_eq!(live(world.grid()), live(&second.evolve()));
}

#[test]
fn two_worlds_from_one_grid_agree() {
    let start = glider_br(Population::empty(9), (2, 2));
    let mut a = World::new(start.clone());
    let mut b = World::new(start);
    for _ in 0..40 {
        let x = a.next().unwrap();
        let y = b.next().unwrap();
        assert_eq!(x.to_string(), y.to_string());
        assert_eq!(x.generation(), y.generation());
    }
}

#[test]
fn glider_returns_after_a_full_lap() {
    // On a torus of side 8 a glider moves one cell diagonally every four
    // generations, so after 32 it is back where it started.
    let start = glider_br(Population::empty(8), (0, 0));
    let mut world = World::new(start.clone());
    let mut last = None;
    for _ in 0..33 {
        last = world.next();
    }
    assert_eq!(live(&last.unwrap()), live(&start));
}
