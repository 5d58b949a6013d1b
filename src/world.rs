//! The world: one grid and the sequence of its generations.

use vstd::prelude::*;

use crate::grid::{next_count, next_generation, Grid};

verus! {

/// The world of Conway.
#[derive(Debug, Clone)]
pub struct World<T> {
    grid: T,
    width: usize,
    height: usize,
}

impl<T: Grid> World<T> {
    /// The grid that the next call of `next` hands out.
    pub closed spec fn spec_grid(&self) -> T {
        self.grid
    }

    pub closed spec fn wf(&self) -> bool {
        &&& self.grid.wf()
        &&& self.width == self.grid.matrix().len()
        &&& self.height == self.grid.matrix().len()
    }

    pub fn new(grid: T) -> (r: Self)
        requires
            grid.wf(),
        ensures
            r.wf(),
            r.spec_grid() == grid,
    {
        let size = grid.size();
        World { grid: grid, width: size, height: size }
    }

    /// The side of the grid, twice: `(width, height)`.
    pub fn size(&self) -> (r: (usize, usize))
        requires
            self.wf(),
        ensures
            r.0 == self.spec_grid().matrix().len(),
            r.1 == self.spec_grid().matrix().len(),
    {
        (self.width, self.height)
    }

    pub fn grid(&self) -> (r: &T)
        ensures
            *r == self.spec_grid(),
    {
        &self.grid
    }

    /// Hands out the current grid and moves the world on by one generation.
    /// The sequence never ends: the result is always `Some`.
    pub fn next(&mut self) -> (r: Option<T>)
        requires
            old(self).wf(),
        ensures
            final(self).wf(),
            r == Some(old(self).spec_grid()),
            call_ensures(T::evolve, (&old(self).spec_grid(),), final(self).spec_grid()),
            final(self).spec_grid().matrix() == next_generation(old(self).spec_grid().matrix()),
            final(self).spec_grid().spec_generation() == next_count(
                old(self).spec_grid().spec_generation(),
            ),
    {
        let mut grid = self.grid.evolve();
        std::mem::swap(&mut self.grid, &mut grid);
        Some(grid)
    }
}

} // verus!
