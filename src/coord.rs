//! Two-dimensional coordinates on a square grid.

use vstd::prelude::*;

use crate::grid::GridCoord;

verus! {

/// A position `(row, column)`.
#[derive(Debug, Copy, Clone)]
pub struct Dim2(pub usize, pub usize);

impl Dim2 {
    pub fn x(&self) -> (r: usize)
        ensures
            r == self.0,
    {
        self.0
    }

    pub fn y(&self) -> (r: usize)
        ensures
            r == self.1,
    {
        self.1
    }

    /// The `(row, column)` of entry `index` of a row-major sequence whose rows
    /// hold `size` entries.
    pub fn from_index(index: usize, size: usize) -> (r: Dim2)
        requires
            size > 0,
        ensures
            r.0 == index / size,
            r.1 == index % size,
            r.0 * size + r.1 == index,
    {
        proof {
            vstd::arithmetic::div_mod::lemma_fundamental_div_mod(index as int, size as int);
            vstd::arithmetic::mul::lemma_mul_is_commutative(size as int, index as int / size as int);
        }
        Dim2(index / size, index % size)
    }
}

impl GridCoord for Dim2 {

}

impl From<(usize, usize)> for Dim2 {
    fn from(x: (usize, usize)) -> (r: Dim2) {
        Dim2(x.0, x.1)
    }
}

impl vstd::std_specs::convert::FromSpecImpl<(usize, usize)> for Dim2 {
    open spec fn obeys_from_spec() -> bool {
        true
    }

    open spec fn from_spec(x: (usize, usize)) -> Dim2 {
        Dim2(x.0, x.1)
    }
}

impl From<Dim2> for (usize, usize) {
    fn from(x: Dim2) -> (r: (usize, usize)) {
        (x.0, x.1)
    }
}

impl vstd::std_specs::convert::FromSpecImpl<Dim2> for (usize, usize) {
    open spec fn obeys_from_spec() -> bool {
        true
    }

    open spec fn from_spec(x: Dim2) -> (usize, usize) {
        (x.0, x.1)
    }
}

} // verus!
