//! Grid traits: a square torus of cells with the rules that decide each
//! cell's next state (its fate).
//!
//! Conway rules:
//!
//! 1. Any live cell with fewer than two live neighbours dies, as if caused
//! by underpopulation.
//! 2. Any live cell with two or three live neighbours lives on to the next
//! generation.
//! 3. Any live cell with more than three live neighbours dies, as if by
//! overpopulation.
//! 4. Any dead cell with exactly three live neighbours becomes a live cell,
//! as if by reproduction.

use vstd::prelude::*;

use crate::cell::Cell;
use crate::coord::Dim2;

verus! {

/// What a grid needs of its items: a liveness test and the four transitions.
pub trait GridItem: Sized {
    spec fn spec_alive(&self) -> bool;

    spec fn spec_kill(&self) -> Self;

    spec fn spec_rot(&self) -> Self;

    spec fn spec_revive(&self) -> Self;

    fn is_alive(&self) -> (r: bool)
        ensures
            r == self.spec_alive(),
    ;

    /// Keep as is.
    fn keep(&self) -> (r: Self)
        ensures
            r == *self,
    ;

    /// Kill if alive.
    fn kill(&self) -> (r: Self)
        ensures
            r == self.spec_kill(),
    ;

    /// Rot if dead.
    fn rot(&self) -> (r: Self)
        ensures
            r == self.spec_rot(),
    ;

    /// Revive if not alive.
    fn revive(&self) -> (r: Self)
        ensures
            r == self.spec_revive(),
    ;
}

/// Marker for the coordinate type of a grid.
pub trait GridCoord {

}

/// Successor of `x` on a ring of `n` positions.
pub open spec fn wrap_inc(x: int, n: int) -> int {
    (x + 1) % n
}

/// Predecessor of `x` on a ring of `n` positions.
pub open spec fn wrap_dec(x: int, n: int) -> int {
    if x == 0 {
        n - 1
    } else {
        x - 1
    }
}

/// Every row of `m` is as long as `m` has rows.
pub open spec fn is_square(m: Seq<Seq<Cell>>) -> bool {
    forall|i: int| 0 <= i < m.len() ==> #[trigger] m[i].len() == m.len()
}

/// The eight cells around `(x, y)` on the torus `m`: left, right, up, down,
/// then the diagonals up-left, up-right, down-left, down-right.
pub open spec fn neighbour_cells(m: Seq<Seq<Cell>>, x: int, y: int) -> Seq<Cell> {
    let n = m.len() as int;
    let up = wrap_dec(x, n);
    let down = wrap_inc(x, n);
    let left = wrap_dec(y, n);
    let right = wrap_inc(y, n);
    seq![
        m[x][left],
        m[x][right],
        m[up][y],
        m[down][y],
        m[up][left],
        m[up][right],
        m[down][left],
        m[down][right],
    ]
}

/// How many cells of `s` are alive.
pub open spec fn count_alive(s: Seq<Cell>) -> nat
    decreases s.len(),
{
    if s.len() == 0 {
        0
    } else {
        count_alive(s.drop_last()) + if s.last() is Alive {
            1nat
        } else {
            0nat
        }
    }
}

/// The transition table: what a cell becomes given `k` live neighbours.
pub open spec fn fate(c: Cell, k: nat) -> Cell {
    if c.spec_alive() {
        if k == 2 || k == 3 {
            c
        } else {
            c.spec_kill()
        }
    } else if k == 3 {
        c.spec_revive()
    } else {
        c.spec_rot()
    }
}

/// The next state of the cell at `(x, y)` of `m`.
pub open spec fn fate_at(m: Seq<Seq<Cell>>, x: int, y: int) -> Cell {
    fate(m[x][y], count_alive(neighbour_cells(m, x, y)))
}

/// The next generation of `m`, every cell computed from `m` alone.
pub open spec fn next_generation(m: Seq<Seq<Cell>>) -> Seq<Seq<Cell>> {
    Seq::new(m.len(), |x: int| Seq::new(m.len(), |y: int| fate_at(m, x, y)))
}

/// The generation counter after `g`: one more, stopping at the largest
/// `usize` rather than wrap.
pub open spec fn next_count(g: usize) -> usize {
    if g < usize::MAX {
        (g + 1) as usize
    } else {
        g
    }
}

/// A square torus of cells.
pub trait Grid: Sized {
    /// The representation's own invariant.
    spec fn wf(&self) -> bool;

    /// The cells, row by row.
    spec fn matrix(&self) -> Seq<Seq<Cell>>;

    /// The generation counter. It takes no part in the rules.
    spec fn spec_generation(&self) -> usize;

    /// The cells of a well-formed grid form a square.
    proof fn lemma_square(&self)
        requires
            self.wf(),
        ensures
            is_square(self.matrix()),
    ;

    /// The size of the grid. E.g. A 3 x 3 grid has size 3.
    fn size(&self) -> (r: usize)
        requires
            self.wf(),
        ensures
            r == self.matrix().len(),
    ;

    /// The value of the item positioned at the given coords.
    fn item(&self, coord: Dim2) -> (r: Cell)
        requires
            self.wf(),
            coord.0 < self.matrix().len(),
            coord.1 < self.matrix().len(),
        ensures
            r == self.matrix()[coord.0 as int][coord.1 as int],
    ;

    /// The item neighbours.
    fn item_neighbours(&self, coord: Dim2) -> (r: Vec<Cell>)
        requires
            self.wf(),
            coord.0 < self.matrix().len(),
            coord.1 < self.matrix().len(),
        ensures
            r@ == neighbour_cells(self.matrix(), coord.0 as int, coord.1 as int),
    ;

    /// The next generation.
    fn evolve(&self) -> (r: Self)
        requires
            self.wf(),
        ensures
            r.wf(),
            r.matrix() == next_generation(self.matrix()),
            r.spec_generation() == next_count(self.spec_generation()),
    ;

    /// Evolves the item to its next state.
    fn item_fate(&self, coord: Dim2) -> (r: Cell)
        requires
            self.wf(),
            coord.0 < self.matrix().len(),
            coord.1 < self.matrix().len(),
        ensures
            r == fate_at(self.matrix(), coord.0 as int, coord.1 as int),
    {
        let ns = self.item_neighbours(coord);
        let count = count_alive_cells(&ns);
        let cell = self.item(coord);
        if cell.is_alive() {
            if count == 2 || count == 3 {
                cell.keep()
            } else {
                cell.kill()
            }
        } else if count == 3 {
            cell.revive()
        } else {
            cell.rot()
        }
    }
}

/// How many cells of `v` are alive.
pub fn count_alive_cells(v: &Vec<Cell>) -> (r: usize)
    ensures
        r == count_alive(v@),
{
    let mut count: usize = 0;
    let mut i: usize = 0;
    while i < v.len()
        invariant
            i <= v.len(),
            count <= i,
            count == count_alive(v@.subrange(0, i as int)),
        decreases v.len() - i,
    {
        assert(v@.subrange(0, i as int + 1).drop_last() == v@.subrange(0, i as int));
        if v[i].is_alive() {
            count = count + 1;
        }
        i = i + 1;
    }
    assert(v@.subrange(0, i as int) == v@);
    count
}

/// Successor of `x` on a ring of `n` positions.
pub fn inc(x: usize, n: usize) -> (r: usize)
    requires
        x < n,
    ensures
        r == wrap_inc(x as int, n as int),
        r < n,
{
    let x = x + 1;
    if x >= n {
        proof {
            vstd::arithmetic::div_mod::lemma_mod_self_0(n as int);
        }
        x % n
    } else {
        proof {
            vstd::arithmetic::div_mod::lemma_small_mod(x as nat, n as nat);
        }
        x
    }
}

/// Predecessor of `x` on a ring of `n` positions.
pub fn dec(x: usize, n: usize) -> (r: usize)
    requires
        x < n,
    ensures
        r == wrap_dec(x as int, n as int),
        r < n,
{
    if x == 0 {
        n - 1
    } else {
        x - 1
    }
}


/// The eight offsets `(row, column)` of the neighbours, in lookup order.
pub open spec fn neighbour_offsets() -> Seq<(int, int)> {
    seq![(0, -1), (0, 1), (-1, 0), (1, 0), (-1, -1), (-1, 1), (1, -1), (1, 1)]
}

/// The position of neighbour `k` of `(x, y)` on an `n × n` torus, by plain
/// modular arithmetic.
pub open spec fn neighbour_position(x: int, y: int, n: int, k: int) -> (int, int) {
    ((x + neighbour_offsets()[k].0) % n, (y + neighbour_offsets()[k].1) % n)
}

pub(crate) proof fn lemma_wrap_is_mod(x: int, n: int)
    requires
        0 <= x < n,
    ensures
        wrap_inc(x, n) == (x + 1) % n,
        wrap_inc(x, n) == if x + 1 == n {
            0
        } else {
            x + 1
        },
        wrap_dec(x, n) == (x + -1) % n,
        (x + 0) % n == x,
        0 <= wrap_inc(x, n) < n,
        0 <= wrap_dec(x, n) < n,
        n >= 3 ==> wrap_inc(x, n) != x && wrap_dec(x, n) != x && wrap_inc(x, n) != wrap_dec(
            x,
            n,
        ),
{
    vstd::arithmetic::div_mod::lemma_small_mod(x as nat, n as nat);
    if x + 1 < n {
        vstd::arithmetic::div_mod::lemma_small_mod((x + 1) as nat, n as nat);
    } else {
        vstd::arithmetic::div_mod::lemma_mod_self_0(n);
    }
    if x > 0 {
        vstd::arithmetic::div_mod::lemma_small_mod((x - 1) as nat, n as nat);
    } else {
        vstd::arithmetic::div_mod::lemma_mod_add_multiples_vanish(-1, n);
        vstd::arithmetic::div_mod::lemma_small_mod((n - 1) as nat, n as nat);
    }
}

/// On an `n × n` torus with `n >= 3` a cell has exactly eight neighbours:
/// `neighbour_cells` lists the cells at `((x + dx) mod n, (y + dy) mod n)` for
/// the eight offsets, and these are eight different positions of the grid,
/// none of them the cell itself.
pub proof fn lemma_neighbours(m: Seq<Seq<Cell>>, x: int, y: int)
    requires
        is_square(m),
        m.len() >= 3,
        0 <= x < m.len(),
        0 <= y < m.len(),
    ensures
        neighbour_cells(m, x, y).len() == 8,
        forall|k: int|
            0 <= k < 8 ==> {
                let p = #[trigger] neighbour_position(x, y, m.len() as int, k);
                &&& 0 <= p.0 < m.len()
                &&& 0 <= p.1 < m.len()
                &&& p != (x, y)
                &&& neighbour_cells(m, x, y)[k] == m[p.0][p.1]
            },
        forall|k1: int, k2: int|
            0 <= k1 < k2 < 8 ==> #[trigger] neighbour_position(x, y, m.len() as int, k1)
                != #[trigger] neighbour_position(x, y, m.len() as int, k2),
{
    let n = m.len() as int;
    lemma_wrap_is_mod(x, n);
    lemma_wrap_is_mod(y, n);
    let up = wrap_dec(x, n);
    let down = wrap_inc(x, n);
    let left = wrap_dec(y, n);
    let right = wrap_inc(y, n);
    let ps = seq![(x, left), (x, right), (up, y), (down, y), (up, left), (up, right), (down, left), (down, right)];
    assert forall|k: int| 0 <= k < 8 implies #[trigger] neighbour_position(x, y, n, k) == ps[k] by {
        assert(k == 0 || k == 1 || k == 2 || k == 3 || k == 4 || k == 5 || k == 6 || k == 7);
    }
    assert forall|k1: int, k2: int| 0 <= k1 < k2 < 8 implies #[trigger] neighbour_position(
        x,
        y,
        n,
        k1,
    ) != #[trigger] neighbour_position(x, y, n, k2) by {
        assert(neighbour_position(x, y, n, k1) == ps[k1]);
        assert(neighbour_position(x, y, n, k2) == ps[k2]);
        assert(k1 == 0 || k1 == 1 || k1 == 2 || k1 == 3 || k1 == 4 || k1 == 5 || k1 == 6);
        assert(k2 == 1 || k2 == 2 || k2 == 3 || k2 == 4 || k2 == 5 || k2 == 6 || k2 == 7);
    }
    assert forall|k: int| 0 <= k < 8 implies {
        let p = #[trigger] neighbour_position(x, y, n, k);
        &&& 0 <= p.0 < n
        &&& 0 <= p.1 < n
        &&& p != (x, y)
        &&& neighbour_cells(m, x, y)[k] == m[p.0][p.1]
    } by {
        assert(neighbour_position(x, y, n, k) == ps[k]);
        assert(k == 0 || k == 1 || k == 2 || k == 3 || k == 4 || k == 5 || k == 6 || k == 7);
    }
}

/// Evolution holds no hidden state and draws no random numbers: two runs of
/// `evolve` on grids with the same cells and the same generation counter give
/// grids with the same cells and the same generation counter.
pub proof fn lemma_evolve_deterministic<G: Grid>(a: G, b: G, ra: G, rb: G)
    requires
        a.wf(),
        b.wf(),
        a.matrix() == b.matrix(),
        a.spec_generation() == b.spec_generation(),
        call_ensures(G::evolve, (&a,), ra),
        call_ensures(G::evolve, (&b,), rb),
    ensures
        ra.wf(),
        rb.wf(),
        ra.matrix() == rb.matrix(),
        ra.spec_generation() == rb.spec_generation(),
{
}

} // verus!
