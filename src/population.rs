//! The flat grid: the cells of a square held in one row-major vector.

use vstd::prelude::*;

use crate::cell::{same_category, symbol_of, symbol_str, Cell};
use crate::community::matrices_match;
use crate::coord::Dim2;
use crate::grid::{dec, fate_at, inc, neighbour_cells, next_count, next_generation, Grid};
use vstd::std_specs::cmp::PartialEqSpec;
use vstd::std_specs::convert::FromSpec;

verus! {

/// `r` is the integer square root of `n`.
pub open spec fn is_isqrt(r: nat, n: nat) -> bool {
    r * r <= n < (r + 1) * (r + 1)
}

/// The integer square root of `n`.
pub open spec fn isqrt_spec(n: nat) -> nat {
    choose|r: nat| is_isqrt(r, n)
}

/// The first `size * size` entries of `s` read as a `size × size` matrix.
pub open spec fn square_of(s: Seq<Cell>, size: nat) -> Seq<Seq<Cell>> {
    Seq::new(size, |i: int| Seq::new(size, |j: int| s[i * size + j]))
}

/// `m` with the cell at `(x, y)` made alive.
pub open spec fn set_alive(m: Seq<Seq<Cell>>, x: int, y: int) -> Seq<Seq<Cell>> {
    m.update(x, m[x].update(y, Cell::Alive))
}

proof fn lemma_isqrt_unique(r: nat, s: nat, n: nat)
    requires
        is_isqrt(r, n),
        is_isqrt(s, n),
    ensures
        r == s,
{
    if r < s {
        assert((r + 1) * (r + 1) <= s * s) by (nonlinear_arith)
            requires
                r + 1 <= s,
        ;
    } else if s < r {
        assert((s + 1) * (s + 1) <= r * r) by (nonlinear_arith)
            requires
                s + 1 <= r,
        ;
    }
}

proof fn lemma_isqrt_spec(r: nat, n: nat)
    requires
        is_isqrt(r, n),
    ensures
        isqrt_spec(n) == r,
{
    assert(is_isqrt(isqrt_spec(n), n));
    lemma_isqrt_unique(isqrt_spec(n), r, n);
}

proof fn lemma_square_is_isqrt(s: nat)
    ensures
        is_isqrt(s, s * s),
{
    assert(s * s < (s + 1) * (s + 1)) by (nonlinear_arith);
}

/// Entry `i * size + j` of a row-major square lies inside it and is the
/// entry at row `i` and column `j`.
proof fn lemma_index(i: int, j: int, size: int)
    requires
        0 <= i < size,
        0 <= j < size,
    ensures
        0 <= i * size + j < size * size,
        (i * size + j) / size == i,
        (i * size + j) % size == j,
{
    assert(0 <= i * size + j < size * size) by (nonlinear_arith)
        requires
            0 <= i < size,
            0 <= j < size,
    ;
    vstd::arithmetic::div_mod::lemma_fundamental_div_mod_converse(i * size + j, size, i, j);
}

/// The integer square root of `n`.
pub fn isqrt(n: usize) -> (r: usize)
    ensures
        is_isqrt(r as nat, n as nat),
        r == isqrt_spec(n as nat),
{
    let mut r: usize = 0;
    while r < n && r + 1 <= n / (r + 1)
        invariant
            r * r <= n,
            r <= n,
        decreases n - r,
    {
        proof {
            let d = (r + 1) as int;
            vstd::arithmetic::div_mod::lemma_fundamental_div_mod(n as int, d);
            assert(d * d <= n) by (nonlinear_arith)
                requires
                    d <= n as int / d,
                    n as int == d * (n as int / d) + n as int % d,
                    0 <= n as int % d,
                    d > 0,
            ;
        }
        r = r + 1;
    }
    proof {
        let d = (r + 1) as int;
        if r < n {
            vstd::arithmetic::div_mod::lemma_fundamental_div_mod(n as int, d);
            assert(n < d * d) by (nonlinear_arith)
                requires
                    d > n as int / d,
                    n as int == d * (n as int / d) + n as int % d,
                    n as int % d < d,
                    d > 0,
            ;
        } else {
            assert(n < d * d) by (nonlinear_arith)
                requires
                    r == n,
                    d == r + 1,
            ;
        }
        lemma_isqrt_spec(r as nat, n as nat);
    }
    r
}

/// The text of the first `k` cells of `s`, in lines of `w` cells: each
/// cell's symbol, with a newline after every `w`-th cell and after the last.
pub open spec fn prefix_text(s: Seq<Cell>, w: nat, k: nat) -> Seq<char>
    decreases k,
{
    if k == 0 {
        Seq::empty()
    } else {
        prefix_text(s, w, (k - 1) as nat) + seq![symbol_of(s[k - 1])] + if k % w == 0 || k
            == s.len() {
            seq!['\n']
        } else {
            Seq::empty()
        }
    }
}

/// A grid held as one row-major vector of cells, with a generation counter.
///
/// The side is the integer square root of the number of cells; entries past
/// the square are kept but take no part in the grid.
#[derive(Debug, Clone, Eq)]
pub struct Population {
    cells: Vec<Cell>,
    size: usize,
    gen: usize,
}

impl Population {
    /// The cells as they are stored.
    pub closed spec fn cells_view(&self) -> Seq<Cell> {
        self.cells@
    }

    /// The grid reads the stored cells row by row: the cell at row `i` and
    /// column `j` is entry `i * n + j`, and the `n × n` square fits in what is
    /// stored, `n` being the integer square root of its length.
    pub proof fn lemma_cells_layout(&self)
        requires
            self.wf(),
        ensures
            ({
                let n = self.matrix().len();
                &&& is_isqrt(n, self.cells_view().len())
                &&& n * n <= self.cells_view().len()
                &&& forall|i: int, j: int|
                    0 <= i < n && 0 <= j < n ==> #[trigger] self.matrix()[i][j]
                        == self.cells_view()[i * n + j]
            }),
    {
    }

    pub fn new(cells: Vec<Cell>, gen: usize) -> (r: Self)
        ensures
            r.wf(),
            r.cells_view() == cells@,
            r.matrix() == square_of(cells@, isqrt_spec(cells@.len())),
            r.spec_generation() == gen,
    {
        let size = isqrt(cells.len());
        Population { cells: cells, size: size, gen: gen }
    }

    /// A `size × size` grid of unborn cells at generation 1.
    pub fn empty(size: usize) -> (r: Self)
        requires
            size * size <= usize::MAX,
        ensures
            r.wf(),
            r.matrix() == crate::community::blank(size as nat),
            r.spec_generation() == 1,
    {
        let n = size * size;
        let mut v: Vec<bool> = Vec::new();
        let mut i: usize = 0;
        while i < n
            invariant
                i <= n,
                v.len() == i,
                forall|k: int| 0 <= k < i ==> !#[trigger] v@[k],
            decreases n - i,
        {
            v.push(false);
            i = i + 1;
        }
        let ghost flags = v@;
        let r = Population::from_bools(v);
        proof {
            assert(flags.len() == n);
            lemma_square_is_isqrt(size as nat);
            lemma_isqrt_spec(size as nat, n as nat);
            assert forall|i: int, j: int| 0 <= i < size && 0 <= j < size implies r.matrix()[i][j]
                == Cell::Unborn by {
                lemma_index(i, j, size as int);
                assert(!flags[i * size + j]);
            }
            assert forall|i: int| 0 <= i < size implies r.matrix()[i] =~= crate::community::blank(
                size as nat,
            )[i] by {}
            assert(r.matrix() =~= crate::community::blank(size as nat));
        }
        r
    }

    /// A grid of live and unborn cells at generation 1, one cell per flag.
    pub fn from_bools(xs: Vec<bool>) -> (r: Self)
        ensures
            r.wf(),
            r.cells_view() == xs@.map_values(|b: bool| Cell::from_spec(b)),
            r.matrix() == square_of(r.cells_view(), isqrt_spec(xs@.len())),
            r.spec_generation() == 1,
    {
        let mut cells: Vec<Cell> = Vec::new();
        let mut i: usize = 0;
        while i < xs.len()
            invariant
                i <= xs.len(),
                cells.len() == i,
                forall|k: int| 0 <= k < i ==> #[trigger] cells@[k] == Cell::from_spec(xs@[k]),
            decreases xs.len() - i,
        {
            cells.push(Cell::from(xs[i]));
            i = i + 1;
        }
        assert(cells@ =~= xs@.map_values(|b: bool| Cell::from_spec(b)));
        Population::new(cells, 1)
    }

    pub fn cells(&self) -> (r: &Vec<Cell>)
        ensures
            r@ == self.cells_view(),
    {
        &self.cells
    }

    /// The next generation, every cell computed from this one.
    pub fn evolve(&self) -> (r: Self)
        requires
            self.wf(),
        ensures
            r.wf(),
            r.matrix() == next_generation(self.matrix()),
            r.cells_view().len() == self.matrix().len() * self.matrix().len(),
            r.spec_generation() == next_count(self.spec_generation()),
    {
        let size = self.size;
        let ghost m = self.matrix();
        let mut v: Vec<Cell> = Vec::new();
        let mut x: usize = 0;
        while x < size
            invariant
                self.wf(),
                self.size == size,
                m == self.matrix(),
                x <= size,
                v.len() == x * size,
                forall|k: int|
                    0 <= k < v.len() ==> #[trigger] v@[k] == fate_at(m, k / size as int, k % size as int),
            decreases size - x,
        {
            let mut y: usize = 0;
            while y < size
                invariant
                    self.wf(),
                    self.size == size,
                    m == self.matrix(),
                    x < size,
                    y <= size,
                    v.len() == x * size + y,
                    forall|k: int|
                        0 <= k < v.len() ==> #[trigger] v@[k] == fate_at(
                            m,
                            k / size as int,
                            k % size as int,
                        ),
                decreases size - y,
            {
                proof {
                    lemma_index(x as int, y as int, size as int);
                }
                v.push(self.item_fate(Dim2(x, y)));
                y = y + 1;
            }
            proof {
                vstd::arithmetic::mul::lemma_mul_is_distributive_add_other_way(
                    size as int,
                    x as int,
                    1,
                );
            }
            x = x + 1;
        }
        let r = Population::new(v, self.gen.saturating_add(1));
        proof {
            lemma_square_is_isqrt(size as nat);
            lemma_isqrt_spec(size as nat, (size * size) as nat);
            assert forall|i: int, j: int| 0 <= i < size && 0 <= j < size implies r.matrix()[i][j]
                == next_generation(m)[i][j] by {
                lemma_index(i, j, size as int);
            }
            assert forall|i: int| 0 <= i < size implies r.matrix()[i] =~= next_generation(m)[i] by {
            }
            assert(r.matrix() =~= next_generation(m));
        }
        r
    }

    /// Brings the cell at `coord` to life.
    pub fn regenerate(&mut self, coord: Dim2)
        requires
            old(self).wf(),
            coord.0 < old(self).matrix().len(),
            coord.1 < old(self).matrix().len(),
        ensures
            final(self).wf(),
            final(self).matrix() == set_alive(old(self).matrix(), coord.0 as int, coord.1 as int),
            final(self).cells_view().len() == old(self).cells_view().len(),
            forall|k: int|
                old(self).matrix().len() * old(self).matrix().len() <= k < old(self).cells_view().len()
                    ==> #[trigger] final(self).cells_view()[k] == old(self).cells_view()[k],
            final(self).cells_view() == old(self).cells_view().update(
                coord.0 * old(self).matrix().len() + coord.1,
                Cell::Alive,
            ),
            final(self).spec_generation() == old(self).spec_generation(),
    {
        let (x, y) = (coord.0, coord.1);
        let size = self.size;
        let ghost m = self.matrix();
        let len = self.cells.len();
        proof {
            lemma_index(x as int, y as int, size as int);
        }
        self.cells.set(x * size + y, Cell::Alive);
        proof {
            assert forall|i: int, j: int| 0 <= i < size && 0 <= j < size implies self.matrix()[i][j]
                == set_alive(m, x as int, y as int)[i][j] by {
                lemma_index(i, j, size as int);
                if i != x || j != y {
                    assert(i * size + j != x * size + y);
                }
            }
            assert forall|i: int| 0 <= i < size implies self.matrix()[i] =~= set_alive(
                m,
                x as int,
                y as int,
            )[i] by {}
            assert(self.matrix() =~= set_alive(m, x as int, y as int));
        }
    }

    /// Every stored cell with its coordinate, in storage order; the
    /// coordinate of entry `i` is `Dim2::from_index(i, size)`.
    pub fn enumerate(&self) -> (r: Vec<(Dim2, Cell)>)
        requires
            self.wf(),
        ensures
            r@.len() == self.cells_view().len(),
            forall|k: int|
                0 <= k < r@.len() ==> {
                    let n = self.matrix().len() as int;
                    &&& (#[trigger] r@[k]).0.0 == k / n
                    &&& r@[k].0.1 == k % n
                    &&& r@[k].1 == self.cells_view()[k]
                },
    {
        let size = self.size;
        let mut r: Vec<(Dim2, Cell)> = Vec::new();
        let mut i: usize = 0;
        while i < self.cells.len()
            invariant
                self.wf(),
                size == self.size,
                i <= self.cells.len(),
                r.len() == i,
                forall|k: int|
                    0 <= k < i ==> {
                        &&& (#[trigger] r@[k]).0.0 == k / (size as int)
                        &&& r@[k].0.1 == k % (size as int)
                        &&& r@[k].1 == self.cells@[k]
                    },
            decreases self.cells.len() - i,
        {
            assert(size > 0) by (nonlinear_arith)
                requires
                    self.cells@.len() < (size + 1) * (size + 1),
                    i < self.cells@.len(),
            ;
            r.push((Dim2::from_index(i, size), self.cells[i]));
            i = i + 1;
        }
        r
    }

    /// The cells as text, `size` cells to a line: `#` alive, `.` dead,
    /// `_` unborn.
    pub fn to_string(&self) -> (r: String)
        requires
            self.wf(),
        ensures
            r@ == prefix_text(self.cells_view(), self.matrix().len(), self.cells_view().len()),
    {
        let w = self.size;
        let mut s = String::new();
        let mut i: usize = 0;
        while i < self.cells.len()
            invariant
                self.wf(),
                w == self.size,
                i <= self.cells.len(),
                s@ == prefix_text(self.cells@, w as nat, i as nat),
            decreases self.cells.len() - i,
        {
            assert(w > 0) by (nonlinear_arith)
                requires
                    self.cells@.len() < (w + 1) * (w + 1),
                    i < self.cells@.len(),
            ;
            let ghost before = s@;
            s.append(symbol_str(self.cells[i]));
            if (i + 1) % w == 0 || i + 1 == self.cells.len() {
                proof {
                    reveal_strlit("\n");
                }
                s.append("\n");
                assert(s@ =~= before + seq![symbol_of(self.cells@[i as int])] + seq!['\n']);
            } else {
                assert(s@ =~= before + seq![symbol_of(self.cells@[i as int])] + Seq::<char>::empty());
            }
            i = i + 1;
        }
        s
    }

    pub fn generation(&self) -> (r: usize)
        ensures
            r == self.spec_generation(),
    {
        self.gen
    }
}

impl Grid for Population {
    closed spec fn wf(&self) -> bool {
        &&& is_isqrt(self.size as nat, self.cells@.len())
        &&& self.size * self.size <= self.cells@.len()
    }

    closed spec fn matrix(&self) -> Seq<Seq<Cell>> {
        square_of(self.cells@, self.size as nat)
    }

    closed spec fn spec_generation(&self) -> usize {
        self.gen
    }

    proof fn lemma_square(&self) {
    }

    fn size(&self) -> (r: usize) {
        self.size
    }

    fn item(&self, coord: Dim2) -> (r: Cell) {
        let len = self.cells.len();
        proof {
            lemma_index(coord.0 as int, coord.1 as int, self.size as int);
        }
        self.cells[coord.0 * self.size + coord.1]
    }

    fn item_neighbours(&self, coord: Dim2) -> (r: Vec<Cell>) {
        let (x, y) = (coord.0, coord.1);
        let size = self.size;
        let up = dec(x, size);
        let down = inc(x, size);
        let left = dec(y, size);
        let right = inc(y, size);
        let r = vec![
            self.item(Dim2(x, left)),
            self.item(Dim2(x, right)),
            self.item(Dim2(up, y)),
            self.item(Dim2(down, y)),
            self.item(Dim2(up, left)),
            self.item(Dim2(up, right)),
            self.item(Dim2(down, left)),
            self.item(Dim2(down, right)),
        ];
        assert(r@ =~= neighbour_cells(self.matrix(), x as int, y as int));
        r
    }

    fn evolve(&self) -> (r: Self) {
        Population::evolve(self)
    }
}

impl PartialEq for Population {
    fn eq(&self, other: &Population) -> (r: bool) {
        let r = self.cells == other.cells;
        proof {
            if r {
                assert forall|i: int| 0 <= i < self.cells@.len() implies same_category(
                    #[trigger] self.cells@[i],
                    other.cells@[i],
                ) by {
                    assert(self.cells@[i].eq_spec(&other.cells@[i]));
                }
            }
            if cells_match(self.cells@, other.cells@) {
                assert forall|i: int| 0 <= i < self.cells@.len() implies #[trigger] self.cells@[i].eq_spec(&other.cells@[i]) by {
                    assert(same_category(self.cells@[i], other.cells@[i]));
                }
            }
        }
        r
    }
}

/// Two sequences of the same length whose cells agree in category.
pub open spec fn cells_match(a: Seq<Cell>, b: Seq<Cell>) -> bool {
    &&& a.len() == b.len()
    &&& forall|i: int| 0 <= i < a.len() ==> same_category(#[trigger] a[i], b[i])
}

impl vstd::std_specs::cmp::PartialEqSpecImpl for Population {
    open spec fn obeys_eq_spec() -> bool {
        true
    }

    open spec fn eq_spec(&self, other: &Population) -> bool {
        cells_match(self.cells_view(), other.cells_view())
    }
}

impl From<Vec<bool>> for Population {
    fn from(xs: Vec<bool>) -> (r: Population) {
        Population::from_bools(xs)
    }
}

impl From<Vec<Cell>> for Population {
    fn from(xs: Vec<Cell>) -> (r: Population) {
        Population::new(xs, 1)
    }
}

// A vector has no spec-level constructor, so neither conversion is given as a
// spec function: what they build is stated by `from_bools` and `new`.
impl vstd::std_specs::convert::FromSpecImpl<Vec<bool>> for Population {
    open spec fn obeys_from_spec() -> bool {
        false
    }

    open spec fn from_spec(xs: Vec<bool>) -> Population {
        arbitrary()
    }
}

impl vstd::std_specs::convert::FromSpecImpl<Vec<Cell>> for Population {
    open spec fn obeys_from_spec() -> bool {
        false
    }

    open spec fn from_spec(xs: Vec<Cell>) -> Population {
        arbitrary()
    }
}


/// `m` with the cells at `(x + dx, y + dy)` made alive, for each offset
/// `(dx, dy)` of `cells` in turn.
pub open spec fn stamp(m: Seq<Seq<Cell>>, cells: Seq<(int, int)>, x: int, y: int) -> Seq<
    Seq<Cell>,
>
    decreases cells.len(),
{
    if cells.len() == 0 {
        m
    } else {
        set_alive(stamp(m, cells.drop_last(), x, y), x + cells.last().0, y + cells.last().1)
    }
}

/// The glider that travels towards the bottom right.
pub open spec fn glider_br_cells() -> Seq<(int, int)> {
    seq![(0, 1), (1, 2), (2, 0), (2, 1), (2, 2)]
}

/// The glider that travels towards the top left.
pub open spec fn glider_tl_cells() -> Seq<(int, int)> {
    seq![(0, 0), (0, 1), (0, 2), (1, 0), (2, 1)]
}

/// The glider that travels towards the top right.
pub open spec fn glider_bl_cells() -> Seq<(int, int)> {
    seq![(0, 0), (0, 1), (0, 2), (1, 2), (2, 1)]
}

/// The glider that travels towards the bottom left.
pub open spec fn glider_tr_cells() -> Seq<(int, int)> {
    seq![(0, 1), (1, 0), (2, 0), (2, 1), (2, 2)]
}

/// A glider's 3 × 3 square at `offset` lies inside the grid.
pub open spec fn glider_fits(population: Population, offset: (usize, usize)) -> bool {
    &&& population.wf()
    &&& offset.0 + 2 < population.matrix().len()
    &&& offset.1 + 2 < population.matrix().len()
}

/// Places the bottom-right glider with its top-left corner at `offset`.
pub fn glider(population: Population, offset: (usize, usize)) -> (r: Population)
    requires
        glider_fits(population, offset),
    ensures
        r.wf(),
        r.matrix() == stamp(population.matrix(), glider_br_cells(), offset.0 as int, offset.1 as int),
        r.cells_view().len() == population.cells_view().len(),
        forall|k: int|
            population.matrix().len() * population.matrix().len() <= k < population.cells_view().len()
                ==> #[trigger] r.cells_view()[k] == population.cells_view()[k],
        r.spec_generation() == population.spec_generation(),
{
    glider_br(population, offset)
}

/// Glider
///
/// ```text
/// _ # _ _ _    _ _ _ _ _    _ _ _ _ _
/// _ _ # _ _    # _ # _ _    _ _ # _ _
/// # # # _ _    _ # # _ _    # _ # _ _
/// _ _ _ _ _    _ # _ _ _    _ # # _ _
/// _ _ _ _ _    _ _ _ _ _    _ _ _ _ _
/// ```
pub fn glider_br(population: Population, offset: (usize, usize)) -> (r: Population)
    requires
        glider_fits(population, offset),
    ensures
        r.wf(),
        r.matrix() == stamp(population.matrix(), glider_br_cells(), offset.0 as int, offset.1 as int),
        r.cells_view().len() == population.cells_view().len(),
        forall|k: int|
            population.matrix().len() * population.matrix().len() <= k < population.cells_view().len()
                ==> #[trigger] r.cells_view()[k] == population.cells_view()[k],
        r.spec_generation() == population.spec_generation(),
{
    let (x, y) = offset;
    let mut population = population;
    population.regenerate(Dim2(x + 0, y + 1));
    population.regenerate(Dim2(x + 1, y + 2));
    population.regenerate(Dim2(x + 2, y + 0));
    population.regenerate(Dim2(x + 2, y + 1));
    population.regenerate(Dim2(x + 2, y + 2));
    proof {
        reveal_with_fuel(stamp, 6);
    }
    population
}

/// ```text
/// # # # _ _
/// # _ _ _ _
/// _ # _ _ _
/// _ _ _ _ _
/// _ _ _ _ _
/// ```
pub fn glider_tl(population: Population, offset: (usize, usize)) -> (r: Population)
    requires
        glider_fits(population, offset),
    ensures
        r.wf(),
        r.matrix() == stamp(population.matrix(), glider_tl_cells(), offset.0 as int, offset.1 as int),
        r.cells_view().len() == population.cells_view().len(),
        forall|k: int|
            population.matrix().len() * population.matrix().len() <= k < population.cells_view().len()
                ==> #[trigger] r.cells_view()[k] == population.cells_view()[k],
        r.spec_generation() == population.spec_generation(),
{
    let (x, y) = offset;
    let mut population = population;
    population.regenerate(Dim2(x + 0, y + 0));
    population.regenerate(Dim2(x + 0, y + 1));
    population.regenerate(Dim2(x + 0, y + 2));
    population.regenerate(Dim2(x + 1, y + 0));
    population.regenerate(Dim2(x + 2, y + 1));
    proof {
        reveal_with_fuel(stamp, 6);
    }
    population
}

/// ```text
/// # # # _ _
/// _ _ # _ _
/// _ # _ _ _
/// _ _ _ _ _
/// _ _ _ _ _
/// ```
pub fn glider_bl(population: Population, offset: (usize, usize)) -> (r: Population)
    requires
        glider_fits(population, offset),
    ensures
        r.wf(),
        r.matrix() == stamp(population.matrix(), glider_bl_cells(), offset.0 as int, offset.1 as int),
        r.cells_view().len() == population.cells_view().len(),
        forall|k: int|
            population.matrix().len() * population.matrix().len() <= k < population.cells_view().len()
                ==> #[trigger] r.cells_view()[k] == population.cells_view()[k],
        r.spec_generation() == population.spec_generation(),
{
    let (x, y) = offset;
    let mut population = population;
    population.regenerate(Dim2(x + 0, y + 0));
    population.regenerate(Dim2(x + 0, y + 1));
    population.regenerate(Dim2(x + 0, y + 2));
    population.regenerate(Dim2(x + 1, y + 2));
    population.regenerate(Dim2(x + 2, y + 1));
    proof {
        reveal_with_fuel(stamp, 6);
    }
    population
}

/// ```text
/// _ # _ _ _
/// # _ _ _ _
/// # # # _ _
/// _ _ _ _ _
/// _ _ _ _ _
/// ```
pub fn glider_tr(population: Population, offset: (usize, usize)) -> (r: Population)
    requires
        glider_fits(population, offset),
    ensures
        r.wf(),
        r.matrix() == stamp(population.matrix(), glider_tr_cells(), offset.0 as int, offset.1 as int),
        r.cells_view().len() == population.cells_view().len(),
        forall|k: int|
            population.matrix().len() * population.matrix().len() <= k < population.cells_view().len()
                ==> #[trigger] r.cells_view()[k] == population.cells_view()[k],
        r.spec_generation() == population.spec_generation(),
{
    let (x, y) = offset;
    let mut population = population;
    population.regenerate(Dim2(x + 0, y + 1));
    population.regenerate(Dim2(x + 1, y + 0));
    population.regenerate(Dim2(x + 2, y + 0));
    population.regenerate(Dim2(x + 2, y + 1));
    population.regenerate(Dim2(x + 2, y + 2));
    proof {
        reveal_with_fuel(stamp, 6);
    }
    population
}

} // verus!
