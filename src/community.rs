//! The dense grid: a square matrix of cells held row by row.

use vstd::prelude::*;

use crate::cell::{same_category, symbol_of, symbol_str, Cell};
use crate::coord::Dim2;
use crate::grid::{is_square, neighbour_cells, next_generation, fate_at, dec, inc, Grid};
use vstd::std_specs::cmp::PartialEqSpec;
use crate::pattern::{fits, is_rect, overlay, rows_of, Layout, Pattern};

verus! {

/// Why a pattern could not be placed.
#[derive(Debug, Clone, Copy, PartialEq, Eq, Structural)]
pub enum PlacementError {
    /// The pattern is larger than the grid on some axis.
    TooLarge,
    /// The pattern fits the grid but not at the given offset.
    OutOfBounds,
}

/// An `n × n` matrix of unborn cells.
pub open spec fn blank(n: nat) -> Seq<Seq<Cell>> {
    Seq::new(n, |i: int| Seq::new(n, |j: int| Cell::Unborn))
}

/// Two matrices of the same shape whose cells agree in category.
pub open spec fn matrices_match(a: Seq<Seq<Cell>>, b: Seq<Seq<Cell>>) -> bool {
    &&& a.len() == b.len()
    &&& forall|i: int| 0 <= i < a.len() ==> #[trigger] a[i].len() == b[i].len()
    &&& forall|i: int, j: int|
        0 <= i < a.len() && 0 <= j < a[i].len() ==> same_category(
            #[trigger] a[i][j],
            b[i][j],
        )
}

/// The symbols of a row.
pub open spec fn row_text(r: Seq<Cell>) -> Seq<char> {
    r.map_values(|c: Cell| symbol_of(c))
}

/// The text of a matrix: the symbols of each row, each row ended by a newline.
pub open spec fn matrix_text(m: Seq<Seq<Cell>>) -> Seq<char>
    decreases m.len(),
{
    if m.len() == 0 {
        Seq::empty()
    } else {
        matrix_text(m.drop_last()) + row_text(m.last()) + seq!['\n']
    }
}

/// A grid held as a square matrix, with a generation counter.
#[derive(Debug, Clone, Eq)]
pub struct Community {
    cells: Vec<Vec<Cell>>,
    size: usize,
    gen: usize,
}

impl Community {
    pub fn new(cells: Vec<Vec<Cell>>, gen: usize) -> (r: Self)
        requires
            is_square(rows_of(cells@)),
        ensures
            r.wf(),
            r.matrix() == rows_of(cells@),
            r.spec_generation() == gen,
    {
        let size = cells.len();
        let r = Community { cells: cells, size: size, gen: gen };
        assert forall|i: int| 0 <= i < size implies #[trigger] r.cells@[i]@.len() == size by {
            assert(rows_of(r.cells@)[i].len() == size);
        }
        r
    }

    /// An `n × n` grid of unborn cells at generation 1.
    pub fn empty(n: usize) -> (r: Self)
        ensures
            r.wf(),
            r.matrix() == blank(n as nat),
            r.spec_generation() == 1,
    {
        let mut cells: Vec<Vec<Cell>> = Vec::new();
        let mut i: usize = 0;
        while i < n
            invariant
                i <= n,
                cells.len() == i,
                forall|k: int| 0 <= k < i ==> #[trigger] cells@[k]@ == blank(n as nat)[k],
            decreases n - i,
        {
            let mut row: Vec<Cell> = Vec::new();
            let mut j: usize = 0;
            while j < n
                invariant
                    j <= n,
                    row.len() == j,
                    forall|t: int| 0 <= t < j ==> #[trigger] row@[t] == Cell::Unborn,
                decreases n - j,
            {
                row.push(Cell::Unborn);
                j = j + 1;
            }
            assert(row@ =~= blank(n as nat)[i as int]);
            cells.push(row);
            i = i + 1;
        }
        assert(rows_of(cells@) =~= blank(n as nat));
        Community::new(cells, 1)
    }

    /// Writes the layout's pattern over the grid, overwriting every cell of
    /// its footprint.
    pub fn insert<T: Pattern>(&mut self, layout: Layout<T>)
        requires
            old(self).wf(),
            fits(
                layout.spec_pattern().footprint().0,
                layout.spec_pattern().footprint().1,
                layout.spec_offset().0 as nat,
                layout.spec_offset().1 as nat,
                old(self).matrix().len(),
            ),
        ensures
            final(self).wf(),
            final(self).matrix() == overlay(
                old(self).matrix(),
                layout.spec_pattern().shape(),
                layout.spec_offset().0 as int,
                layout.spec_offset().1 as int,
            ),
            final(self).spec_generation() == old(self).spec_generation(),
    {
        let (x, y) = layout.offset();
        let (rows, cols) = layout.size();
        let pat = layout.pattern();
        let ghost m = self.matrix();
        let ghost p = layout.spec_pattern().shape();
        let ghost target = overlay(m, p, x as int, y as int);
        let n = self.size;
        let mut i: usize = 0;
        while i < rows
            invariant
                self.wf(),
                self.size == n,
                self.gen == old(self).gen,
                m.len() == n,
                is_square(m),
                x + rows <= n,
                y + cols <= n,
                is_rect(p, rows as nat, cols as nat),
                rows_of(pat@) == p,
                target == overlay(m, p, x as int, y as int),
                i <= rows,
                forall|k: int|
                    0 <= k < n ==> #[trigger] self.cells@[k]@ == if x <= k < x + i {
                        target[k]
                    } else {
                        m[k]
                    },
            decreases rows - i,
        {
            let mut row: Vec<Cell> = Vec::new();
            let mut j: usize = 0;
            let r = x + i;
            assert(self.cells@[r as int]@ == m[r as int]);
            assert(p[i as int].len() == cols);
            assert(pat@[i as int]@ == p[i as int]);
            assert(target[r as int].len() == n);
            while j < n
                invariant
                    self.wf(),
                    self.size == n,
                    m.len() == n,
                    is_square(m),
                    r == x + i,
                    i < rows,
                    x + rows <= n,
                    y + cols <= n,
                    is_rect(p, rows as nat, cols as nat),
                    rows_of(pat@) == p,
                    self.cells@[r as int]@ == m[r as int],
                    p[i as int].len() == cols,
                    pat@[i as int]@ == p[i as int],
                    target == overlay(m, p, x as int, y as int),
                    target[r as int].len() == n,
                    j <= n,
                    row.len() == j,
                    forall|t: int| 0 <= t < j ==> #[trigger] row@[t] == target[r as int][t],
                decreases n - j,
            {
                if y <= j && j < y + cols {
                    row.push(pat[i][j - y]);
                } else {
                    row.push(self.cells[r][j]);
                }
                j = j + 1;
            }
            assert(row@ =~= target[r as int]);
            self.cells.set(r, row);
            i = i + 1;
        }
        assert forall|k: int| 0 <= k < n implies #[trigger] self.matrix()[k] == target[k] by {
            if !(x <= k < x + rows) {
                assert(target[k] =~= m[k]);
            }
        }
        assert(self.matrix() =~= target);
    }

    /// Places the layout's pattern like `insert`, or leaves the grid as it
    /// is and says why the pattern does not fit.
    pub fn try_insert<T: Pattern>(&mut self, layout: Layout<T>) -> (r: Result<(), PlacementError>)
        requires
            old(self).wf(),
        ensures
            final(self).wf(),
            ({
                let (rows, cols) = layout.spec_pattern().footprint();
                let (x, y) = layout.spec_offset();
                let n = old(self).matrix().len();
                &&& r == Err::<(), PlacementError>(PlacementError::TooLarge) <==> (rows > n
                    || cols > n)
                &&& r == Err::<(), PlacementError>(PlacementError::OutOfBounds) <==> (rows <= n
                    && cols <= n && !fits(rows, cols, x as nat, y as nat, n))
                &&& r is Ok <==> fits(rows, cols, x as nat, y as nat, n)
                &&& r is Ok ==> final(self).matrix() == overlay(
                    old(self).matrix(),
                    layout.spec_pattern().shape(),
                    x as int,
                    y as int,
                )
                &&& r is Err ==> final(self).matrix() == old(self).matrix()
            }),
            final(self).spec_generation() == old(self).spec_generation(),
    {
        let (x, y) = layout.offset();
        let (rows, cols) = layout.size();
        let n = self.size;
        if rows > n || cols > n {
            return Err(PlacementError::TooLarge);
        }
        if x > n - rows || y > n - cols {
            return Err(PlacementError::OutOfBounds);
        }
        self.insert(layout);
        Ok(())
    }

    /// Every cell with its coordinate, in row-major order; the coordinate of
    /// entry `i` is `Dim2::from_index(i, n)`.
    pub fn enumerate(&self) -> (r: Vec<(Dim2, Cell)>)
        requires
            self.wf(),
        ensures
            ({
                let m = self.matrix();
                let n = m.len();
                &&& r@.len() == n * n
                &&& forall|k: int|
                    0 <= k < n * n ==> {
                        &&& (#[trigger] r@[k]).0.0 == k / (n as int)
                        &&& r@[k].0.1 == k % (n as int)
                        &&& r@[k].1 == m[k / (n as int)][k % (n as int)]
                    }
            }),
    {
        let n = self.size;
        let ghost m = self.matrix();
        let mut r: Vec<(Dim2, Cell)> = Vec::new();
        let mut x: usize = 0;
        while x < n
            invariant
                self.wf(),
                self.size == n,
                m == self.matrix(),
                x <= n,
                r.len() == x * n,
                forall|k: int|
                    0 <= k < r.len() ==> {
                        &&& (#[trigger] r@[k]).0.0 == k / (n as int)
                        &&& r@[k].0.1 == k % (n as int)
                        &&& r@[k].1 == m[k / (n as int)][k % (n as int)]
                    },
            decreases n - x,
        {
            let mut y: usize = 0;
            while y < n
                invariant
                    self.wf(),
                    self.size == n,
                    m == self.matrix(),
                    x < n,
                    y <= n,
                    r.len() == x * n + y,
                    forall|k: int|
                        0 <= k < r.len() ==> {
                            &&& (#[trigger] r@[k]).0.0 == k / (n as int)
                            &&& r@[k].0.1 == k % (n as int)
                            &&& r@[k].1 == m[k / (n as int)][k % (n as int)]
                        },
                decreases n - y,
            {
                proof {
                    vstd::arithmetic::div_mod::lemma_fundamental_div_mod_converse(
                        (x * n + y) as int,
                        n as int,
                        x as int,
                        y as int,
                    );
                }
                let c = self.cells[x][y];
                r.push((Dim2(x, y), c));
                y = y + 1;
            }
            proof {
                vstd::arithmetic::mul::lemma_mul_is_distributive_add_other_way(
                    n as int,
                    x as int,
                    1,
                );
            }
            x = x + 1;
        }
        r
    }

    /// The grid as text: one line per row, `#` alive, `.` dead, `_` unborn.
    pub fn to_string(&self) -> (r: String)
        requires
            self.wf(),
        ensures
            r@ == matrix_text(self.matrix()),
    {
        let ghost m = self.matrix();
        let mut s = String::new();
        let mut i: usize = 0;
        while i < self.cells.len()
            invariant
                self.wf(),
                m == self.matrix(),
                i <= self.cells.len(),
                s@ == matrix_text(m.subrange(0, i as int)),
            decreases self.cells.len() - i,
        {
            let row = &self.cells[i];
            let ghost before = s@;
            let mut j: usize = 0;
            while j < row.len()
                invariant
                    row@ == m[i as int],
                    j <= row.len(),
                    s@ == before + row_text(row@.subrange(0, j as int)),
                decreases row.len() - j,
            {
                let t = symbol_str(row[j]);
                s.append(t);
                assert(row_text(row@.subrange(0, j as int + 1)) =~= row_text(
                    row@.subrange(0, j as int),
                ) + seq![symbol_of(row@[j as int])]);
                j = j + 1;
            }
            assert(row@.subrange(0, j as int) == row@);
            proof {
                reveal_strlit("\n");
            }
            s.append("\n");
            assert(m.subrange(0, i as int + 1).drop_last() =~= m.subrange(0, i as int));
            i = i + 1;
        }
        assert(m.subrange(0, i as int) =~= m);
        s
    }
}

impl Grid for Community {
    closed spec fn wf(&self) -> bool {
        &&& self.cells@.len() == self.size
        &&& forall|i: int| 0 <= i < self.size ==> #[trigger] self.cells@[i]@.len() == self.size
    }

    closed spec fn matrix(&self) -> Seq<Seq<Cell>> {
        rows_of(self.cells@)
    }

    closed spec fn spec_generation(&self) -> usize {
        self.gen
    }

    proof fn lemma_square(&self) {
    }

    fn size(&self) -> (r: usize) {
        self.size
    }

    fn item(&self, coord: Dim2) -> (r: Cell) {
        self.cells[coord.0][coord.1]
    }

    fn item_neighbours(&self, coord: Dim2) -> (r: Vec<Cell>) {
        let (x, y) = (coord.0, coord.1);
        let size = self.size;
        let up = dec(x, size);
        let down = inc(x, size);
        let left = dec(y, size);
        let right = inc(y, size);
        let r = vec![
            self.cells[x][left],
            self.cells[x][right],
            self.cells[up][y],
            self.cells[down][y],
            self.cells[up][left],
            self.cells[up][right],
            self.cells[down][left],
            self.cells[down][right],
        ];
        assert(r@ =~= neighbour_cells(self.matrix(), x as int, y as int));
        r
    }

    fn evolve(&self) -> (r: Self) {
        let n = self.size;
        let ghost m = self.matrix();
        let mut rows: Vec<Vec<Cell>> = Vec::new();
        let mut x: usize = 0;
        while x < n
            invariant
                self.wf(),
                self.size == n,
                m == self.matrix(),
                x <= n,
                rows.len() == x,
                forall|k: int| 0 <= k < x ==> #[trigger] rows@[k]@ == next_generation(m)[k],
            decreases n - x,
        {
            let mut row: Vec<Cell> = Vec::new();
            let mut y: usize = 0;
            while y < n
                invariant
                    self.wf(),
                    self.size == n,
                    m == self.matrix(),
                    x < n,
                    y <= n,
                    row.len() == y,
                    forall|t: int| 0 <= t < y ==> #[trigger] row@[t] == fate_at(m, x as int, t),
                decreases n - y,
            {
                row.push(self.item_fate(Dim2(x, y)));
                y = y + 1;
            }
            assert(row@ =~= next_generation(m)[x as int]);
            rows.push(row);
            x = x + 1;
        }
        assert(rows_of(rows@) =~= next_generation(m));
        Community { cells: rows, size: n, gen: self.gen.saturating_add(1) }
    }
}

impl PartialEq for Community {
    fn eq(&self, other: &Community) -> (r: bool) {
        let r = self.cells == other.cells;
        proof {
            let (a, b) = (self.matrix(), other.matrix());
            if r {
                assert forall|i: int| 0 <= i < a.len() implies #[trigger] a[i].len() == b[i].len() by {
                    assert(self.cells@[i].eq_spec(&other.cells@[i]));
                }
                assert forall|i: int, j: int|
                    0 <= i < a.len() && 0 <= j < a[i].len() implies same_category(
                    #[trigger] a[i][j],
                    b[i][j],
                ) by {
                    assert(self.cells@[i].eq_spec(&other.cells@[i]));
                    assert(self.cells@[i]@[j].eq_spec(&other.cells@[i]@[j]));
                }
            }
            if matrices_match(a, b) {
                assert forall|i: int| 0 <= i < self.cells@.len() implies #[trigger] self.cells@[i].eq_spec(&other.cells@[i]) by {
                    assert(a[i].len() == b[i].len());
                    assert forall|j: int| 0 <= j < self.cells@[i].len() implies #[trigger] self.cells@[i]@[j].eq_spec(&other.cells@[i]@[j]) by {
                        assert(same_category(a[i][j], b[i][j]));
                    }
                }
            }
        }
        r
    }
}

impl vstd::std_specs::cmp::PartialEqSpecImpl for Community {
    open spec fn obeys_eq_spec() -> bool {
        true
    }

    open spec fn eq_spec(&self, other: &Community) -> bool {
        matrices_match(self.matrix(), other.matrix())
    }
}

} // verus!
