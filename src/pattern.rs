//! Named shapes and their placement into a grid.

use vstd::prelude::*;

use crate::cell::Cell;

verus! {

/// The rows of a matrix held as a vector of rows.
pub open spec fn rows_of(v: Seq<Vec<Cell>>) -> Seq<Seq<Cell>> {
    Seq::new(v.len(), |i: int| v[i]@)
}

/// `m` has `rows` rows of `cols` cells each.
pub open spec fn is_rect(m: Seq<Seq<Cell>>, rows: nat, cols: nat) -> bool {
    &&& m.len() == rows
    &&& forall|i: int| 0 <= i < m.len() ==> #[trigger] m[i].len() == cols
}

/// The rows of `m` in reverse order.
pub open spec fn mirror_rows(m: Seq<Seq<Cell>>) -> Seq<Seq<Cell>> {
    Seq::new(m.len(), |i: int| m[m.len() - 1 - i])
}

/// Each row of `m` reversed.
pub open spec fn mirror_cols(m: Seq<Seq<Cell>>) -> Seq<Seq<Cell>> {
    Seq::new(m.len(), |i: int| Seq::new(m[i].len(), |j: int| m[i][m[i].len() - 1 - j]))
}

/// Rows become columns: entry `(i, j)` of the result is entry `(j, i)` of `m`.
pub open spec fn transpose(m: Seq<Seq<Cell>>) -> Seq<Seq<Cell>> {
    let cols = if m.len() == 0 {
        0
    } else {
        m[0].len()
    };
    Seq::new(cols, |j: int| Seq::new(m.len(), |i: int| m[i][j]))
}

/// A shape of cells with a fixed footprint.
pub trait Pattern: Sized {
    /// The cells of the shape, row by row.
    spec fn shape(&self) -> Seq<Seq<Cell>>;

    /// The footprint `(rows, columns)`.
    spec fn footprint(&self) -> (nat, nat);

    /// The footprint `(rows, columns)`, which the shape fills.
    fn size(&self) -> (r: (usize, usize))
        ensures
            r.0 == self.footprint().0,
            r.1 == self.footprint().1,
            is_rect(self.shape(), r.0 as nat, r.1 as nat),
    ;

    /// The cells of the shape.
    fn pattern(&self) -> (r: Vec<Vec<Cell>>)
        ensures
            rows_of(r@) == self.shape(),
    ;
}

/// `m` with the cells of `p` written over it, the top-left cell of `p` at
/// `(x, y)`.
pub open spec fn overlay(m: Seq<Seq<Cell>>, p: Seq<Seq<Cell>>, x: int, y: int) -> Seq<Seq<Cell>> {
    Seq::new(
        m.len(),
        |i: int|
            Seq::new(
                m[i].len(),
                |j: int|
                    if x <= i < x + p.len() && y <= j < y + p[i - x].len() {
                        p[i - x][j - y]
                    } else {
                        m[i][j]
                    },
            ),
    )
}

/// A footprint of `rows` by `cols` placed at `(x, y)` lies inside an `n × n`
/// grid.
pub open spec fn fits(rows: nat, cols: nat, x: nat, y: nat, n: nat) -> bool {
    x + rows <= n && y + cols <= n
}

/// A pattern bound to the offset `(row, column)` of its top-left corner.
#[derive(Debug, Clone)]
pub struct Layout<P> {
    pattern: P,
    row: usize,
    col: usize,
}

impl<T: Pattern> Layout<T> {
    pub closed spec fn spec_offset(&self) -> (usize, usize) {
        (self.row, self.col)
    }

    pub closed spec fn spec_pattern(&self) -> T {
        self.pattern
    }

    pub fn new(offset: (usize, usize), pattern: T) -> (r: Self)
        ensures
            r.spec_offset() == offset,
            r.spec_pattern() == pattern,
    {
        Layout { pattern: pattern, row: offset.0, col: offset.1 }
    }

    pub fn offset(&self) -> (r: (usize, usize))
        ensures
            r == self.spec_offset(),
    {
        (self.row, self.col)
    }

    pub fn size(&self) -> (r: (usize, usize))
        ensures
            r.0 == self.spec_pattern().footprint().0,
            r.1 == self.spec_pattern().footprint().1,
            is_rect(self.spec_pattern().shape(), r.0 as nat, r.1 as nat),
    {
        self.pattern.size()
    }

    pub fn pattern(&self) -> (r: Vec<Vec<Cell>>)
        ensures
            rows_of(r@) == self.spec_pattern().shape(),
    {
        self.pattern.pattern()
    }
}

/// A copy of the row `r`.
fn copy_row(r: &Vec<Cell>) -> (c: Vec<Cell>)
    ensures
        c@ == r@,
{
    let mut c: Vec<Cell> = Vec::new();
    let mut j: usize = 0;
    while j < r.len()
        invariant
            j <= r.len(),
            c@ == r@.subrange(0, j as int),
        decreases r.len() - j,
    {
        c.push(r[j]);
        j = j + 1;
    }
    assert(c@ == r@);
    c
}

/// A new matrix holding the rows of `m` in reverse order.
pub fn reverse_rows(m: &Vec<Vec<Cell>>) -> (r: Vec<Vec<Cell>>)
    ensures
        rows_of(r@) == mirror_rows(rows_of(m@)),
{
    let mut r: Vec<Vec<Cell>> = Vec::new();
    let n = m.len();
    let mut i: usize = 0;
    while i < n
        invariant
            n == m.len(),
            i <= n,
            r.len() == i,
            forall|k: int| 0 <= k < i ==> #[trigger] r@[k]@ == m@[n - 1 - k]@,
        decreases n - i,
    {
        let row = copy_row(&m[n - 1 - i]);
        r.push(row);
        i = i + 1;
    }
    assert(rows_of(r@) =~= mirror_rows(rows_of(m@)));
    r
}

/// A new matrix holding each row of `m` reversed.
pub fn reverse_cols(m: &Vec<Vec<Cell>>) -> (r: Vec<Vec<Cell>>)
    ensures
        rows_of(r@) == mirror_cols(rows_of(m@)),
{
    let mut r: Vec<Vec<Cell>> = Vec::new();
    let mut i: usize = 0;
    while i < m.len()
        invariant
            i <= m.len(),
            r.len() == i,
            forall|k: int|
                0 <= k < i ==> #[trigger] r@[k]@ == mirror_cols(rows_of(m@))[k],
        decreases m.len() - i,
    {
        let src = &m[i];
        let w = src.len();
        let mut row: Vec<Cell> = Vec::new();
        let mut j: usize = 0;
        while j < w
            invariant
                w == src.len(),
                j <= w,
                row.len() == j,
                forall|t: int| 0 <= t < j ==> #[trigger] row@[t] == src@[w - 1 - t],
            decreases w - j,
        {
            row.push(src[w - 1 - j]);
            j = j + 1;
        }
        assert(row@ =~= mirror_cols(rows_of(m@))[i as int]);
        r.push(row);
        i = i + 1;
    }
    assert(rows_of(r@) =~= mirror_cols(rows_of(m@)));
    r
}

/// A new matrix whose rows are the columns of `m`.
pub fn transposed(m: &Vec<Vec<Cell>>) -> (r: Vec<Vec<Cell>>)
    requires
        m.len() > 0,
        is_rect(rows_of(m@), m.len() as nat, m[0].len() as nat),
    ensures
        rows_of(r@) == transpose(rows_of(m@)),
{
    let rows = m.len();
    let cols = m[0].len();
    let ghost mm = rows_of(m@);
    assert(mm[0].len() == cols);
    let mut r: Vec<Vec<Cell>> = Vec::new();
    let mut j: usize = 0;
    while j < cols
        invariant
            rows == m.len(),
            rows > 0,
            cols == m[0].len(),
            mm == rows_of(m@),
            mm[0].len() == cols,
            is_rect(mm, rows as nat, cols as nat),
            j <= cols,
            r.len() == j,
            forall|k: int| 0 <= k < j ==> #[trigger] r@[k]@ == transpose(mm)[k],
        decreases cols - j,
    {
        let mut col: Vec<Cell> = Vec::new();
        let mut i: usize = 0;
        while i < rows
            invariant
                rows == m.len(),
                rows > 0,
                cols == m[0].len(),
                mm == rows_of(m@),
                mm[0].len() == cols,
                is_rect(mm, rows as nat, cols as nat),
                j < cols,
                i <= rows,
                col.len() == i,
                forall|t: int| 0 <= t < i ==> #[trigger] col@[t] == mm[t][j as int],
            decreases rows - i,
        {
            assert(mm[i as int].len() == cols);
            col.push(m[i][j]);
            i = i + 1;
        }
        assert(col@ =~= transpose(mm)[j as int]);
        r.push(col);
        j = j + 1;
    }
    assert(rows_of(r@) =~= transpose(mm));
    r
}

// Catalog: still lifes, oscillators and spaceships. Each shape is given as a
// row-major list of bits, `1` for a live cell and `0` for an unborn one;
// orientation variants are mirrors and transposes of one canonical shape.

/// The cell that a bit stands for: `1` alive, anything else unborn.
pub open spec fn bit_cell(b: u8) -> Cell {
    if b == 1 {
        Cell::Alive
    } else {
        Cell::Unborn
    }
}

/// The `rows × cols` matrix whose row-major bits are `bits`.
pub open spec fn grid_of_bits(bits: Seq<u8>, rows: nat, cols: nat) -> Seq<Seq<Cell>> {
    Seq::new(rows, |i: int| Seq::new(cols, |j: int| bit_cell(bits[i * cols + j])))
}

/// How many cells of `m` are alive.
pub open spec fn live_cells(m: Seq<Seq<Cell>>) -> nat
    decreases m.len(),
{
    if m.len() == 0 {
        0
    } else {
        live_cells(m.drop_last()) + crate::grid::count_alive(m.last())
    }
}

proof fn lemma_rect_mirror_rows(m: Seq<Seq<Cell>>, rows: nat, cols: nat)
    requires
        is_rect(m, rows, cols),
    ensures
        is_rect(mirror_rows(m), rows, cols),
{
    assert forall|i: int| 0 <= i < rows implies #[trigger] mirror_rows(m)[i].len() == cols by {
        assert(m[rows - 1 - i].len() == cols);
    }
}

proof fn lemma_rect_mirror_cols(m: Seq<Seq<Cell>>, rows: nat, cols: nat)
    requires
        is_rect(m, rows, cols),
    ensures
        is_rect(mirror_cols(m), rows, cols),
{
    assert forall|i: int| 0 <= i < rows implies #[trigger] mirror_cols(m)[i].len() == cols by {
        assert(m[i].len() == cols);
    }
}

proof fn lemma_rect_transpose(m: Seq<Seq<Cell>>, rows: nat, cols: nat)
    requires
        is_rect(m, rows, cols),
        rows > 0,
    ensures
        is_rect(transpose(m), cols, rows),
{
    assert(m[0].len() == cols);
}

proof fn lemma_rect_bits(bits: Seq<u8>, rows: nat, cols: nat)
    ensures
        is_rect(grid_of_bits(bits, rows, cols), rows, cols),
{
}

/// The `rows × cols` matrix of cells whose row-major bits are `bits`.
pub fn matrix_from_bits(bits: &Vec<u8>, rows: usize, cols: usize) -> (r: Vec<Vec<Cell>>)
    requires
        bits.len() == rows * cols,
    ensures
        rows_of(r@) == grid_of_bits(bits@, rows as nat, cols as nat),
{
    let ghost g = grid_of_bits(bits@, rows as nat, cols as nat);
    let mut r: Vec<Vec<Cell>> = Vec::new();
    let mut i: usize = 0;
    while i < rows
        invariant
            bits.len() == rows * cols,
            g == grid_of_bits(bits@, rows as nat, cols as nat),
            i <= rows,
            r.len() == i,
            forall|k: int| 0 <= k < i ==> #[trigger] r@[k]@ == g[k],
        decreases rows - i,
    {
        let mut row: Vec<Cell> = Vec::new();
        let mut j: usize = 0;
        while j < cols
            invariant
                bits.len() == rows * cols,
                g == grid_of_bits(bits@, rows as nat, cols as nat),
                i < rows,
                j <= cols,
                row.len() == j,
                forall|t: int| 0 <= t < j ==> #[trigger] row@[t] == g[i as int][t],
            decreases cols - j,
        {
            proof {
                assert(i * cols + j < rows * cols) by (nonlinear_arith)
                    requires
                        i < rows,
                        j < cols,
                ;
            }
            let b = bits[i * cols + j];
            row.push(if b == 1 {
                Cell::Alive
            } else {
                Cell::Unborn
            });
            j = j + 1;
        }
        assert(row@ =~= g[i as int]);
        r.push(row);
        i = i + 1;
    }
    assert(rows_of(r@) =~= g);
    r
}

// Custom

/// A random fill of the given footprint.
#[derive(Debug, Clone)]
pub struct Random(pub usize, pub usize);

// Still lifes

#[derive(Debug, Clone)]
pub struct Block;

#[derive(Debug, Clone)]
pub struct Beehive;

#[derive(Debug, Clone)]
pub struct Loaf;

#[derive(Debug, Clone)]
pub struct Boat;

#[derive(Debug, Clone)]
pub struct Tub;

// Oscillators

#[derive(Debug, Clone)]
pub enum Blinker {
    TopBottom,
    LeftRight,
}

#[derive(Debug, Clone)]
pub struct Toad;

#[derive(Debug, Clone)]
pub struct Beacon;

#[derive(Debug, Clone)]
pub struct Pulsar;

#[derive(Debug, Clone)]
pub struct Pentadecathlon;

// Spaceships

#[derive(Debug, Clone)]
pub enum LightweightSpaceship {
    Right,
    Left,
    Top,
    Bottom,
}

/// The four glider orientations: the canonical glider (`BottomRight`), its
/// column mirror (`BottomLeft`), its row mirror (`TopLeft`) and its column
/// mirror transposed (`TopRight`).
#[derive(Debug, Clone)]
pub enum Glider {
    BottomLeft,
    BottomRight,
    TopLeft,
    TopRight,
}

pub open spec fn block_bits() -> Seq<u8> {
    seq![1, 1, 1, 1]
}

pub open spec fn beehive_bits() -> Seq<u8> {
    seq![0, 1, 1, 0, 1, 0, 0, 1, 0, 1, 1, 0]
}

pub open spec fn loaf_bits() -> Seq<u8> {
    seq![0, 1, 1, 0, 1, 0, 0, 1, 0, 1, 0, 1, 0, 0, 1, 0]
}

pub open spec fn boat_bits() -> Seq<u8> {
    seq![1, 1, 0, 1, 0, 1, 0, 1, 0]
}

pub open spec fn tub_bits() -> Seq<u8> {
    seq![0, 1, 0, 1, 0, 1, 0, 1, 0]
}

/// The vertical blinker: the middle column of a 3 × 3 square.
pub open spec fn blinker_bits() -> Seq<u8> {
    seq![0, 1, 0, 0, 1, 0, 0, 1, 0]
}

pub open spec fn toad_bits() -> Seq<u8> {
    seq![0, 0, 0, 0, 0, 1, 1, 1, 1, 1, 1, 0, 0, 0, 0, 0]
}

pub open spec fn beacon_bits() -> Seq<u8> {
    seq![1, 1, 0, 0, 1, 0, 0, 0, 0, 0, 0, 1, 0, 0, 1, 1]
}

/// The glider that travels towards the bottom right.
pub open spec fn glider_bits() -> Seq<u8> {
    seq![0, 1, 0, 0, 0, 1, 1, 1, 1]
}

/// The lightweight spaceship that travels left, 4 rows by 5 columns.
pub open spec fn spaceship_bits() -> Seq<u8> {
    seq![0, 1, 0, 0, 1, 1, 0, 0, 0, 0, 1, 0, 0, 0, 1, 1, 1, 1, 1, 0]
}

pub open spec fn glider_canonical() -> Seq<Seq<Cell>> {
    grid_of_bits(glider_bits(), 3, 3)
}

pub open spec fn spaceship_canonical() -> Seq<Seq<Cell>> {
    grid_of_bits(spaceship_bits(), 4, 5)
}

impl Pattern for Block {
    open spec fn shape(&self) -> Seq<Seq<Cell>> {
        grid_of_bits(block_bits(), 2, 2)
    }

    open spec fn footprint(&self) -> (nat, nat) {
        (2, 2)
    }

    fn size(&self) -> (r: (usize, usize)) {
        proof {
            lemma_rect_bits(block_bits(), 2, 2);
        }
        (2, 2)
    }

    fn pattern(&self) -> (r: Vec<Vec<Cell>>) {
        let bits: Vec<u8> = vec![1, 1, 1, 1];
        matrix_from_bits(&bits, 2, 2)
    }
}

impl Pattern for Beehive {
    open spec fn shape(&self) -> Seq<Seq<Cell>> {
        grid_of_bits(beehive_bits(), 3, 4)
    }

    open spec fn footprint(&self) -> (nat, nat) {
        (3, 4)
    }

    fn size(&self) -> (r: (usize, usize)) {
        proof {
            lemma_rect_bits(beehive_bits(), 3, 4);
        }
        (3, 4)
    }

    fn pattern(&self) -> (r: Vec<Vec<Cell>>) {
        let bits: Vec<u8> = vec![0, 1, 1, 0, 1, 0, 0, 1, 0, 1, 1, 0];
        matrix_from_bits(&bits, 3, 4)
    }
}

impl Pattern for Loaf {
    open spec fn shape(&self) -> Seq<Seq<Cell>> {
        grid_of_bits(loaf_bits(), 4, 4)
    }

    open spec fn footprint(&self) -> (nat, nat) {
        (4, 4)
    }

    fn size(&self) -> (r: (usize, usize)) {
        proof {
            lemma_rect_bits(loaf_bits(), 4, 4);
        }
        (4, 4)
    }

    fn pattern(&self) -> (r: Vec<Vec<Cell>>) {
        let bits: Vec<u8> = vec![0, 1, 1, 0, 1, 0, 0, 1, 0, 1, 0, 1, 0, 0, 1, 0];
        matrix_from_bits(&bits, 4, 4)
    }
}

impl Pattern for Boat {
    open spec fn shape(&self) -> Seq<Seq<Cell>> {
        grid_of_bits(boat_bits(), 3, 3)
    }

    open spec fn footprint(&self) -> (nat, nat) {
        (3, 3)
    }

    fn size(&self) -> (r: (usize, usize)) {
        proof {
            lemma_rect_bits(boat_bits(), 3, 3);
        }
        (3, 3)
    }

    fn pattern(&self) -> (r: Vec<Vec<Cell>>) {
        let bits: Vec<u8> = vec![1, 1, 0, 1, 0, 1, 0, 1, 0];
        matrix_from_bits(&bits, 3, 3)
    }
}

impl Pattern for Tub {
    open spec fn shape(&self) -> Seq<Seq<Cell>> {
        grid_of_bits(tub_bits(), 3, 3)
    }

    open spec fn footprint(&self) -> (nat, nat) {
        (3, 3)
    }

    fn size(&self) -> (r: (usize, usize)) {
        proof {
            lemma_rect_bits(tub_bits(), 3, 3);
        }
        (3, 3)
    }

    fn pattern(&self) -> (r: Vec<Vec<Cell>>) {
        let bits: Vec<u8> = vec![0, 1, 0, 1, 0, 1, 0, 1, 0];
        matrix_from_bits(&bits, 3, 3)
    }
}

impl Pattern for Blinker {
    open spec fn shape(&self) -> Seq<Seq<Cell>> {
        let canvas = grid_of_bits(blinker_bits(), 3, 3);
        match *self {
            Blinker::TopBottom => canvas,
            Blinker::LeftRight => transpose(canvas),
        }
    }

    open spec fn footprint(&self) -> (nat, nat) {
        (3, 3)
    }

    fn size(&self) -> (r: (usize, usize)) {
        proof {
            lemma_rect_bits(blinker_bits(), 3, 3);
            lemma_rect_transpose(grid_of_bits(blinker_bits(), 3, 3), 3, 3);
        }
        (3, 3)
    }

    fn pattern(&self) -> (r: Vec<Vec<Cell>>) {
        let bits: Vec<u8> = vec![0, 1, 0, 0, 1, 0, 0, 1, 0];
        let canvas = matrix_from_bits(&bits, 3, 3);
        proof {
            lemma_rect_bits(blinker_bits(), 3, 3);
        }
        match *self {
            Blinker::TopBottom => canvas,
            Blinker::LeftRight => {
                assert(rows_of(canvas@)[0].len() == 3);
                transposed(&canvas)
            },
        }
    }
}

impl Pattern for Toad {
    open spec fn shape(&self) -> Seq<Seq<Cell>> {
        grid_of_bits(toad_bits(), 4, 4)
    }

    open spec fn footprint(&self) -> (nat, nat) {
        (4, 4)
    }

    fn size(&self) -> (r: (usize, usize)) {
        proof {
            lemma_rect_bits(toad_bits(), 4, 4);
        }
        (4, 4)
    }

    fn pattern(&self) -> (r: Vec<Vec<Cell>>) {
        let bits: Vec<u8> = vec![0, 0, 0, 0, 0, 1, 1, 1, 1, 1, 1, 0, 0, 0, 0, 0];
        matrix_from_bits(&bits, 4, 4)
    }
}

impl Pattern for Beacon {
    open spec fn shape(&self) -> Seq<Seq<Cell>> {
        grid_of_bits(beacon_bits(), 4, 4)
    }

    open spec fn footprint(&self) -> (nat, nat) {
        (4, 4)
    }

    fn size(&self) -> (r: (usize, usize)) {
        proof {
            lemma_rect_bits(beacon_bits(), 4, 4);
        }
        (4, 4)
    }

    fn pattern(&self) -> (r: Vec<Vec<Cell>>) {
        let bits: Vec<u8> = vec![1, 1, 0, 0, 1, 0, 0, 0, 0, 0, 0, 1, 0, 0, 1, 1];
        matrix_from_bits(&bits, 4, 4)
    }
}

impl Pattern for Glider {
    open spec fn shape(&self) -> Seq<Seq<Cell>> {
        let canvas = glider_canonical();
        match *self {
            Glider::BottomLeft => mirror_cols(canvas),
            Glider::BottomRight => canvas,
            Glider::TopLeft => mirror_rows(canvas),
            Glider::TopRight => transpose(mirror_cols(canvas)),
        }
    }

    open spec fn footprint(&self) -> (nat, nat) {
        (3, 3)
    }

    fn size(&self) -> (r: (usize, usize)) {
        proof {
            let c = glider_canonical();
            lemma_rect_bits(glider_bits(), 3, 3);
            lemma_rect_mirror_cols(c, 3, 3);
            lemma_rect_mirror_rows(c, 3, 3);
            lemma_rect_transpose(mirror_cols(c), 3, 3);
        }
        (3, 3)
    }

    fn pattern(&self) -> (r: Vec<Vec<Cell>>) {
        let bits: Vec<u8> = vec![0, 1, 0, 0, 0, 1, 1, 1, 1];
        let canvas = matrix_from_bits(&bits, 3, 3);
        proof {
            lemma_rect_bits(glider_bits(), 3, 3);
            lemma_rect_mirror_cols(glider_canonical(), 3, 3);
        }
        match *self {
            Glider::BottomLeft => reverse_cols(&canvas),
            Glider::BottomRight => canvas,
            Glider::TopLeft => reverse_rows(&canvas),
            Glider::TopRight => {
                let mirrored = reverse_cols(&canvas);
                assert(rows_of(mirrored@)[0].len() == rows_of(canvas@)[0].len());
                transposed(&mirrored)
            },
        }
    }
}

impl Pattern for LightweightSpaceship {
    open spec fn shape(&self) -> Seq<Seq<Cell>> {
        let canvas = spaceship_canonical();
        match *self {
            LightweightSpaceship::Right => mirror_cols(canvas),
            LightweightSpaceship::Left => canvas,
            LightweightSpaceship::Top => transpose(mirror_rows(canvas)),
            LightweightSpaceship::Bottom => transpose(mirror_cols(canvas)),
        }
    }

    open spec fn footprint(&self) -> (nat, nat) {
        match *self {
            LightweightSpaceship::Right => (4, 5),
            LightweightSpaceship::Left => (4, 5),
            LightweightSpaceship::Top => (5, 4),
            LightweightSpaceship::Bottom => (5, 4),
        }
    }

    fn size(&self) -> (r: (usize, usize)) {
        let c = Ghost(spaceship_canonical());
        proof {
            lemma_rect_bits(spaceship_bits(), 4, 5);
            lemma_rect_mirror_cols(c@, 4, 5);
            lemma_rect_mirror_rows(c@, 4, 5);
            lemma_rect_transpose(mirror_rows(c@), 4, 5);
            lemma_rect_transpose(mirror_cols(c@), 4, 5);
        }
        match *self {
            LightweightSpaceship::Right => (4, 5),
            LightweightSpaceship::Left => (4, 5),
            LightweightSpaceship::Top => (5, 4),
            LightweightSpaceship::Bottom => (5, 4),
        }
    }

    fn pattern(&self) -> (r: Vec<Vec<Cell>>) {
        let bits: Vec<u8> = vec![0, 1, 0, 0, 1, 1, 0, 0, 0, 0, 1, 0, 0, 0, 1, 1, 1, 1, 1, 0];
        let canvas = matrix_from_bits(&bits, 4, 5);
        proof {
            lemma_rect_bits(spaceship_bits(), 4, 5);
            lemma_rect_mirror_cols(spaceship_canonical(), 4, 5);
            lemma_rect_mirror_rows(spaceship_canonical(), 4, 5);
        }
        match *self {
            LightweightSpaceship::Right => reverse_cols(&canvas),
            LightweightSpaceship::Left => canvas,
            LightweightSpaceship::Top => {
                let mirrored = reverse_rows(&canvas);
                assert(rows_of(mirrored@)[0].len() == rows_of(canvas@)[3].len());
                transposed(&mirrored)
            },
            LightweightSpaceship::Bottom => {
                let mirrored = reverse_cols(&canvas);
                assert(rows_of(mirrored@)[0].len() == rows_of(canvas@)[0].len());
                transposed(&mirrored)
            },
        }
    }
}


pub open spec fn pulsar_bits() -> Seq<u8> {
    seq![
        0, 0, 0, 0, 0, 0, 0, 0, 0, 0, 0, 0, 0, 0, 0,
        0, 0, 0, 1, 1, 1, 0, 0, 0, 1, 1, 1, 0, 0, 0,
        0, 0, 0, 0, 0, 0, 0, 0, 0, 0, 0, 0, 0, 0, 0,
        0, 1, 0, 0, 0, 0, 1, 0, 1, 0, 0, 0, 0, 1, 0,
        0, 1, 0, 0, 0, 0, 1, 0, 1, 0, 0, 0, 0, 1, 0,
        0, 1, 0, 0, 0, 0, 1, 0, 1, 0, 0, 0, 0, 1, 0,
        0, 0, 0, 1, 1, 1, 0, 0, 0, 1, 1, 1, 0, 0, 0,
        0, 0, 0, 0, 0, 0, 0, 0, 0, 0, 0, 0, 0, 0, 0,
        0, 0, 0, 1, 1, 1, 0, 0, 0, 1, 1, 1, 0, 0, 0,
        0, 1, 0, 0, 0, 0, 1, 0, 1, 0, 0, 0, 0, 1, 0,
        0, 1, 0, 0, 0, 0, 1, 0, 1, 0, 0, 0, 0, 1, 0,
        0, 1, 0, 0, 0, 0, 1, 0, 1, 0, 0, 0, 0, 1, 0,
        0, 0, 0, 0, 0, 0, 0, 0, 0, 0, 0, 0, 0, 0, 0,
        0, 0, 0, 1, 1, 1, 0, 0, 0, 1, 1, 1, 0, 0, 0,
        0, 0, 0, 0, 0, 0, 0, 0, 0, 0, 0, 0, 0, 0, 0,
    ]
}

pub open spec fn pentadecathlon_bits() -> Seq<u8> {
    seq![
        0, 0, 0, 0, 0, 0, 0, 0, 0,
        0, 0, 0, 0, 1, 0, 0, 0, 0,
        0, 0, 0, 1, 1, 1, 0, 0, 0,
        0, 0, 1, 0, 1, 0, 1, 0, 0,
        0, 0, 1, 0, 1, 0, 1, 0, 0,
        0, 0, 0, 1, 1, 1, 0, 0, 0,
        0, 0, 0, 0, 1, 0, 0, 0, 0,
        0, 0, 0, 0, 0, 0, 0, 0, 0,
        0, 0, 0, 0, 0, 0, 0, 0, 0,
        0, 0, 0, 0, 1, 0, 0, 0, 0,
        0, 0, 0, 1, 1, 1, 0, 0, 0,
        0, 0, 1, 0, 1, 0, 1, 0, 0,
        0, 0, 1, 0, 1, 0, 1, 0, 0,
        0, 0, 0, 1, 1, 1, 0, 0, 0,
        0, 0, 0, 0, 1, 0, 0, 0, 0,
        0, 0, 0, 0, 0, 0, 0, 0, 0,
    ]
}

impl Pattern for Pulsar {
    open spec fn shape(&self) -> Seq<Seq<Cell>> {
        grid_of_bits(pulsar_bits(), 15, 15)
    }

    open spec fn footprint(&self) -> (nat, nat) {
        (15, 15)
    }

    fn size(&self) -> (r: (usize, usize)) {
        proof {
            lemma_rect_bits(pulsar_bits(), 15, 15);
        }
        (15, 15)
    }

    fn pattern(&self) -> (r: Vec<Vec<Cell>>) {
        let (n, m) = self.size();
        let raw: Vec<u8> = vec![
            0, 0, 0, 0, 0, 0, 0, 0, 0, 0, 0, 0, 0, 0, 0,
            0, 0, 0, 1, 1, 1, 0, 0, 0, 1, 1, 1, 0, 0, 0,
            0, 0, 0, 0, 0, 0, 0, 0, 0, 0, 0, 0, 0, 0, 0,
            0, 1, 0, 0, 0, 0, 1, 0, 1, 0, 0, 0, 0, 1, 0,
            0, 1, 0, 0, 0, 0, 1, 0, 1, 0, 0, 0, 0, 1, 0,
            0, 1, 0, 0, 0, 0, 1, 0, 1, 0, 0, 0, 0, 1, 0,
            0, 0, 0, 1, 1, 1, 0, 0, 0, 1, 1, 1, 0, 0, 0,
            0, 0, 0, 0, 0, 0, 0, 0, 0, 0, 0, 0, 0, 0, 0,
            0, 0, 0, 1, 1, 1, 0, 0, 0, 1, 1, 1, 0, 0, 0,
            0, 1, 0, 0, 0, 0, 1, 0, 1, 0, 0, 0, 0, 1, 0,
            0, 1, 0, 0, 0, 0, 1, 0, 1, 0, 0, 0, 0, 1, 0,
            0, 1, 0, 0, 0, 0, 1, 0, 1, 0, 0, 0, 0, 1, 0,
            0, 0, 0, 0, 0, 0, 0, 0, 0, 0, 0, 0, 0, 0, 0,
            0, 0, 0, 1, 1, 1, 0, 0, 0, 1, 1, 1, 0, 0, 0,
            0, 0, 0, 0, 0, 0, 0, 0, 0, 0, 0, 0, 0, 0, 0,
        ];
        matrix_from_bits(&raw, n, m)
    }
}

impl Pattern for Pentadecathlon {
    open spec fn shape(&self) -> Seq<Seq<Cell>> {
        grid_of_bits(pentadecathlon_bits(), 16, 9)
    }

    open spec fn footprint(&self) -> (nat, nat) {
        (16, 9)
    }

    fn size(&self) -> (r: (usize, usize)) {
        proof {
            lemma_rect_bits(pentadecathlon_bits(), 16, 9);
        }
        (16, 9)
    }

    fn pattern(&self) -> (r: Vec<Vec<Cell>>) {
        let (n, m) = self.size();
        let raw: Vec<u8> = vec![
            0, 0, 0, 0, 0, 0, 0, 0, 0,
            0, 0, 0, 0, 1, 0, 0, 0, 0,
            0, 0, 0, 1, 1, 1, 0, 0, 0,
            0, 0, 1, 0, 1, 0, 1, 0, 0,
            0, 0, 1, 0, 1, 0, 1, 0, 0,
            0, 0, 0, 1, 1, 1, 0, 0, 0,
            0, 0, 0, 0, 1, 0, 0, 0, 0,
            0, 0, 0, 0, 0, 0, 0, 0, 0,
            0, 0, 0, 0, 0, 0, 0, 0, 0,
            0, 0, 0, 0, 1, 0, 0, 0, 0,
            0, 0, 0, 1, 1, 1, 0, 0, 0,
            0, 0, 1, 0, 1, 0, 1, 0, 0,
            0, 0, 1, 0, 1, 0, 1, 0, 0,
            0, 0, 0, 1, 1, 1, 0, 0, 0,
            0, 0, 0, 0, 1, 0, 0, 0, 0,
            0, 0, 0, 0, 0, 0, 0, 0, 0,
        ];
        matrix_from_bits(&raw, n, m)
    }
}

/// Each glider orientation is the canonical glider itself, its column mirror,
/// its row mirror, or its column mirror transposed; every
/// orientation has the canonical glider's five live cells, and no two
/// orientations are the same shape.
pub proof fn lemma_glider_orientations()
    ensures
        Glider::BottomRight.shape() == glider_canonical(),
        Glider::BottomLeft.shape() == mirror_cols(glider_canonical()),
        Glider::TopLeft.shape() == mirror_rows(glider_canonical()),
        Glider::TopRight.shape() == transpose(mirror_cols(glider_canonical())),
        live_cells(glider_canonical()) == 5,
        live_cells(Glider::BottomLeft.shape()) == 5,
        live_cells(Glider::TopLeft.shape()) == 5,
        live_cells(Glider::TopRight.shape()) == 5,
        Glider::BottomRight.shape() != Glider::BottomLeft.shape(),
        Glider::BottomRight.shape() != Glider::TopLeft.shape(),
        Glider::BottomRight.shape() != Glider::TopRight.shape(),
        Glider::BottomLeft.shape() != Glider::TopLeft.shape(),
        Glider::BottomLeft.shape() != Glider::TopRight.shape(),
        Glider::TopLeft.shape() != Glider::TopRight.shape(),
{
    let a = Cell::Alive;
    let u = Cell::Unborn;
    let c = glider_canonical();
    assert(c =~~= seq![seq![u, a, u], seq![u, u, a], seq![a, a, a]]);
    let bl = mirror_cols(c);
    assert(bl =~~= seq![seq![u, a, u], seq![a, u, u], seq![a, a, a]]);
    let tl = mirror_rows(c);
    assert(tl =~~= seq![seq![a, a, a], seq![u, u, a], seq![u, a, u]]);
    let tr = transpose(mirror_cols(c));
    assert(tr =~~= seq![seq![u, a, a], seq![a, u, a], seq![u, u, a]]);
    reveal_with_fuel(live_cells, 4);
    reveal_with_fuel(crate::grid::count_alive, 4);
    assert(c[0][0] != bl[0][0] || c[1][0] != bl[1][0]);
    assert(c[0][0] != tl[0][0]);
    assert(c[0][2] != tr[0][2]);
    assert(bl[0][0] != tl[0][0]);
    assert(bl[0][2] != tr[0][2]);
    assert(tl[0][0] != tr[0][0]);
}

/// Each spaceship orientation is the canonical (left-moving) spaceship
/// itself, its column mirror, its row mirror transposed, or its column mirror
/// transposed;
/// every orientation has the canonical spaceship's nine live cells, and no two
/// orientations are the same shape.
pub proof fn lemma_spaceship_orientations()
    ensures
        LightweightSpaceship::Left.shape() == spaceship_canonical(),
        LightweightSpaceship::Right.shape() == mirror_cols(spaceship_canonical()),
        LightweightSpaceship::Top.shape() == transpose(mirror_rows(spaceship_canonical())),
        LightweightSpaceship::Bottom.shape() == transpose(mirror_cols(spaceship_canonical())),
        live_cells(spaceship_canonical()) == 9,
        live_cells(LightweightSpaceship::Right.shape()) == 9,
        live_cells(LightweightSpaceship::Top.shape()) == 9,
        live_cells(LightweightSpaceship::Bottom.shape()) == 9,
        LightweightSpaceship::Left.shape() != LightweightSpaceship::Right.shape(),
        LightweightSpaceship::Left.shape() != LightweightSpaceship::Top.shape(),
        LightweightSpaceship::Left.shape() != LightweightSpaceship::Bottom.shape(),
        LightweightSpaceship::Right.shape() != LightweightSpaceship::Top.shape(),
        LightweightSpaceship::Right.shape() != LightweightSpaceship::Bottom.shape(),
        LightweightSpaceship::Top.shape() != LightweightSpaceship::Bottom.shape(),
{
    let a = Cell::Alive;
    let u = Cell::Unborn;
    let c = spaceship_canonical();
    assert(c =~~= seq![
        seq![u, a, u, u, a],
        seq![a, u, u, u, u],
        seq![a, u, u, u, a],
        seq![a, a, a, a, u],
    ]);
    let r = mirror_cols(c);
    assert(r =~~= seq![
        seq![a, u, u, a, u],
        seq![u, u, u, u, a],
        seq![a, u, u, u, a],
        seq![u, a, a, a, a],
    ]);
    let t = transpose(mirror_rows(c));
    assert(t =~~= seq![
        seq![a, a, a, u],
        seq![a, u, u, a],
        seq![a, u, u, u],
        seq![a, u, u, u],
        seq![u, a, u, a],
    ]);
    let b = transpose(mirror_cols(c));
    assert(b =~~= seq![
        seq![a, u, a, u],
        seq![u, u, u, a],
        seq![u, u, u, a],
        seq![a, u, u, a],
        seq![u, a, a, a],
    ]);
    reveal_with_fuel(live_cells, 6);
    reveal_with_fuel(crate::grid::count_alive, 6);
    assert(c[0][0] != r[0][0]);
    assert(c.len() != t.len());
    assert(c.len() != b.len());
    assert(r.len() != t.len());
    assert(r.len() != b.len());
    assert(t[1][0] != b[1][0]);
}

} // verus!
