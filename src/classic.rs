//! Life on a square matrix of flags, `true` for a live cell, with the same
//! rules on the same torus as the grids of cells.

use vstd::prelude::*;

use crate::cell::Cell;
use crate::grid::{count_alive, dec, fate_at, inc, neighbour_cells, next_generation};

verus! {

/// The flags as cells: `true` alive, `false` unborn.
pub open spec fn flag_grid(v: Seq<Vec<bool>>) -> Seq<Seq<Cell>> {
    Seq::new(
        v.len(),
        |i: int|
            Seq::new(
                v[i]@.len(),
                |j: int|
                    if v[i]@[j] {
                        Cell::Alive
                    } else {
                        Cell::Unborn
                    },
            ),
    )
}

/// `v` is a square matrix of side `n`.
pub open spec fn is_flag_square(v: Seq<Vec<bool>>, n: nat) -> bool {
    &&& v.len() == n
    &&& forall|i: int| 0 <= i < n ==> #[trigger] v[i]@.len() == n
}

/// Relies on rand::random: one draw of a `bool` from the thread-local
/// generator. Nothing is promised of the value.
#[verifier::external_body]
fn random_flag() -> bool {
    rand::random::<bool>()
}

/// An `ncells × ncells` matrix of flags all `false`.
fn blank_flags(ncells: u32) -> (v: Vec<Vec<bool>>)
    ensures
        is_flag_square(v@, ncells as nat),
        forall|i: int, j: int| 0 <= i < ncells && 0 <= j < ncells ==> !#[trigger] v@[i]@[j],
{
    let mut v: Vec<Vec<bool>> = Vec::new();
    let mut i: u32 = 0;
    while i < ncells
        invariant
            i <= ncells,
            v.len() == i,
            forall|k: int| 0 <= k < i ==> #[trigger] v@[k]@.len() == ncells,
            forall|k: int, j: int| 0 <= k < i && 0 <= j < ncells ==> !#[trigger] v@[k]@[j],
        decreases ncells - i,
    {
        let mut row: Vec<bool> = Vec::new();
        let mut j: u32 = 0;
        while j < ncells
            invariant
                j <= ncells,
                row.len() == j,
                forall|t: int| 0 <= t < j ==> !#[trigger] row@[t],
            decreases ncells - j,
        {
            row.push(false);
            j = j + 1;
        }
        v.push(row);
        i = i + 1;
    }
    v
}

/// Raises the flag at `(r, c)`.
fn raise(v: &mut Vec<Vec<bool>>, r: usize, c: usize)
    requires
        r < old(v).len(),
        c < old(v)@[r as int]@.len(),
    ensures
        final(v)@.len() == old(v)@.len(),
        forall|i: int| 0 <= i < old(v)@.len() && i != r ==> #[trigger] final(v)@[i]@ == old(v)@[i]@,
        final(v)@[r as int]@ == old(v)@[r as int]@.update(c as int, true),
{
    let ghost target = old(v)@[r as int]@.update(c as int, true);
    let mut row: Vec<bool> = Vec::new();
    let mut j: usize = 0;
    while j < v[r].len()
        invariant
            v@ == old(v)@,
            r < v.len(),
            c < v@[r as int]@.len(),
            target == v@[r as int]@.update(c as int, true),
            j <= v@[r as int]@.len(),
            row@ == target.subrange(0, j as int),
        decreases v@[r as int]@.len() - j,
    {
        row.push(if j == c { true } else { v[r][j] });
        j = j + 1;
    }
    assert(row@ =~= target);
    v.set(r, row);
}

/// A matrix of `ncells × ncells` random flags, drawn from the thread-local
/// generator.
pub fn life_random(ncells: u32) -> (v: Vec<Vec<bool>>)
    requires
        ncells * ncells <= usize::MAX,
    ensures
        is_flag_square(v@, ncells as nat),
{
    let n = (ncells as usize) * (ncells as usize);
    let mut flags: Vec<bool> = Vec::new();
    let mut k: usize = 0;
    while k < n
        invariant
            k <= n,
            flags.len() == k,
        decreases n - k,
    {
        flags.push(random_flag());
        k = k + 1;
    }
    life_from_flags(ncells, &flags)
}

/// The `ncells × ncells` matrix whose row-major flags are `flags`: the way to
/// fill a matrix from a generator of the caller's choosing, seeded or not.
pub fn life_from_flags(ncells: u32, flags: &Vec<bool>) -> (v: Vec<Vec<bool>>)
    requires
        flags.len() == ncells * ncells,
    ensures
        is_flag_square(v@, ncells as nat),
        forall|i: int, j: int|
            0 <= i < ncells && 0 <= j < ncells ==> #[trigger] v@[i]@[j] == flags@[i * ncells + j],
{
    let n = ncells as usize;
    let mut v: Vec<Vec<bool>> = Vec::new();
    let mut i: usize = 0;
    while i < n
        invariant
            n == ncells,
            flags.len() == n * n,
            i <= n,
            v.len() == i,
            forall|k: int| 0 <= k < i ==> #[trigger] v@[k]@.len() == n,
            forall|k: int, j: int| 0 <= k < i && 0 <= j < n ==> #[trigger] v@[k]@[j] == flags@[k * n + j],
        decreases n - i,
    {
        let mut row: Vec<bool> = Vec::new();
        let mut j: usize = 0;
        while j < n
            invariant
                n == ncells,
                flags.len() == n * n,
                i < n,
                j <= n,
                row.len() == j,
                forall|t: int| 0 <= t < j ==> #[trigger] row@[t] == flags@[i * n + t],
            decreases n - j,
        {
            proof {
                assert(i * n + j < n * n) by (nonlinear_arith)
                    requires
                        i < n,
                        j < n,
                ;
            }
            row.push(flags[i * n + j]);
            j = j + 1;
        }
        v.push(row);
        i = i + 1;
    }
    v
}

/// The live cells of `glider`.
pub open spec fn glider_flag(i: int, j: int) -> bool {
    (i == 10 && j == 11) || (i == 11 && j == 12) || (i == 12 && (j == 10 || j == 11 || j == 12))
}

/// The live cells of `infinite1`.
pub open spec fn infinite1_flag(i: int, j: int) -> bool {
    ||| (i == 11 && (j == 11 || j == 12 || j == 13 || j == 15))
    ||| (i == 12 && j == 11)
    ||| (i == 13 && (j == 14 || j == 15))
    ||| (i == 14 && (j == 12 || j == 13 || j == 15))
    ||| (i == 15 && (j == 11 || j == 13 || j == 15))
}

/// A glider on an `ncells × ncells` matrix, near row and column 10.
pub fn glider(ncells: u32) -> (v: Vec<Vec<bool>>)
    requires
        ncells > 12,
    ensures
        is_flag_square(v@, ncells as nat),
        forall|i: int, j: int|
            0 <= i < ncells && 0 <= j < ncells ==> #[trigger] v@[i]@[j] == glider_flag(i, j),
{
    let mut v = blank_flags(ncells);
    raise(&mut v, 10, 11);
    raise(&mut v, 11, 12);
    raise(&mut v, 12, 10);
    raise(&mut v, 12, 11);
    raise(&mut v, 12, 12);
    v
}

/// A pattern that grows without bound, on an `ncells × ncells` matrix.
pub fn infinite1(ncells: u32) -> (v: Vec<Vec<bool>>)
    requires
        ncells > 15,
    ensures
        is_flag_square(v@, ncells as nat),
        forall|i: int, j: int|
            0 <= i < ncells && 0 <= j < ncells ==> #[trigger] v@[i]@[j] == infinite1_flag(i, j),
{
    let mut v = blank_flags(ncells);
    raise(&mut v, 11, 11);
    raise(&mut v, 11, 12);
    raise(&mut v, 11, 13);
    raise(&mut v, 11, 15);

    raise(&mut v, 12, 11);

    raise(&mut v, 13, 14);
    raise(&mut v, 13, 15);

    raise(&mut v, 14, 12);
    raise(&mut v, 14, 13);
    raise(&mut v, 14, 15);

    raise(&mut v, 15, 11);
    raise(&mut v, 15, 13);
    raise(&mut v, 15, 15);
    v
}

/// How many of the eight neighbours of `(r, c)` are live.
pub fn count_surrounding(r: u32, c: u32, v: &Vec<Vec<bool>>) -> (n: u32)
    requires
        is_flag_square(v@, v.len() as nat),
        r < v.len(),
        c < v.len(),
    ensures
        n == count_alive(neighbour_cells(flag_grid(v@), r as int, c as int)),
        n <= 8,
{
    let r = r as usize;
    let c = c as usize;
    let size = v.len();
    let up = dec(r, size);
    let down = inc(r, size);
    let left = dec(c, size);
    let right = inc(c, size);
    let ghost ns = neighbour_cells(flag_grid(v@), r as int, c as int);
    proof {
        reveal_with_fuel(count_alive, 9);
        assert(ns.len() == 8);
        assert(ns.subrange(0, 7) =~= ns.drop_last());
    }
    v[r][left] as u32 + v[r][right] as u32 + v[up][c] as u32 + v[down][c] as u32
        + v[up][left] as u32 + v[up][right] as u32 + v[down][left] as u32
        + v[down][right] as u32
}

/// Whether `(r, c)` lives in the next generation.
pub fn alive(r: u32, c: u32, v: &Vec<Vec<bool>>) -> (b: bool)
    requires
        is_flag_square(v@, v.len() as nat),
        r < v.len(),
        c < v.len(),
    ensures
        b == (fate_at(flag_grid(v@), r as int, c as int) is Alive),
{
    let n = count_surrounding(r, c, v);
    let curr = v[r as usize][c as usize];
    if curr {
        n == 2 || n == 3
    } else {
        n == 3
    }
}

/// The next generation of `v`.
pub fn life_next(v: Vec<Vec<bool>>) -> (w: Vec<Vec<bool>>)
    requires
        is_flag_square(v@, v.len() as nat),
        v.len() <= u32::MAX,
    ensures
        is_flag_square(w@, v.len() as nat),
        forall|i: int, j: int|
            0 <= i < v.len() && 0 <= j < v.len() ==> #[trigger] w@[i]@[j] == (next_generation(
                flag_grid(v@),
            )[i][j] is Alive),
{
    let n = v.len() as u32;
    let mut w: Vec<Vec<bool>> = Vec::new();
    let mut i: u32 = 0;
    while i < n
        invariant
            n == v.len(),
            is_flag_square(v@, v.len() as nat),
            i <= n,
            w.len() == i,
            forall|k: int| 0 <= k < i ==> #[trigger] w@[k]@.len() == n,
            forall|k: int, j: int|
                0 <= k < i && 0 <= j < n ==> #[trigger] w@[k]@[j] == (fate_at(
                    flag_grid(v@),
                    k,
                    j,
                ) is Alive),
        decreases n - i,
    {
        let mut row: Vec<bool> = Vec::new();
        let mut j: u32 = 0;
        while j < n
            invariant
                n == v.len(),
                is_flag_square(v@, v.len() as nat),
                i < n,
                j <= n,
                row.len() == j,
                forall|t: int|
                    0 <= t < j ==> #[trigger] row@[t] == (fate_at(flag_grid(v@), i as int, t) is Alive),
            decreases n - j,
        {
            row.push(alive(i, j, &v));
            j = j + 1;
        }
        w.push(row);
        i = i + 1;
    }
    w
}

} // verus!
