//! The blinker oscillates with period two.

use vstd::prelude::*;

use crate::cell::{same_category, Cell};
use crate::community::{blank, matrices_match};
use crate::pattern::{blinker_bits, grid_of_bits, overlay, transpose, Blinker, Pattern};
use crate::grid::{
    count_alive, fate, fate_at, is_square, lemma_wrap_is_mod, neighbour_cells, next_generation,
    wrap_dec, wrap_inc,
};

verus! {

/// `d` is at most one step away from 0 on a ring of `n` positions.
pub open spec fn near_zero(d: int, n: int) -> bool {
    d == 0 || d == 1 || d == n - 1
}

/// `(i, j)` is one of the three cells of the vertical line centred at
/// `(r, c)` on an `n × n` torus.
pub open spec fn on_vertical(i: int, j: int, r: int, c: int, n: int) -> bool {
    near_zero((i - r) % n, n) && (j - c) % n == 0
}

/// `(i, j)` is one of the three cells of the horizontal line centred at
/// `(r, c)` on an `n × n` torus.
pub open spec fn on_horizontal(i: int, j: int, r: int, c: int, n: int) -> bool {
    (i - r) % n == 0 && near_zero((j - c) % n, n)
}

/// The live cells of `m` are those of the line centred at `(r, c)`,
/// vertical or horizontal.
pub open spec fn live_on_line(m: Seq<Seq<Cell>>, r: int, c: int, vertical: bool) -> bool {
    forall|i: int, j: int|
        0 <= i < m.len() && 0 <= j < m.len() ==> ((#[trigger] m[i][j] is Alive) <==> if vertical {
            on_vertical(i, j, r, c, m.len() as int)
        } else {
            on_horizontal(i, j, r, c, m.len() as int)
        })
}

proof fn lemma_mod_range(a: int, n: int)
    requires
        n > 0,
        -n <= a < 2 * n,
    ensures
        a % n == if a < 0 {
            a + n
        } else if a >= n {
            a - n
        } else {
            a
        },
{
    if a < 0 {
        vstd::arithmetic::div_mod::lemma_mod_add_multiples_vanish(a, n);
        vstd::arithmetic::div_mod::lemma_small_mod((a + n) as nat, n as nat);
    } else if a >= n {
        vstd::arithmetic::div_mod::lemma_mod_sub_multiples_vanish(a, n);
        vstd::arithmetic::div_mod::lemma_small_mod((a - n) as nat, n as nat);
    } else {
        vstd::arithmetic::div_mod::lemma_small_mod(a as nat, n as nat);
    }
}

spec fn live_bit(c: Cell) -> nat {
    if c is Alive {
        1
    } else {
        0
    }
}

proof fn lemma_count_eight(s: Seq<Cell>)
    requires
        s.len() == 8,
    ensures
        count_alive(s) == live_bit(s[0]) + live_bit(s[1]) + live_bit(s[2]) + live_bit(s[3])
            + live_bit(s[4]) + live_bit(s[5]) + live_bit(s[6]) + live_bit(s[7]),
{
    reveal_with_fuel(count_alive, 9);
    assert(s.subrange(0, 7) =~= s.drop_last());
    assert(s.subrange(0, 6) =~= s.subrange(0, 7).drop_last());
    assert(s.subrange(0, 5) =~= s.subrange(0, 6).drop_last());
    assert(s.subrange(0, 4) =~= s.subrange(0, 5).drop_last());
    assert(s.subrange(0, 3) =~= s.subrange(0, 4).drop_last());
    assert(s.subrange(0, 2) =~= s.subrange(0, 3).drop_last());
    assert(s.subrange(0, 1) =~= s.subrange(0, 2).drop_last());
    assert(s.subrange(0, 0) =~= s.subrange(0, 1).drop_last());
}

/// One cell of the next generation of a line of three.
proof fn lemma_line_cell(m: Seq<Seq<Cell>>, r: int, c: int, vertical: bool, i: int, j: int)
    requires
        is_square(m),
        m.len() >= 4,
        0 <= r < m.len(),
        0 <= c < m.len(),
        0 <= i < m.len(),
        0 <= j < m.len(),
        live_on_line(m, r, c, vertical),
    ensures
        (fate_at(m, i, j) is Alive) <==> if vertical {
            on_horizontal(i, j, r, c, m.len() as int)
        } else {
            on_vertical(i, j, r, c, m.len() as int)
        },
{
    let n = m.len() as int;
    lemma_wrap_is_mod(i, n);
    lemma_wrap_is_mod(j, n);
    let up = wrap_dec(i, n);
    let down = wrap_inc(i, n);
    let left = wrap_dec(j, n);
    let right = wrap_inc(j, n);
    lemma_mod_range(i - r, n);
    lemma_mod_range(up - r, n);
    lemma_mod_range(down - r, n);
    lemma_mod_range(j - c, n);
    lemma_mod_range(left - c, n);
    lemma_mod_range(right - c, n);
    assert(m[i][j] is Alive <==> if vertical {
        on_vertical(i, j, r, c, n)
    } else {
        on_horizontal(i, j, r, c, n)
    });
    let ns = neighbour_cells(m, i, j);
    assert(ns[0] == m[i][left]);
    assert(ns[1] == m[i][right]);
    assert(ns[2] == m[up][j]);
    assert(ns[3] == m[down][j]);
    assert(ns[4] == m[up][left]);
    assert(ns[5] == m[up][right]);
    assert(ns[6] == m[down][left]);
    assert(ns[7] == m[down][right]);
    lemma_count_eight(ns);
    let di = (i - r) % n;
    let dj = (j - c) % n;
    let du = (up - r) % n;
    let dd = (down - r) % n;
    let dl = (left - c) % n;
    let dr = (right - c) % n;
    assert(di == if i >= r { i - r } else { i - r + n });
    assert(du == if up >= r { up - r } else { up - r + n });
    assert(dj == if j >= c { j - c } else { j - c + n });
    assert(dl == if left >= c { left - c } else { left - c + n });
    assert(du == if di == 0 { n - 1 } else { di - 1 }) by {
        if i == 0 {
            assert(up == n - 1);
        } else {
            assert(up == i - 1);
        }
    }
    assert(dd == if down >= r { down - r } else { down - r + n });
    assert(dd == if di == n - 1 { 0 } else { di + 1 }) by {
        if i == n - 1 {
            assert(down == 0);
        } else {
            assert(down == i + 1);
        }
    }
    assert(dl == if dj == 0 { n - 1 } else { dj - 1 }) by {
        if j == 0 {
            assert(left == n - 1);
        } else {
            assert(left == j - 1);
        }
    }
    assert(dr == if right >= c { right - c } else { right - c + n });
    assert(dr == if dj == n - 1 { 0 } else { dj + 1 }) by {
        if j == n - 1 {
            assert(right == 0);
        } else {
            assert(right == j + 1);
        }
    }
}

/// The next generation of a line of three is the crossing line of three.
proof fn lemma_line_turns(m: Seq<Seq<Cell>>, r: int, c: int, vertical: bool)
    requires
        is_square(m),
        m.len() >= 4,
        0 <= r < m.len(),
        0 <= c < m.len(),
        live_on_line(m, r, c, vertical),
    ensures
        is_square(next_generation(m)),
        next_generation(m).len() == m.len(),
        live_on_line(next_generation(m), r, c, !vertical),
{
    let m1 = next_generation(m);
    assert forall|i: int, j: int| 0 <= i < m.len() && 0 <= j < m.len() implies ((
    #[trigger] m1[i][j] is Alive) <==> if !vertical {
        on_vertical(i, j, r, c, m.len() as int)
    } else {
        on_horizontal(i, j, r, c, m.len() as int)
    }) by {
        lemma_line_cell(m, r, c, vertical, i, j);
    }
}


/// `m` after `k` generations.
pub open spec fn generation(m: Seq<Seq<Cell>>, k: nat) -> Seq<Seq<Cell>>
    decreases k,
{
    if k == 0 {
        m
    } else {
        next_generation(generation(m, (k - 1) as nat))
    }
}

/// A cell that does not come alive is dead if it was alive or dead, and
/// unborn if it was unborn.
proof fn lemma_fate_category(c: Cell, k: nat)
    ensures
        fate(c, k) is Dead <==> (!(fate(c, k) is Alive) && !(c is Unborn)),
        fate(c, k) is Unborn <==> (!(fate(c, k) is Alive) && c is Unborn),
{
}

/// Where the live cells of generations two and three are those of
/// generations zero and one, generation three agrees with generation one
/// cell by cell in category.
proof fn lemma_categories_repeat(m0: Seq<Seq<Cell>>)
    requires
        is_square(m0),
        forall|i: int, j: int|
            0 <= i < m0.len() && 0 <= j < m0.len() ==> {
                &&& (#[trigger] generation(m0, 2)[i][j] is Alive) <==> (m0[i][j] is Alive)
                &&& (generation(m0, 3)[i][j] is Alive) <==> (generation(m0, 1)[i][j] is Alive)
            },
    ensures
        matrices_match(generation(m0, 3), generation(m0, 1)),
{
    reveal_with_fuel(generation, 4);
    let n = m0.len() as int;
    let m1 = generation(m0, 1);
    let m2 = generation(m0, 2);
    let m3 = generation(m0, 3);
    assert(m1 == next_generation(m0));
    assert(m2 == next_generation(m1));
    assert(m3 == next_generation(m2));
    assert forall|i: int, j: int| 0 <= i < m3.len() && 0 <= j < m3[i].len() implies same_category(
        #[trigger] m3[i][j],
        m1[i][j],
    ) by {
        assert(m2[i][j] is Alive <==> m0[i][j] is Alive);
        lemma_fate_category(m0[i][j], count_alive(neighbour_cells(m0, i, j)));
        lemma_fate_category(m1[i][j], count_alive(neighbour_cells(m1, i, j)));
        lemma_fate_category(m2[i][j], count_alive(neighbour_cells(m2, i, j)));
    }
}

proof fn lemma_line_generations(m: Seq<Seq<Cell>>, r: int, c: int, vertical: bool, k: nat)
    requires
        is_square(m),
        m.len() >= 4,
        0 <= r < m.len(),
        0 <= c < m.len(),
        live_on_line(m, r, c, vertical),
    ensures
        is_square(generation(m, k)),
        generation(m, k).len() == m.len(),
        live_on_line(generation(m, k), r, c, vertical == (k % 2 == 0)),
    decreases k,
{
    if k > 0 {
        lemma_line_generations(m, r, c, vertical, (k - 1) as nat);
        lemma_line_turns(generation(m, (k - 1) as nat), r, c, vertical == ((k - 1) as nat % 2 == 0));
    }
}

/// A line of three live cells, vertical or horizontal, with no other live
/// cell, on an `n × n` torus with `n >= 4` oscillates with period two. Each
/// generation turns the line a quarter, so generation `k + 2` has the live
/// cells of generation `k`; from generation 1 on, generations `k` and
/// `k + 2` also agree cell by cell under the equality of cells, which tells
/// live, dead and unborn apart but ignores the age of dead cells. The period
/// is exactly two: the cell just above the centre is alive in every other
/// generation only.
pub proof fn lemma_line_period_two(m: Seq<Seq<Cell>>, r: int, c: int, vertical: bool, k: nat)
    requires
        is_square(m),
        m.len() >= 4,
        0 <= r < m.len(),
        0 <= c < m.len(),
        live_on_line(m, r, c, vertical),
    ensures
        live_on_line(generation(m, k), r, c, vertical == (k % 2 == 0)),
        forall|i: int, j: int|
            0 <= i < m.len() && 0 <= j < m.len() ==> ((#[trigger] generation(m, k + 2)[i][j] is Alive)
                <==> (generation(m, k)[i][j] is Alive)),
        k >= 1 ==> matrices_match(generation(m, k + 2), generation(m, k)),
        (generation(m, k)[wrap_dec(r, m.len() as int)][c] is Alive) != (generation(
            m,
            k + 1,
        )[wrap_dec(r, m.len() as int)][c] is Alive),
{
    let n = m.len() as int;
    lemma_wrap_is_mod(r, n);
    lemma_mod_range(wrap_dec(r, n) - r, n);
    lemma_mod_range(c - c, n);
    lemma_line_generations(m, r, c, vertical, k + 1);
    assert((k + 1) % 2 == 0 <==> k % 2 != 0);
    lemma_line_generations(m, r, c, vertical, k);
    lemma_line_generations(m, r, c, vertical, k + 2);
    assert((k + 2) % 2 == k % 2);
    if k >= 1 {
        let m0 = generation(m, (k - 1) as nat);
        lemma_line_generations(m, r, c, vertical, (k - 1) as nat);
        lemma_line_generations(m, r, c, vertical, k + 1);
        assert((k + 1) % 2 == (k - 1) as nat % 2);
        lemma_generation_shift(m, (k - 1) as nat);
        lemma_categories_repeat(m0);
    }
}

proof fn lemma_generation_shift(m: Seq<Seq<Cell>>, k: nat)
    ensures
        generation(generation(m, k), 1) == generation(m, k + 1),
        generation(generation(m, k), 2) == generation(m, k + 2),
        generation(generation(m, k), 3) == generation(m, k + 3),
{
    reveal_with_fuel(generation, 4);
    assert(generation(m, k + 1) == next_generation(generation(m, k)));
    assert(generation(m, k + 2) == next_generation(generation(m, k + 1)));
    assert(generation(m, k + 3) == next_generation(generation(m, k + 2)));
}


/// A blinker written into an empty grid is a line of three centred on the
/// middle of its footprint, vertical for `TopBottom`.
proof fn lemma_inserted_blinker_is_line(n: nat, x: nat, y: nat, b: Blinker)
    requires
        n >= 4,
        x + 3 <= n,
        y + 3 <= n,
    ensures
        is_square(overlay(blank(n), b.shape(), x as int, y as int)),
        live_on_line(
            overlay(blank(n), b.shape(), x as int, y as int),
            x + 1 as int,
            y + 1 as int,
            b is TopBottom,
        ),
{
    let m = overlay(blank(n), b.shape(), x as int, y as int);
    let g = grid_of_bits(blinker_bits(), 3, 3);
    assert(b.shape().len() == 3);
    assert forall|i: int, j: int| 0 <= i < n && 0 <= j < n implies ((#[trigger] m[i][j] is Alive)
        <==> if b is TopBottom {
        on_vertical(i, j, x + 1 as int, y + 1 as int, n as int)
    } else {
        on_horizontal(i, j, x + 1 as int, y + 1 as int, n as int)
    }) by {
        lemma_mod_range(i - x - 1, n as int);
        lemma_mod_range(j - y - 1, n as int);
        if x <= i < x + 3 && y <= j < y + 3 {
            let a = i - x;
            let e = j - y;
            assert(b.shape()[a].len() == 3);
            assert(a == 0 || a == 1 || a == 2);
            assert(e == 0 || e == 1 || e == 2);
            assert(g[a][e] == if blinker_bits()[a * 3 + e] == 1 {
                Cell::Alive
            } else {
                Cell::Unborn
            });
            assert(g[e][a] == if blinker_bits()[e * 3 + a] == 1 {
                Cell::Alive
            } else {
                Cell::Unborn
            });
            assert(g[a][e] is Alive <==> e == 1);
            assert(g[e][a] is Alive <==> a == 1);
            if b is LeftRight {
                assert(b.shape() == transpose(g));
                assert(transpose(g)[a][e] == g[e][a]);
            }
        }
    }
}

/// A blinker written into an empty `n × n` grid with `n >= 4`, anywhere it
/// fits and in either orientation, oscillates with period two: generation
/// `k + 2` has the live cells of generation `k`, from generation 1 on the
/// two are equal as grids, and generations `k` and `k + 1` always differ in
/// the cell at the top middle of the footprint.
pub proof fn lemma_blinker_period_two(n: nat, x: nat, y: nat, b: Blinker, k: nat)
    requires
        n >= 4,
        x + 3 <= n,
        y + 3 <= n,
    ensures
        ({
            let m = overlay(blank(n), b.shape(), x as int, y as int);
            &&& forall|i: int, j: int|
                0 <= i < n && 0 <= j < n ==> ((#[trigger] generation(m, k + 2)[i][j] is Alive) <==> (
                generation(m, k)[i][j] is Alive))
            &&& k >= 1 ==> matrices_match(generation(m, k + 2), generation(m, k))
            &&& (generation(m, k)[x as int][y + 1 as int] is Alive) != (generation(m, k + 1)[x as int][y
                + 1 as int] is Alive)
        }),
{
    let m = overlay(blank(n), b.shape(), x as int, y as int);
    lemma_inserted_blinker_is_line(n, x, y, b);
    lemma_line_period_two(m, x + 1 as int, y + 1 as int, b is TopBottom, k);
}

} // verus!
