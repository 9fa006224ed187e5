//! The walk around a square island of terrain.

use vstd::prelude::*;
use crate::raster::{Heightmap, solid};
use crate::contour::{
    TraceWindow, walk, trace_from, moore_next, search_from, step_point, traceable, window_border,
    window_contours, contours_from, border_point_fn, clip_end,
};
use crate::grid::{grid_items, row_items};
use crate::raster::{raster_width, raster_height};
use crate::border::border_pixel;

verus! {

/// The samples of `m` hold terrain exactly on the `n x n` square at `(a, c)`,
/// and the window holds the square.
pub open spec fn square_island(m: Heightmap, w: TraceWindow, a: int, c: int, n: int) -> bool {
    &&& 2 <= n
    &&& forall|x: int, z: int| #[trigger] solid(m, x, z) <==> (a <= x < a + n && c <= z < c + n)
    &&& w.start_x <= a
    &&& a + n <= w.end_x
    &&& w.start_z <= c
    &&& c + n <= w.end_z
}

/// The top edge from `(a + i, c)` eastwards, excluding `(a + i, c)` itself.
pub open spec fn top_run(a: int, c: int, i: int, n: int) -> Seq<(int, int)>
    decreases n - 1 - i,
{
    if i >= n - 1 {
        Seq::empty()
    } else {
        seq![(a + i + 1, c)] + top_run(a, c, i + 1, n)
    }
}

/// The right edge from `(a + n - 1, c + j)` southwards, excluding the start.
pub open spec fn right_run(a: int, c: int, j: int, n: int) -> Seq<(int, int)>
    decreases n - 1 - j,
{
    if j >= n - 1 {
        Seq::empty()
    } else {
        seq![(a + n - 1, c + j + 1)] + right_run(a, c, j + 1, n)
    }
}

/// The bottom edge from `(a + i, c + n - 1)` westwards, excluding the start.
pub open spec fn bottom_run(a: int, c: int, i: int, n: int) -> Seq<(int, int)>
    decreases i,
{
    if i <= 0 {
        Seq::empty()
    } else {
        seq![(a + i - 1, c + n - 1)] + bottom_run(a, c, i - 1, n)
    }
}

/// The left edge from `(a, c + j)` northwards, stopping below `(a, c)`.
pub open spec fn left_run(a: int, c: int, j: int) -> Seq<(int, int)>
    decreases j,
{
    if j <= 1 {
        Seq::empty()
    } else {
        seq![(a, c + j - 1)] + left_run(a, c, j - 1)
    }
}

/// The perimeter of the square, clockwise from its top-left pixel.
pub open spec fn square_perimeter(a: int, c: int, n: int) -> Seq<(int, int)> {
    seq![(a, c)] + top_run(a, c, 0, n) + right_run(a, c, 0, n) + bottom_run(a, c, n - 1, n) + left_run(a, c, n - 1)
}

proof fn lemma_top_step(m: Heightmap, w: TraceWindow, a: int, c: int, n: int, i: int)
    requires
        square_island(m, w, a, c, n),
        0 <= i < n - 1,
    ensures
        moore_next(m, w, (a + i, c), 0) == Some(0int),
{
    reveal_with_fuel(search_from, 3);
    assert(!solid(m, a + i, c - 1));
    assert(!solid(m, a + i + 1, c - 1));
    assert(solid(m, a + i + 1, c));
    assert(border_pixel(m, a + i + 1, c));
}

proof fn lemma_top_walk(m: Heightmap, w: TraceWindow, a: int, c: int, n: int, i: int, fuel: nat)
    requires
        square_island(m, w, a, c, n),
        0 <= i <= n - 1,
        fuel >= n - 1 - i,
    ensures
        walk(m, w, (a, c), (a + i, c), 0, fuel).0 == top_run(a, c, i, n) + walk(m, w, (a, c), (a + n - 1, c), 0, (fuel - (n - 1 - i)) as nat).0,
        walk(m, w, (a, c), (a + i, c), 0, fuel).1 == walk(m, w, (a, c), (a + n - 1, c), 0, (fuel - (n - 1 - i)) as nat).1,
    decreases n - 1 - i,
{
    if i < n - 1 {
        lemma_top_step(m, w, a, c, n, i);
        lemma_top_walk(m, w, a, c, n, i + 1, (fuel - 1) as nat);
        assert(step_point((a + i, c), 0) == (a + i + 1, c));
        assert(top_run(a, c, i, n) + walk(m, w, (a, c), (a + n - 1, c), 0, (fuel - (n - 1 - i)) as nat).0 =~= seq![(a + i + 1, c)] + (top_run(a, c, i + 1, n) + walk(m, w, (a, c), (a + n - 1, c), 0, (fuel - (n - 1 - i)) as nat).0));
    } else {
        assert(top_run(a, c, i, n) + walk(m, w, (a, c), (a + n - 1, c), 0, fuel).0 =~= walk(m, w, (a, c), (a + n - 1, c), 0, fuel).0);
    }
}


proof fn lemma_right_walk(m: Heightmap, w: TraceWindow, a: int, c: int, n: int, j: int, fuel: nat)
    requires
        square_island(m, w, a, c, n),
        1 <= j <= n - 1,
        fuel >= n - 1 - j,
    ensures
        walk(m, w, (a, c), (a + n - 1, c + j), 2, fuel).0 == right_run(a, c, j, n) + walk(m, w, (a, c), (a + n - 1, c + n - 1), 2, (fuel - (n - 1 - j)) as nat).0,
        walk(m, w, (a, c), (a + n - 1, c + j), 2, fuel).1 == walk(m, w, (a, c), (a + n - 1, c + n - 1), 2, (fuel - (n - 1 - j)) as nat).1,
    decreases n - 1 - j,
{
    let rest = walk(m, w, (a, c), (a + n - 1, c + n - 1), 2, (fuel - (n - 1 - j)) as nat);
    if j < n - 1 {
        reveal_with_fuel(search_from, 3);
        assert(!solid(m, a + n, c + j));
        assert(!solid(m, a + n, c + j + 1));
        assert(solid(m, a + n - 1, c + j + 1));
        assert(border_pixel(m, a + n - 1, c + j + 1));
        assert(moore_next(m, w, (a + n - 1, c + j), 2) == Some(2int));
        lemma_right_walk(m, w, a, c, n, j + 1, (fuel - 1) as nat);
        assert(right_run(a, c, j, n) + rest.0 =~= seq![(a + n - 1, c + j + 1)] + (right_run(a, c, j + 1, n) + rest.0));
    } else {
        assert(right_run(a, c, j, n) + rest.0 =~= rest.0);
    }
}

proof fn lemma_bottom_walk(m: Heightmap, w: TraceWindow, a: int, c: int, n: int, i: int, fuel: nat)
    requires
        square_island(m, w, a, c, n),
        0 <= i <= n - 2,
        fuel >= i,
    ensures
        walk(m, w, (a, c), (a + i, c + n - 1), 4, fuel).0 == bottom_run(a, c, i, n) + walk(m, w, (a, c), (a, c + n - 1), 4, (fuel - i) as nat).0,
        walk(m, w, (a, c), (a + i, c + n - 1), 4, fuel).1 == walk(m, w, (a, c), (a, c + n - 1), 4, (fuel - i) as nat).1,
    decreases i,
{
    let rest = walk(m, w, (a, c), (a, c + n - 1), 4, (fuel - i) as nat);
    if i > 0 {
        reveal_with_fuel(search_from, 3);
        assert(!solid(m, a + i, c + n));
        assert(!solid(m, a + i - 1, c + n));
        assert(solid(m, a + i - 1, c + n - 1));
        assert(border_pixel(m, a + i - 1, c + n - 1));
        assert(moore_next(m, w, (a + i, c + n - 1), 4) == Some(4int));
        lemma_bottom_walk(m, w, a, c, n, i - 1, (fuel - 1) as nat);
        assert(bottom_run(a, c, i, n) + rest.0 =~= seq![(a + i - 1, c + n - 1)] + (bottom_run(a, c, i - 1, n) + rest.0));
    } else {
        assert(bottom_run(a, c, i, n) + rest.0 =~= rest.0);
    }
}

proof fn lemma_left_walk(m: Heightmap, w: TraceWindow, a: int, c: int, n: int, j: int, fuel: nat)
    requires
        square_island(m, w, a, c, n),
        1 <= j <= n - 1,
        fuel >= j,
    ensures
        walk(m, w, (a, c), (a, c + j), 6, fuel) == (left_run(a, c, j), true),
    decreases j,
{
    reveal_with_fuel(search_from, 3);
    assert(!solid(m, a - 1, c + j));
    assert(!solid(m, a - 1, c + j - 1));
    assert(solid(m, a, c + j - 1));
    assert(border_pixel(m, a, c + j - 1));
    assert(moore_next(m, w, (a, c + j), 6) == Some(6int));
    if j > 1 {
        lemma_left_walk(m, w, a, c, n, j - 1, (fuel - 1) as nat);
        assert(left_run(a, c, j) =~= seq![(a, c + j - 1)] + left_run(a, c, j - 1));
    }
}

/// Tracing a square island of side `n >= 2` from its top-left pixel walks its
/// perimeter clockwise, `4 * (n - 1)` pixels, and closes by stepping back to
/// the start, given a budget of at least that many steps.
pub proof fn lemma_square_island_trace(m: Heightmap, w: TraceWindow, a: int, c: int, n: int, fuel: nat)
    requires
        square_island(m, w, a, c, n),
        fuel >= 4 * (n - 1),
    ensures
        trace_from(m, w, (a, c), fuel) == (square_perimeter(a, c, n), true),
        square_perimeter(a, c, n).len() == 4 * (n - 1),
{
    let s = (a, c);
    let tr = (a + n - 1, c);
    let br = (a + n - 1, c + n - 1);
    let bl = (a, c + n - 1);
    let f1 = (fuel - (n - 1)) as nat;
    lemma_top_walk(m, w, a, c, n, 0, fuel);
    lemma_corner_turns(m, w, a, c, n);
    let f2 = (f1 - 1) as nat;
    lemma_right_walk(m, w, a, c, n, 1, f2);
    let f3 = (f2 - (n - 2)) as nat;
    assert(walk(m, w, s, tr, 0, f1).0 == seq![(a + n - 1, c + 1)] + walk(m, w, s, (a + n - 1, c + 1), 2, f2).0);
    let f4 = (f3 - 1) as nat;
    lemma_bottom_walk(m, w, a, c, n, n - 2, f4);
    let f5 = (f4 - (n - 2)) as nat;
    let wl = walk(m, w, s, bl, 4, f5);
    if n > 2 {
        lemma_left_walk(m, w, a, c, n, n - 2, (f5 - 1) as nat);
        assert(left_run(a, c, n - 1) =~= seq![(a, c + n - 2)] + left_run(a, c, n - 2));
    }
    assert(wl == (left_run(a, c, n - 1), true));
    let wb = walk(m, w, s, br, 2, f3);
    assert(wb.0 =~= bottom_run(a, c, n - 1, n) + wl.0);
    assert(right_run(a, c, 0, n) =~= seq![(a + n - 1, c + 1)] + right_run(a, c, 1, n));
    lemma_run_lengths(a, c, n);
    assert(trace_from(m, w, s, fuel).0 =~= square_perimeter(a, c, n));
}

proof fn lemma_corner_turns(m: Heightmap, w: TraceWindow, a: int, c: int, n: int)
    requires
        square_island(m, w, a, c, n),
    ensures
        moore_next(m, w, (a + n - 1, c), 0) == Some(2int),
        moore_next(m, w, (a + n - 1, c + n - 1), 2) == Some(4int),
        moore_next(m, w, (a, c + n - 1), 4) == Some(6int),
{
    lemma_turn_south(m, w, a, c, n);
    lemma_turn_west(m, w, a, c, n);
    lemma_turn_north(m, w, a, c, n);
}

proof fn lemma_turn_south(m: Heightmap, w: TraceWindow, a: int, c: int, n: int)
    requires
        square_island(m, w, a, c, n),
    ensures
        moore_next(m, w, (a + n - 1, c), 0) == Some(2int),
{
    reveal_with_fuel(search_from, 5);
    assert(!solid(m, a + n - 1, c - 1));
    assert(!solid(m, a + n, c - 1));
    assert(!solid(m, a + n, c));
    assert(!solid(m, a + n, c + 1));
    assert(solid(m, a + n - 1, c + 1));
    assert(border_pixel(m, a + n - 1, c + 1));
}

proof fn lemma_turn_west(m: Heightmap, w: TraceWindow, a: int, c: int, n: int)
    requires
        square_island(m, w, a, c, n),
    ensures
        moore_next(m, w, (a + n - 1, c + n - 1), 2) == Some(4int),
{
    reveal_with_fuel(search_from, 5);
    assert(!solid(m, a + n, c + n - 1));
    assert(!solid(m, a + n, c + n));
    assert(!solid(m, a + n - 1, c + n));
    assert(!solid(m, a + n - 2, c + n));
    assert(solid(m, a + n - 2, c + n - 1));
    assert(border_pixel(m, a + n - 2, c + n - 1));
}

proof fn lemma_turn_north(m: Heightmap, w: TraceWindow, a: int, c: int, n: int)
    requires
        square_island(m, w, a, c, n),
    ensures
        moore_next(m, w, (a, c + n - 1), 4) == Some(6int),
{
    reveal_with_fuel(search_from, 5);
    assert(!solid(m, a, c + n));
    assert(!solid(m, a - 1, c + n));
    assert(!solid(m, a - 1, c + n - 1));
    assert(!solid(m, a - 1, c + n - 2));
    assert(solid(m, a, c + n - 2));
    assert(border_pixel(m, a, c + n - 2));
}

proof fn lemma_run_lengths(a: int, c: int, n: int)
    requires
        2 <= n,
    ensures
        top_run(a, c, 0, n).len() == n - 1,
        right_run(a, c, 0, n).len() == n - 1,
        bottom_run(a, c, n - 1, n).len() == n - 1,
        left_run(a, c, n - 1).len() == n - 2,
{
    lemma_top_len(a, c, 0, n);
    lemma_right_len(a, c, 0, n);
    lemma_bottom_len(a, c, n - 1, n);
    lemma_left_len(a, c, n - 1);
}

proof fn lemma_top_len(a: int, c: int, i: int, n: int)
    requires
        0 <= i <= n - 1,
    ensures
        top_run(a, c, i, n).len() == n - 1 - i,
    decreases n - 1 - i,
{
    if i < n - 1 {
        lemma_top_len(a, c, i + 1, n);
    }
}

proof fn lemma_right_len(a: int, c: int, j: int, n: int)
    requires
        0 <= j <= n - 1,
    ensures
        right_run(a, c, j, n).len() == n - 1 - j,
    decreases n - 1 - j,
{
    if j < n - 1 {
        lemma_right_len(a, c, j + 1, n);
    }
}

proof fn lemma_bottom_len(a: int, c: int, i: int, n: int)
    requires
        0 <= i,
    ensures
        bottom_run(a, c, i, n).len() == i,
    decreases i,
{
    if i > 0 {
        lemma_bottom_len(a, c, i - 1, n);
    }
}

proof fn lemma_left_len(a: int, c: int, j: int)
    requires
        1 <= j,
    ensures
        left_run(a, c, j).len() == j - 1,
    decreases j,
{
    if j > 1 {
        lemma_left_len(a, c, j - 1);
    }
}


pub open spec fn on_perimeter(a: int, c: int, n: int, x: int, z: int) -> bool {
    &&& a <= x < a + n
    &&& c <= z < c + n
    &&& (x == a || x == a + n - 1 || z == c || z == c + n - 1)
}

proof fn lemma_traceable_iff(m: Heightmap, w: TraceWindow, a: int, c: int, n: int, x: int, z: int)
    requires
        square_island(m, w, a, c, n),
    ensures
        traceable(m, w, (x, z)) <==> on_perimeter(a, c, n, x, z),
{
    assert(solid(m, x, z) <==> (a <= x < a + n && c <= z < c + n));
    assert(solid(m, x, z - 1) <==> (a <= x < a + n && c <= z - 1 < c + n));
    assert(solid(m, x + 1, z) <==> (a <= x + 1 < a + n && c <= z < c + n));
    assert(solid(m, x, z + 1) <==> (a <= x < a + n && c <= z + 1 < c + n));
    assert(solid(m, x - 1, z) <==> (a <= x - 1 < a + n && c <= z < c + n));
}

proof fn lemma_top_contains(a: int, c: int, i: int, n: int, k: int)
    requires
        0 <= i < k <= n - 1,
    ensures
        top_run(a, c, i, n).contains((a + k, c)),
    decreases n - 1 - i,
{
    let t = top_run(a, c, i, n);
    if k == i + 1 {
        assert(t[0] == (a + k, c));
    } else {
        lemma_top_contains(a, c, i + 1, n, k);
        let r = top_run(a, c, i + 1, n);
        let j = choose|j: int| 0 <= j < r.len() && #[trigger] r[j] == (a + k, c);
        assert(t[j + 1] == (a + k, c));
    }
}

proof fn lemma_right_contains(a: int, c: int, j: int, n: int, k: int)
    requires
        0 <= j < k <= n - 1,
    ensures
        right_run(a, c, j, n).contains((a + n - 1, c + k)),
    decreases n - 1 - j,
{
    let t = right_run(a, c, j, n);
    if k == j + 1 {
        assert(t[0] == (a + n - 1, c + k));
    } else {
        lemma_right_contains(a, c, j + 1, n, k);
        let r = right_run(a, c, j + 1, n);
        let q = choose|q: int| 0 <= q < r.len() && #[trigger] r[q] == (a + n - 1, c + k);
        assert(t[q + 1] == (a + n - 1, c + k));
    }
}

proof fn lemma_bottom_contains(a: int, c: int, i: int, n: int, k: int)
    requires
        0 <= k < i,
    ensures
        bottom_run(a, c, i, n).contains((a + k, c + n - 1)),
    decreases i,
{
    let t = bottom_run(a, c, i, n);
    if k == i - 1 {
        assert(t[0] == (a + k, c + n - 1));
    } else {
        lemma_bottom_contains(a, c, i - 1, n, k);
        let r = bottom_run(a, c, i - 1, n);
        let q = choose|q: int| 0 <= q < r.len() && #[trigger] r[q] == (a + k, c + n - 1);
        assert(t[q + 1] == (a + k, c + n - 1));
    }
}

proof fn lemma_left_contains(a: int, c: int, j: int, k: int)
    requires
        1 <= k < j,
    ensures
        left_run(a, c, j).contains((a, c + k)),
    decreases j,
{
    let t = left_run(a, c, j);
    if k == j - 1 {
        assert(t[0] == (a, c + k));
    } else {
        lemma_left_contains(a, c, j - 1, k);
        let r = left_run(a, c, j - 1);
        let q = choose|q: int| 0 <= q < r.len() && #[trigger] r[q] == (a, c + k);
        assert(t[q + 1] == (a, c + k));
    }
}

proof fn lemma_contains_concat(s: Seq<(int, int)>, t: Seq<(int, int)>, p: (int, int))
    ensures
        (s.contains(p) || t.contains(p)) ==> (s + t).contains(p),
{
    if s.contains(p) {
        let i = choose|i: int| 0 <= i < s.len() && #[trigger] s[i] == p;
        assert((s + t)[i] == p);
    } else if t.contains(p) {
        let i = choose|i: int| 0 <= i < t.len() && #[trigger] t[i] == p;
        assert((s + t)[s.len() + i] == p);
    }
}

/// Every perimeter pixel lies on the traced perimeter.
proof fn lemma_perimeter_covers(a: int, c: int, n: int, x: int, z: int)
    requires
        2 <= n,
        on_perimeter(a, c, n, x, z),
    ensures
        square_perimeter(a, c, n).contains((x, z)),
{
    let p = (x, z);
    let s0 = seq![(a, c)];
    let s1 = top_run(a, c, 0, n);
    let s2 = right_run(a, c, 0, n);
    let s3 = bottom_run(a, c, n - 1, n);
    let s4 = left_run(a, c, n - 1);
    if p == (a, c) {
        assert(s0[0] == p);
    } else if z == c {
        lemma_top_contains(a, c, 0, n, x - a);
    } else if x == a + n - 1 {
        lemma_right_contains(a, c, 0, n, z - c);
    } else if z == c + n - 1 {
        lemma_bottom_contains(a, c, n - 1, n, x - a);
    } else {
        lemma_left_contains(a, c, n - 1, z - c);
    }
    lemma_contains_concat(s0, s1, p);
    lemma_contains_concat(s0 + s1, s2, p);
    lemma_contains_concat(s0 + s1 + s2, s3, p);
    lemma_contains_concat(s0 + s1 + s2 + s3, s4, p);
}

proof fn lemma_rest_visited(m: Heightmap, w: TraceWindow, bs: Seq<(int, int)>, i: int, vis: Set<(int, int)>, fuel: nat)
    requires
        0 <= i,
        forall|j: int| i <= j < bs.len() ==> vis.contains(#[trigger] bs[j]),
    ensures
        contours_from(m, w, bs, i, vis, fuel) == Seq::<Seq<(int, int)>>::empty(),
    decreases bs.len() - i,
{
    if i < bs.len() {
        lemma_rest_visited(m, w, bs, i + 1, vis, fuel);
    }
}

pub open spec fn count_in(lo: int, hi: int, x0: int, x1: int) -> int {
    let l = if lo > x0 { lo } else { x0 };
    let h = if hi < x1 { hi } else { x1 };
    if h > l { h - l } else { 0 }
}

proof fn lemma_row_count(m: Heightmap, w: TraceWindow, a: int, c: int, n: int, x0: int, x1: int, z: int)
    requires
        square_island(m, w, a, c, n),
        z == c || z == c + n - 1,
    ensures
        row_items(border_point_fn(m, w), x0, x1, z).len() >= count_in(a, a + n, x0, x1),
    decreases x1 - x0,
{
    if x1 > x0 {
        lemma_row_count(m, w, a, c, n, x0, x1 - 1, z);
        lemma_traceable_iff(m, w, a, c, n, x1 - 1, z);
    }
}

proof fn lemma_grid_count(m: Heightmap, w: TraceWindow, a: int, c: int, n: int, x0: int, x1: int, z0: int, z1: int)
    requires
        square_island(m, w, a, c, n),
    ensures
        grid_items(border_point_fn(m, w), x0, x1, z0, z1).len() >= (if z0 <= c < z1 { count_in(a, a + n, x0, x1) } else { 0 })
            + (if z0 <= c + n - 1 < z1 { count_in(a, a + n, x0, x1) } else { 0 }),
    decreases z1 - z0,
{
    if z1 > z0 {
        lemma_grid_count(m, w, a, c, n, x0, x1, z0, z1 - 1);
        if z1 - 1 == c || z1 - 1 == c + n - 1 {
            lemma_row_count(m, w, a, c, n, x0, x1, z1 - 1);
        }
    }
}

proof fn lemma_row_first(m: Heightmap, w: TraceWindow, a: int, c: int, n: int, x0: int, x1: int)
    requires
        square_island(m, w, a, c, n),
        x0 <= a < x1,
    ensures
        row_items(border_point_fn(m, w), x0, x1, c).len() > 0,
        row_items(border_point_fn(m, w), x0, x1, c)[0] == (a, c),
    decreases x1 - x0,
{
    let f = border_point_fn(m, w);
    lemma_traceable_iff(m, w, a, c, n, x1 - 1, c);
    if x1 - 1 > a {
        lemma_row_first(m, w, a, c, n, x0, x1 - 1);
    } else {
        lemma_row_empty_before(m, w, a, c, n, x0, a);
    }
}

proof fn lemma_row_empty_before(m: Heightmap, w: TraceWindow, a: int, c: int, n: int, x0: int, x1: int)
    requires
        square_island(m, w, a, c, n),
        x1 <= a,
    ensures
        row_items(border_point_fn(m, w), x0, x1, c).len() == 0,
    decreases x1 - x0,
{
    if x1 > x0 {
        lemma_row_empty_before(m, w, a, c, n, x0, x1 - 1);
        lemma_traceable_iff(m, w, a, c, n, x1 - 1, c);
    }
}

proof fn lemma_row_empty_above(m: Heightmap, w: TraceWindow, a: int, c: int, n: int, x0: int, x1: int, z: int)
    requires
        square_island(m, w, a, c, n),
        z < c,
    ensures
        row_items(border_point_fn(m, w), x0, x1, z).len() == 0,
    decreases x1 - x0,
{
    if x1 > x0 {
        lemma_row_empty_above(m, w, a, c, n, x0, x1 - 1, z);
        lemma_traceable_iff(m, w, a, c, n, x1 - 1, z);
    }
}

proof fn lemma_grid_first(m: Heightmap, w: TraceWindow, a: int, c: int, n: int, x0: int, x1: int, z0: int, z1: int)
    requires
        square_island(m, w, a, c, n),
        x0 <= a < x1,
        z0 <= c,
    ensures
        z1 <= c ==> grid_items(border_point_fn(m, w), x0, x1, z0, z1).len() == 0,
        c < z1 ==> grid_items(border_point_fn(m, w), x0, x1, z0, z1).len() > 0 && grid_items(border_point_fn(m, w), x0, x1, z0, z1)[0] == (a, c),
    decreases z1 - z0,
{
    if z1 > z0 {
        lemma_grid_first(m, w, a, c, n, x0, x1, z0, z1 - 1);
        if z1 - 1 < c {
            lemma_row_empty_above(m, w, a, c, n, x0, x1, z1 - 1);
        } else if z1 - 1 == c {
            lemma_row_first(m, w, a, c, n, x0, x1);
        }
    }
}

/// Tracing a window that holds a square island of side `n >= 2` of terrain,
/// void all around, returns exactly one contour: the island's perimeter,
/// `4 * (n - 1)` pixels starting at its top-left pixel, closed by a last step
/// back to that pixel.
pub proof fn lemma_square_island_contour(m: Heightmap, w: TraceWindow, a: int, c: int, n: int)
    requires
        square_island(m, w, a, c, n),
    ensures
        window_contours(m, w) == seq![square_perimeter(a, c, n)],
        square_perimeter(a, c, n).len() == 4 * (n - 1),
        trace_from(m, w, (a, c), (2 * window_border(m, w).len()) as nat).1,
{
    let bs = window_border(m, w);
    let x1 = clip_end(w.end_x as int, raster_width(m));
    let z1 = clip_end(w.end_z as int, raster_height(m));
    assert(solid(m, a + n - 1, c + n - 1));
    assert(a + n <= x1 && c + n <= z1);
    lemma_grid_first(m, w, a, c, n, w.start_x as int, x1, w.start_z as int, z1);
    lemma_grid_count(m, w, a, c, n, w.start_x as int, x1, w.start_z as int, z1);
    assert(count_in(a, a + n, w.start_x as int, x1) == n);
    assert(bs.len() >= 2 * n);
    let fuel = (2 * bs.len()) as nat;
    lemma_square_island_trace(m, w, a, c, n, fuel);
    let t = trace_from(m, w, (a, c), fuel);
    let vis = Set::<(int, int)>::empty().union(t.0.to_set());
    assert forall|j: int| 1 <= j < bs.len() implies vis.contains(#[trigger] bs[j]) by {
        crate::contour::lemma_window_border_in(m, w, j);
        let p = bs[j];
        lemma_traceable_iff(m, w, a, c, n, p.0, p.1);
        lemma_perimeter_covers(a, c, n, p.0, p.1);
    }
    lemma_rest_visited(m, w, bs, 1, vis, fuel);
    assert(window_contours(m, w) =~= seq![square_perimeter(a, c, n)]);
}

} // verus!
