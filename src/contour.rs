//! The boundary tracer: walks the border pixels of a window into closed
//! contours with Moore-neighbour (8-connected) search.
//!
//! Directions are numbered clockwise as seen on the raster (x right, z down):
//! 0 east, 1 south-east, 2 south, 3 south-west, 4 west, 5 north-west,
//! 6 north, 7 north-east. Having arrived in direction `d`, the search for the
//! next pixel starts at `d + 6` (a 270 degree clockwise turn) and goes
//! clockwise; a walk starts as if it had arrived going east.

use vstd::prelude::*;
use crate::raster::{Heightmap, raster_width, raster_height, solid};
use crate::border::{border_pixel, is_border_pixel, void_in_raster};
use crate::grid::{grid_items, row_items};

verus! {

/// A rectangle `[start_x, end_x) x [start_z, end_z)` of the raster.
#[derive(Clone, Copy, Debug)]
pub struct TraceWindow {
    pub start_x: u32,
    pub start_z: u32,
    pub end_x: u32,
    pub end_z: u32,
}

pub type Point = (int, int);

pub open spec fn dir_offset(d: int) -> Point {
    if d == 0 {
        (1, 0)
    } else if d == 1 {
        (1, 1)
    } else if d == 2 {
        (0, 1)
    } else if d == 3 {
        (-1, 1)
    } else if d == 4 {
        (-1, 0)
    } else if d == 5 {
        (-1, -1)
    } else if d == 6 {
        (0, -1)
    } else {
        (1, -1)
    }
}

pub open spec fn step_point(p: Point, d: int) -> Point {
    (p.0 + dir_offset(d).0, p.1 + dir_offset(d).1)
}

pub open spec fn in_window(w: TraceWindow, p: Point) -> bool {
    w.start_x <= p.0 < w.end_x && w.start_z <= p.1 < w.end_z
}

/// A pixel the walk may enter: a border pixel inside the window.
pub open spec fn traceable(m: Heightmap, w: TraceWindow, p: Point) -> bool {
    in_window(w, p) && border_pixel(m, p.0, p.1)
}

/// The first direction, among the `8 - k` tried from the `k`-th on, that leads
/// from `p` to a traceable pixel.
pub open spec fn search_from(m: Heightmap, w: TraceWindow, p: Point, d: int, k: int) -> Option<int>
    decreases 8 - k,
{
    if k >= 8 {
        None
    } else {
        let nd = (d + 6 + k) % 8;
        if traceable(m, w, step_point(p, nd)) {
            Some(nd)
        } else {
            search_from(m, w, p, d, k + 1)
        }
    }
}

/// The direction of the next step from `p` after arriving in direction `d`.
pub open spec fn moore_next(m: Heightmap, w: TraceWindow, p: Point, d: int) -> Option<int> {
    search_from(m, w, p, d, 0)
}

/// The pixels a walk from `p` (arrived in direction `d`) appends before it
/// stops, within `fuel` steps, and whether it stopped by returning to `start`.
pub open spec fn walk(m: Heightmap, w: TraceWindow, start: Point, p: Point, d: int, fuel: nat) -> (Seq<Point>, bool)
    decreases fuel,
{
    if fuel == 0 {
        (Seq::empty(), false)
    } else {
        match moore_next(m, w, p, d) {
            Option::None => (Seq::empty(), false),
            Option::Some(nd) => {
                let n = step_point(p, nd);
                if n == start {
                    (Seq::empty(), true)
                } else {
                    let rest = walk(m, w, start, n, nd, (fuel - 1) as nat);
                    (seq![n] + rest.0, rest.1)
                }
            },
        }
    }
}

/// The walk from `start`: its pixels, `start` first, and whether it closed.
pub open spec fn trace_from(m: Heightmap, w: TraceWindow, start: Point, fuel: nat) -> (Seq<Point>, bool) {
    let r = walk(m, w, start, start, 0, fuel);
    (seq![start] + r.0, r.1)
}

pub open spec fn clip_end(end: int, limit: int) -> int {
    if end <= limit {
        end
    } else {
        limit
    }
}

pub open spec fn border_point(m: Heightmap, w: TraceWindow, x: int, z: int) -> Seq<Point> {
    if traceable(m, w, (x, z)) {
        seq![(x, z)]
    } else {
        Seq::empty()
    }
}

pub open spec fn border_point_fn(m: Heightmap, w: TraceWindow) -> spec_fn(int, int) -> Seq<Point> {
    |x: int, z: int| border_point(m, w, x, z)
}

/// The border pixels of the window, in row-major order.
pub open spec fn window_border(m: Heightmap, w: TraceWindow) -> Seq<Point> {
    grid_items(
        border_point_fn(m, w),
        w.start_x as int,
        clip_end(w.end_x as int, raster_width(m)),
        w.start_z as int,
        clip_end(w.end_z as int, raster_height(m)),
    )
}

/// Contours traced from the border pixels `borders[i..]` not yet in
/// `visited`: each start's walk marks its pixels; a walk that closes with at
/// least three pixels is a contour.
pub open spec fn contours_from(
    m: Heightmap,
    w: TraceWindow,
    borders: Seq<Point>,
    i: int,
    visited: Set<Point>,
    fuel: nat,
) -> Seq<Seq<Point>>
    decreases borders.len() - i,
{
    if i >= borders.len() || i < 0 {
        Seq::empty()
    } else if visited.contains(borders[i]) {
        contours_from(m, w, borders, i + 1, visited, fuel)
    } else {
        let t = trace_from(m, w, borders[i], fuel);
        let rest = contours_from(m, w, borders, i + 1, visited.union(t.0.to_set()), fuel);
        if t.1 && t.0.len() >= 3 {
            seq![t.0] + rest
        } else {
            rest
        }
    }
}

/// The closed contours of the window, the walk budget being twice the
/// number of its border pixels.
pub open spec fn window_contours(m: Heightmap, w: TraceWindow) -> Seq<Seq<Point>> {
    let borders = window_border(m, w);
    contours_from(m, w, borders, 0, Set::empty(), (2 * borders.len()) as nat)
}

pub open spec fn point_view(p: (u32, u32)) -> Point {
    (p.0 as int, p.1 as int)
}

pub open spec fn contour_view(c: Vec<(u32, u32)>) -> Seq<Point> {
    c@.map_values(|p: (u32, u32)| point_view(p))
}

/// The neighbour of `(x, z)` in direction `d`, where it is traceable.
fn neighbour_in(heightmap: &Heightmap, w: &TraceWindow, x: u32, z: u32, d: u8) -> (r: Option<(u32, u32)>)
    requires
        d < 8,
    ensures
        r is Some <==> traceable(*heightmap, *w, step_point((x as int, z as int), d as int)),
        r matches Some(n) ==> point_view(n) == step_point((x as int, z as int), d as int),
{
    let (dx, dz): (i64, i64) = if d == 0 {
        (1, 0)
    } else if d == 1 {
        (1, 1)
    } else if d == 2 {
        (0, 1)
    } else if d == 3 {
        (-1, 1)
    } else if d == 4 {
        (-1, 0)
    } else if d == 5 {
        (-1, -1)
    } else if d == 6 {
        (0, -1)
    } else {
        (1, -1)
    };
    let nx = x as i64 + dx;
    let nz = z as i64 + dz;
    if nx < w.start_x as i64 || nx >= w.end_x as i64 || nz < w.start_z as i64 || nz >= w.end_z as i64 {
        return None;
    }
    if is_border_pixel(nx as u32, nz as u32, heightmap) {
        Some((nx as u32, nz as u32))
    } else {
        None
    }
}

/// The next step of the walk from `(x, z)` after arriving in direction `d`:
/// its direction and pixel, or `None` where no neighbour is traceable.
pub fn find_next(heightmap: &Heightmap, w: &TraceWindow, x: u32, z: u32, d: u8) -> (r: Option<(u8, (u32, u32))>)
    requires
        d < 8,
    ensures
        match r {
            Option::None => moore_next(*heightmap, *w, (x as int, z as int), d as int) is None,
            Option::Some((nd, n)) => moore_next(*heightmap, *w, (x as int, z as int), d as int) == Some(nd as int)
                && nd < 8 && point_view(n) == step_point((x as int, z as int), nd as int),
        },
{
    let mut k: u8 = 0;
    while k < 8
        invariant
            k <= 8,
            d < 8,
            moore_next(*heightmap, *w, (x as int, z as int), d as int) == search_from(*heightmap, *w, (x as int, z as int), d as int, k as int),
        decreases 8 - k,
    {
        let nd = (d + 6 + k) % 8;
        match neighbour_in(heightmap, w, x, z, nd) {
            Some(n) => {
                return Some((nd, n));
            },
            None => {},
        }
        k = k + 1;
    }
    None
}

/// Walks from `(start_x, start_z)` for at most `budget` steps. Returns the
/// pixels visited, the start first, and whether the walk returned to the start.
pub fn trace_contour(heightmap: &Heightmap, w: &TraceWindow, start_x: u32, start_z: u32, budget: u128) -> (r: (Vec<(u32, u32)>, bool))
    ensures
        contour_view(r.0) == trace_from(*heightmap, *w, (start_x as int, start_z as int), budget as nat).0,
        r.1 == trace_from(*heightmap, *w, (start_x as int, start_z as int), budget as nat).1,
{
    let ghost m = *heightmap;
    let ghost s: Point = (start_x as int, start_z as int);
    let mut contour: Vec<(u32, u32)> = Vec::new();
    contour.push((start_x, start_z));
    let mut cx = start_x;
    let mut cz = start_z;
    let mut d: u8 = 0;
    let mut steps: u128 = 0;
    assert(contour_view(contour) =~= seq![s]);
    while steps < budget
        invariant
            steps <= budget,
            d < 8,
            m == *heightmap,
            s == (start_x as int, start_z as int),
            contour@.len() >= 1,
            contour_view(contour) + walk(m, *w, s, (cx as int, cz as int), d as int, (budget - steps) as nat).0
                == trace_from(m, *w, s, budget as nat).0,
            walk(m, *w, s, (cx as int, cz as int), d as int, (budget - steps) as nat).1 == trace_from(m, *w, s, budget as nat).1,
        decreases budget - steps,
    {
        let ghost fuel = (budget - steps) as nat;
        let ghost before = contour_view(contour);
        match find_next(heightmap, w, cx, cz, d) {
            None => {
                assert(contour_view(contour) + walk(m, *w, s, (cx as int, cz as int), d as int, fuel).0 =~= contour_view(contour));
                return (contour, false);
            },
            Some((nd, n)) => {
                if n.0 == start_x && n.1 == start_z {
                    assert(contour_view(contour) + walk(m, *w, s, (cx as int, cz as int), d as int, fuel).0 =~= contour_view(contour));
                    return (contour, true);
                }
                contour.push(n);
                assert(contour_view(contour) =~= before + seq![point_view(n)]);
                let ghost rest = walk(m, *w, s, point_view(n), nd as int, (fuel - 1) as nat);
                assert(walk(m, *w, s, (cx as int, cz as int), d as int, fuel).0 == seq![point_view(n)] + rest.0);
                assert(before + (seq![point_view(n)] + rest.0) =~= contour_view(contour) + rest.0);
                cx = n.0;
                cz = n.1;
                d = nd;
                steps = steps + 1;
            },
        }
    }
    assert(contour_view(contour) + walk(m, *w, s, (cx as int, cz as int), d as int, 0).0 =~= contour_view(contour));
    (contour, false)
}


proof fn lemma_search_traceable(m: Heightmap, w: TraceWindow, p: Point, d: int, k: int)
    requires
        0 <= d < 8,
        0 <= k,
    ensures
        search_from(m, w, p, d, k) matches Some(nd) ==> 0 <= nd < 8 && traceable(m, w, step_point(p, nd)),
    decreases 8 - k,
{
    if k < 8 {
        lemma_search_traceable(m, w, p, d, k + 1);
    }
}

proof fn lemma_walk_traceable(m: Heightmap, w: TraceWindow, s: Point, p: Point, d: int, fuel: nat)
    requires
        0 <= d < 8,
    ensures
        forall|i: int| 0 <= i < walk(m, w, s, p, d, fuel).0.len() ==> traceable(m, w, #[trigger] walk(m, w, s, p, d, fuel).0[i]),
    decreases fuel,
{
    if fuel > 0 {
        lemma_search_traceable(m, w, p, d, 0);
        match moore_next(m, w, p, d) {
            Option::None => {},
            Option::Some(nd) => {
                let n = step_point(p, nd);
                if n != s {
                    lemma_walk_traceable(m, w, s, n, nd, (fuel - 1) as nat);
                    let rest = walk(m, w, s, n, nd, (fuel - 1) as nat);
                    assert forall|i: int| 0 <= i < walk(m, w, s, p, d, fuel).0.len() implies traceable(m, w, #[trigger] walk(m, w, s, p, d, fuel).0[i]) by {
                        if i > 0 {
                            assert(walk(m, w, s, p, d, fuel).0[i] == rest.0[i - 1]);
                        }
                    }
                }
            },
        }
    }
}

/// Every pixel of a walk from a traceable start is traceable.
proof fn lemma_trace_traceable(m: Heightmap, w: TraceWindow, s: Point, fuel: nat)
    requires
        traceable(m, w, s),
    ensures
        forall|i: int| 0 <= i < trace_from(m, w, s, fuel).0.len() ==> traceable(m, w, #[trigger] trace_from(m, w, s, fuel).0[i]),
{
    lemma_walk_traceable(m, w, s, s, 0, fuel);
    let r = walk(m, w, s, s, 0, fuel);
    assert forall|i: int| 0 <= i < trace_from(m, w, s, fuel).0.len() implies traceable(m, w, #[trigger] trace_from(m, w, s, fuel).0[i]) by {
        if i > 0 {
            assert(trace_from(m, w, s, fuel).0[i] == r.0[i - 1]);
        }
    }
}

/// The border pixels of the window in row-major order.
pub fn collect_border_pixels(heightmap: &Heightmap, w: &TraceWindow) -> (r: Vec<(u32, u32)>)
    ensures
        r@.map_values(|p: (u32, u32)| point_view(p)) == window_border(*heightmap, *w),
{
    let ghost m = *heightmap;
    let ghost f = border_point_fn(m, *w);
    let width = heightmap.width();
    let height = heightmap.height();
    let end_x = if w.end_x <= width { w.end_x } else { width };
    let end_z = if w.end_z <= height { w.end_z } else { height };
    let mut out: Vec<(u32, u32)> = Vec::new();
    let mut z: u32 = w.start_z;
    if end_z < z {
        assert(out@.map_values(|p: (u32, u32)| point_view(p)) =~= window_border(m, *w));
        return out;
    }
    while z < end_z
        invariant
            w.start_z <= z <= end_z,
            f == border_point_fn(m, *w),
            m == *heightmap,
            end_x == clip_end(w.end_x as int, raster_width(m)),
            end_z == clip_end(w.end_z as int, raster_height(m)),
            out@.map_values(|p: (u32, u32)| point_view(p)) == grid_items(f, w.start_x as int, end_x as int, w.start_z as int, z as int),
        decreases end_z - z,
    {
        let mut x: u32 = w.start_x;
        let ghost g = grid_items(f, w.start_x as int, end_x as int, w.start_z as int, z as int);
        if end_x < x {
            assert(row_items(f, w.start_x as int, end_x as int, z as int) =~= Seq::empty());
        }
        while x < end_x
            invariant
                w.start_x <= x,
                x <= end_x || end_x < w.start_x,
                w.start_z <= z < end_z,
                f == border_point_fn(m, *w),
                m == *heightmap,
                g == grid_items(f, w.start_x as int, end_x as int, w.start_z as int, z as int),
                out@.map_values(|p: (u32, u32)| point_view(p)) == g + row_items(
                    f,
                    w.start_x as int,
                    if x <= end_x { x as int } else { end_x as int },
                    z as int,
                ),
            decreases end_x - x,
        {
            let ghost before = out@;
            if is_border_pixel(x, z, heightmap) && x < w.end_x && z < w.end_z {
                out.push((x, z));
                assert(out@.map_values(|p: (u32, u32)| point_view(p)) =~= before.map_values(|p: (u32, u32)| point_view(p)) + seq![(x as int, z as int)]);
            } else {
                assert(out@ == before);
            }
            assert(row_items(f, w.start_x as int, x + 1, z as int) == row_items(f, w.start_x as int, x as int, z as int) + f(x as int, z as int));
            assert(out@.map_values(|p: (u32, u32)| point_view(p)) =~= g + row_items(f, w.start_x as int, x + 1, z as int));
            x = x + 1;
        }
        proof {
            if end_x < w.start_x {
                assert(row_items(f, w.start_x as int, end_x as int, z as int) =~= Seq::empty());
            }
        }
        assert(grid_items(f, w.start_x as int, end_x as int, w.start_z as int, z + 1) == g + row_items(f, w.start_x as int, end_x as int, z as int));
        z = z + 1;
    }
    out
}


pub open spec fn contours_view(cs: Seq<Vec<(u32, u32)>>) -> Seq<Seq<Point>> {
    cs.map_values(|c: Vec<(u32, u32)>| contour_view(c))
}

/// `visited` marks, by row `z - start_z` and column `x - start_x`, exactly the
/// points of `vis`, all of which lie in `[start_x, end_x) x [start_z, end_z)`.
pub open spec fn visited_ok(visited: Seq<Vec<bool>>, vis: Set<Point>, w: TraceWindow, end_x: int, end_z: int) -> bool {
    let rows = end_z - w.start_z;
    let cols = end_x - w.start_x;
    &&& visited.len() == rows
    &&& forall|r: int| 0 <= r < rows ==> (#[trigger] visited[r])@.len() == cols
    &&& forall|r: int, c: int|
        0 <= r < rows && 0 <= c < cols ==> (#[trigger] visited[r]@[c] <==> vis.contains((w.start_x + c, w.start_z + r)))
    &&& forall|p: Point| #[trigger] vis.contains(p) ==> w.start_x <= p.0 < end_x && w.start_z <= p.1 < end_z
}

fn mark_visited(visited: &mut Vec<Vec<bool>>, r: usize, c: usize)
    requires
        r < old(visited)@.len(),
        c < old(visited)@[r as int]@.len(),
    ensures
        final(visited)@.len() == old(visited)@.len(),
        forall|i: int| 0 <= i < old(visited)@.len() ==> (#[trigger] final(visited)@[i])@.len() == old(visited)@[i]@.len(),
        forall|i: int, j: int|
            0 <= i < old(visited)@.len() && 0 <= j < old(visited)@[i]@.len() ==> (#[trigger] final(visited)@[i]@[j] <==> (
            (i == r && j == c) || old(visited)@[i]@[j])),
{
    let mut row = visited[r].clone();
    assert(row@ == old(visited)@[r as int]@);
    row.set(c, true);
    visited.set(r, row);
}

/// Traces the closed contours of the window: every border pixel not yet on a
/// walk starts one, in row-major order; a walk stops when it returns to its
/// start (a closed contour), when no neighbour is traceable, or after twice as
/// many steps as the window has border pixels. Only closed walks of at least
/// three pixels are kept.
pub fn trace_borders(heightmap: &Heightmap, window: &TraceWindow) -> (r: Vec<Vec<(u32, u32)>>)
    ensures
        contours_view(r@) == window_contours(*heightmap, *window),
{
    let ghost m = *heightmap;
    let ghost w = *window;
    let borders = collect_border_pixels(heightmap, window);
    let ghost bs = window_border(m, w);
    let width = heightmap.width();
    let height = heightmap.height();
    let end_x = if window.end_x <= width { window.end_x } else { width };
    let end_z = if window.end_z <= height { window.end_z } else { height };
    let budget: u128 = 2 * borders.len() as u128;
    let ghost fuel = (2 * bs.len()) as nat;
    let mut result: Vec<Vec<(u32, u32)>> = Vec::new();
    assert(borders@.len() == bs.len());
    if end_x <= window.start_x || end_z <= window.start_z {
        proof {
            if bs.len() > 0 {
                lemma_window_border_in(m, w, 0);
            }
            assert(bs.len() == 0);
            assert(contours_view(result@) =~= window_contours(m, w));
        }
        return result;
    }
    let rows = (end_z - window.start_z) as usize;
    let cols = (end_x - window.start_x) as usize;
    let mut visited: Vec<Vec<bool>> = Vec::new();
    let mut r: usize = 0;
    while r < rows
        invariant
            r <= rows,
            visited@.len() == r,
            forall|i: int| 0 <= i < r ==> (#[trigger] visited@[i])@.len() == cols,
            forall|i: int, j: int| 0 <= i < r && 0 <= j < cols ==> !(#[trigger] visited@[i]@[j]),
        decreases rows - r,
    {
        let mut row: Vec<bool> = Vec::new();
        let mut c: usize = 0;
        while c < cols
            invariant
                c <= cols,
                row@.len() == c,
                forall|j: int| 0 <= j < c ==> !(#[trigger] row@[j]),
            decreases cols - c,
        {
            row.push(false);
            c = c + 1;
        }
        visited.push(row);
        r = r + 1;
    }
    let ghost vis: Set<Point> = Set::empty();
    assert(visited_ok(visited@, vis, w, end_x as int, end_z as int));
    let mut i: usize = 0;
    while i < borders.len()
        invariant
            i <= borders@.len(),
            m == *heightmap,
            w == *window,
            borders@.len() == bs.len(),
            borders@.map_values(|p: (u32, u32)| point_view(p)) == bs,
            bs == window_border(m, w),
            budget == fuel,
            fuel == 2 * bs.len(),
            end_x == clip_end(w.end_x as int, raster_width(m)),
            end_z == clip_end(w.end_z as int, raster_height(m)),
            window.start_x < end_x,
            window.start_z < end_z,
            visited_ok(visited@, vis, w, end_x as int, end_z as int),
            contours_view(result@) + contours_from(m, w, bs, i as int, vis, fuel) == window_contours(m, w),
        decreases borders@.len() - i,
    {
        let (bx, bz) = borders[i];
        proof {
            lemma_window_border_in(m, w, i as int);
            assert(bs[i as int] == (bx as int, bz as int));
        }
        let ghost cf = contours_from(m, w, bs, i as int, vis, fuel);
        if visited[(bz - window.start_z) as usize][(bx - window.start_x) as usize] {
            assert(cf == contours_from(m, w, bs, i + 1, vis, fuel));
        } else {
            let (contour, closed) = trace_contour(heightmap, window, bx, bz, budget);
            let ghost cv = contour_view(contour);
            proof {
                lemma_trace_traceable(m, w, (bx as int, bz as int), fuel);
            }
            let ghost vis2 = vis.union(cv.to_set());
            let mut j: usize = 0;
            while j < contour.len()
                invariant
                    j <= contour@.len(),
                    cv == contour_view(contour),
                    forall|k: int| 0 <= k < cv.len() ==> traceable(m, w, #[trigger] cv[k]),
                    m == *heightmap,
                    w == *window,
                    end_x == clip_end(w.end_x as int, raster_width(m)),
                    end_z == clip_end(w.end_z as int, raster_height(m)),
                    visited_ok(visited@, vis.union(cv.subrange(0, j as int).to_set()), w, end_x as int, end_z as int),
                decreases contour@.len() - j,
            {
                let (px, pz) = contour[j];
                assert(cv[j as int] == (px as int, pz as int));
                assert(traceable(m, w, cv[j as int]));
                let ghost old_set = vis.union(cv.subrange(0, j as int).to_set());
                let ghost new_set = vis.union(cv.subrange(0, j + 1).to_set());
                assert(new_set =~= old_set.insert((px as int, pz as int))) by {
                    assert forall|q: Point| new_set.contains(q) <==> old_set.insert((px as int, pz as int)).contains(q) by {
                        if cv.subrange(0, j + 1).contains(q) {
                            let k = choose|k: int| 0 <= k < j + 1 && #[trigger] cv.subrange(0, j + 1)[k] == q;
                            if k < j {
                                assert(cv.subrange(0, j as int)[k] == q);
                            }
                        }
                        if cv.subrange(0, j as int).contains(q) {
                            let k = choose|k: int| 0 <= k < j && #[trigger] cv.subrange(0, j as int)[k] == q;
                            assert(cv.subrange(0, j + 1)[k] == q);
                        }
                        if q == (px as int, pz as int) {
                            assert(cv.subrange(0, j + 1)[j as int] == q);
                        }
                    }
                }
                mark_visited(&mut visited, (pz - window.start_z) as usize, (px - window.start_x) as usize);
                j = j + 1;
            }
            assert(cv.subrange(0, cv.len() as int) == cv);
            assert(cf == {
                let rest = contours_from(m, w, bs, i + 1, vis2, fuel);
                if closed && cv.len() >= 3 { seq![cv] + rest } else { rest }
            });
            if closed && contour.len() >= 3 {
                let ghost before = result@;
                result.push(contour);
                assert(contours_view(result@) =~= contours_view(before) + seq![cv]);
                assert(contours_view(result@) + contours_from(m, w, bs, i + 1, vis2, fuel) =~= contours_view(before) + cf);
            }
            proof {
                vis = vis2;
            }
        }
        i = i + 1;
    }
    assert(contours_from(m, w, bs, i as int, vis, fuel) =~= Seq::<Seq<Point>>::empty());
    assert(contours_view(result@) =~= window_contours(m, w));
    result
}

pub(crate) proof fn lemma_window_border_in(m: Heightmap, w: TraceWindow, i: int)
    requires
        0 <= i < window_border(m, w).len(),
    ensures
        traceable(m, w, window_border(m, w)[i]),
        window_border(m, w)[i].0 < clip_end(w.end_x as int, raster_width(m)),
        window_border(m, w)[i].1 < clip_end(w.end_z as int, raster_height(m)),
{
    let f = border_point_fn(m, w);
    assert forall|x: int, z: int| all_traceable(m, w, #[trigger] f(x, z)) by {}
    lemma_grid_traceable(m, w, f, w.start_x as int, clip_end(w.end_x as int, raster_width(m)), w.start_z as int, clip_end(w.end_z as int, raster_height(m)));
    let p = window_border(m, w)[i];
    assert(traceable(m, w, p));
    assert(solid(m, p.0, p.1));
}

pub open spec fn all_traceable(m: Heightmap, w: TraceWindow, s: Seq<Point>) -> bool {
    forall|k: int| 0 <= k < s.len() ==> traceable(m, w, #[trigger] s[k])
}

proof fn lemma_row_traceable(m: Heightmap, w: TraceWindow, f: spec_fn(int, int) -> Seq<Point>, x0: int, x1: int, z: int)
    requires
        forall|x: int, zz: int| all_traceable(m, w, #[trigger] f(x, zz)),
    ensures
        forall|k: int| 0 <= k < row_items(f, x0, x1, z).len() ==> traceable(m, w, #[trigger] row_items(f, x0, x1, z)[k]),
    decreases x1 - x0,
{
    if x1 > x0 {
        lemma_row_traceable(m, w, f, x0, x1 - 1, z);
        let a = row_items(f, x0, x1 - 1, z);
        let b = f(x1 - 1, z);
        assert forall|k: int| 0 <= k < row_items(f, x0, x1, z).len() implies traceable(m, w, #[trigger] row_items(f, x0, x1, z)[k]) by {
            if k >= a.len() {
                assert(all_traceable(m, w, b));
                assert(row_items(f, x0, x1, z)[k] == b[k - a.len()]);
            } else {
                assert(row_items(f, x0, x1, z)[k] == a[k]);
            }
        }
    }
}

proof fn lemma_grid_traceable(m: Heightmap, w: TraceWindow, f: spec_fn(int, int) -> Seq<Point>, x0: int, x1: int, z0: int, z1: int)
    requires
        forall|x: int, zz: int| all_traceable(m, w, #[trigger] f(x, zz)),
    ensures
        forall|k: int| 0 <= k < grid_items(f, x0, x1, z0, z1).len() ==> traceable(m, w, #[trigger] grid_items(f, x0, x1, z0, z1)[k]),
    decreases z1 - z0,
{
    if z1 > z0 {
        lemma_grid_traceable(m, w, f, x0, x1, z0, z1 - 1);
        lemma_row_traceable(m, w, f, x0, x1, z1 - 1);
        let a = grid_items(f, x0, x1, z0, z1 - 1);
        let b = row_items(f, x0, x1, z1 - 1);
        assert forall|k: int| 0 <= k < grid_items(f, x0, x1, z0, z1).len() implies traceable(m, w, #[trigger] grid_items(f, x0, x1, z0, z1)[k]) by {
            if k >= a.len() {
                assert(grid_items(f, x0, x1, z0, z1)[k] == b[k - a.len()]);
            } else {
                assert(grid_items(f, x0, x1, z0, z1)[k] == a[k]);
            }
        }
    }
}



pub open spec fn void_point(m: Heightmap, x: int, z: int) -> Seq<Point> {
    if void_in_raster(m, x, z) {
        seq![(x, z)]
    } else {
        Seq::empty()
    }
}

/// The void pixels of the raster beside `(x, z)`: above, right, below, left.
pub open spec fn void_neighbours_of(m: Heightmap, x: int, z: int) -> Seq<Point> {
    void_point(m, x, z - 1) + void_point(m, x + 1, z) + void_point(m, x, z + 1) + void_point(m, x - 1, z)
}

fn push_if_void(out: &mut Vec<(u32, u32)>, x: u32, z: u32, heightmap: &Heightmap)
    ensures
        final(out)@.map_values(|p: (u32, u32)| point_view(p)) == old(out)@.map_values(|p: (u32, u32)| point_view(p)) + void_point(
            *heightmap,
            x as int,
            z as int,
        ),
{
    if x < heightmap.width() && z < heightmap.height() && heightmap.luma(x, z) == crate::raster::VOID_HEIGHT {
        out.push((x, z));
    }
    assert(out@.map_values(|p: (u32, u32)| point_view(p)) =~= old(out)@.map_values(|p: (u32, u32)| point_view(p)) + void_point(
        *heightmap,
        x as int,
        z as int,
    ));
}

/// The void pixels of the raster beside contour pixel `(x, z)` (4-connected),
/// in the order above, right, below, left.
pub fn void_neighbours(x: u32, z: u32, heightmap: &Heightmap) -> (r: Vec<(u32, u32)>)
    ensures
        r@.map_values(|p: (u32, u32)| point_view(p)) == void_neighbours_of(*heightmap, x as int, z as int),
{
    let ghost m = *heightmap;
    let ghost e = Seq::<Point>::empty();
    let mut out: Vec<(u32, u32)> = Vec::new();
    assert(out@.map_values(|p: (u32, u32)| point_view(p)) =~= e);
    if z > 0 {
        push_if_void(&mut out, x, z - 1, heightmap);
    }
    let ghost s1 = out@.map_values(|p: (u32, u32)| point_view(p));
    if x < u32::MAX {
        push_if_void(&mut out, x + 1, z, heightmap);
    } else {
        assert(s1 + void_point(m, x + 1, z as int) =~= s1);
    }
    let ghost s2 = out@.map_values(|p: (u32, u32)| point_view(p));
    if z < u32::MAX {
        push_if_void(&mut out, x, z + 1, heightmap);
    } else {
        assert(s2 + void_point(m, x as int, z + 1) =~= s2);
    }
    let ghost s3 = out@.map_values(|p: (u32, u32)| point_view(p));
    if x > 0 {
        push_if_void(&mut out, x - 1, z, heightmap);
    } else {
        assert(s3 + void_point(m, x - 1, z as int) =~= s3);
    }
    assert(out@.map_values(|p: (u32, u32)| point_view(p)) =~= void_neighbours_of(m, x as int, z as int));
    out
}

} // verus!
