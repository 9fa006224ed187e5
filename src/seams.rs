//! Normals at a lattice point depend only on the cells around it, so chunks
//! that share the point compute the same normal there.

use vstd::prelude::*;
use crate::raster::{Heightmap, solid};
use crate::bounds::{ChunkBounds, chunk_bounds_of};
use crate::grid::{grid_items, row_items};
use crate::triangles::{cell_corners, expanded_cell_fn, expanded_triangles};
use crate::normals::{finish_normal, vadd, zero_normal};
use crate::mesh::{
    point_contribution, point_normal_sum, vertex_normal, lemma_expanded_cells_local, lemma_grid_local, lemma_row_local,
};

verus! {

/// Sum of the contributions at `p` of the triangles of `s`, taken from the
/// end in threes.
pub open spec fn tri_sum(m: Heightmap, s: Seq<(int, int)>, p: (int, int)) -> (int, int, int)
    decreases s.len(),
{
    if s.len() < 3 {
        zero_normal()
    } else {
        vadd(
            tri_sum(m, s.subrange(0, s.len() - 3), p),
            point_contribution(m, s[s.len() - 3], s[s.len() - 2], s[s.len() - 1], p),
        )
    }
}

/// The two triangles of cell `(x, z)` when all its corners exist, or none
/// where its sample is void.
pub open spec fn full_cell(m: Heightmap, x: int, z: int) -> Seq<(int, int)> {
    if solid(m, x, z) {
        seq![(x, z), (x, z + 1), (x + 1, z), (x + 1, z), (x, z + 1), (x + 1, z + 1)]
    } else {
        Seq::empty()
    }
}

/// The accumulated normal at lattice point `p` from the four cells around it,
/// whatever the window.
pub open spec fn local_normal_sum(m: Heightmap, p: (int, int)) -> (int, int, int) {
    vadd(
        vadd(tri_sum(m, full_cell(m, p.0 - 1, p.1 - 1), p), tri_sum(m, full_cell(m, p.0, p.1 - 1), p)),
        vadd(tri_sum(m, full_cell(m, p.0 - 1, p.1), p), tri_sum(m, full_cell(m, p.0, p.1), p)),
    )
}

pub open spec fn in_cells(b: ChunkBounds, x: int, z: int) -> bool {
    b.expanded_start_x <= x < b.expanded_end_x && b.expanded_start_z <= z < b.expanded_end_z
}

/// Each terrain cell around `p` is a cell of the expanded window.
pub open spec fn cells_around_in_window(m: Heightmap, b: ChunkBounds, p: (int, int)) -> bool {
    &&& (solid(m, p.0 - 1, p.1 - 1) ==> in_cells(b, p.0 - 1, p.1 - 1))
    &&& (solid(m, p.0, p.1 - 1) ==> in_cells(b, p.0, p.1 - 1))
    &&& (solid(m, p.0 - 1, p.1) ==> in_cells(b, p.0 - 1, p.1))
    &&& (solid(m, p.0, p.1) ==> in_cells(b, p.0, p.1))
}

pub open spec fn pick(c: bool, v: (int, int, int)) -> (int, int, int) {
    if c {
        v
    } else {
        zero_normal()
    }
}

proof fn lemma_sum_prefix(m: Heightmap, s: Seq<(int, int)>, k: int, p: (int, int))
    requires
        0 <= k,
        3 * k <= s.len(),
    ensures
        point_normal_sum(m, s, k, p) == tri_sum(m, s.subrange(0, 3 * k), p),
    decreases k,
{
    if k > 0 {
        lemma_sum_prefix(m, s, k - 1, p);
        let t = s.subrange(0, 3 * k);
        assert(t.subrange(0, t.len() - 3) =~= s.subrange(0, 3 * (k - 1)));
    } else {
        assert(s.subrange(0, 0).len() == 0);
    }
}

proof fn lemma_sum_concat(m: Heightmap, a: Seq<(int, int)>, b: Seq<(int, int)>, p: (int, int))
    requires
        a.len() % 3 == 0,
        b.len() % 3 == 0,
    ensures
        tri_sum(m, a + b, p) == vadd(tri_sum(m, a, p), tri_sum(m, b, p)),
    decreases b.len(),
{
    if b.len() == 0 {
        assert(a + b =~= a);
    } else {
        let b2 = b.subrange(0, b.len() - 3);
        lemma_sum_concat(m, a, b2, p);
        let s = a + b;
        assert(s.subrange(0, s.len() - 3) =~= a + b2);
        assert(s[s.len() - 3] == b[b.len() - 3]);
        assert(s[s.len() - 2] == b[b.len() - 2]);
        assert(s[s.len() - 1] == b[b.len() - 1]);
    }
}

proof fn lemma_sum_misses(m: Heightmap, s: Seq<(int, int)>, p: (int, int))
    requires
        forall|i: int| 0 <= i < s.len() ==> #[trigger] s[i] != p,
    ensures
        tri_sum(m, s, p) == zero_normal(),
    decreases s.len(),
{
    if s.len() >= 3 {
        let s2 = s.subrange(0, s.len() - 3);
        assert forall|i: int| 0 <= i < s2.len() implies #[trigger] s2[i] != p by {
            assert(s2[i] == s[i]);
        }
        lemma_sum_misses(m, s2, p);
    }
}

/// A cell not touching `p` adds nothing to its normal.
proof fn lemma_far_cell(m: Heightmap, b: ChunkBounds, x: int, z: int, p: (int, int))
    requires
        !((x == p.0 - 1 || x == p.0) && (z == p.1 - 1 || z == p.1)),
    ensures
        tri_sum(m, cell_corners(m, b, x, z), p) == zero_normal(),
{
    let s = cell_corners(m, b, x, z);
    assert forall|i: int| 0 <= i < s.len() implies #[trigger] s[i] != p by {}
    lemma_sum_misses(m, s, p);
}

proof fn lemma_row_sum(m: Heightmap, b: ChunkBounds, x0: int, x1: int, z: int, p: (int, int))
    ensures
        tri_sum(m, row_items(expanded_cell_fn(m, b), x0, x1, z), p) == vadd(
            pick(x0 <= p.0 - 1 < x1, tri_sum(m, cell_corners(m, b, p.0 - 1, z), p)),
            pick(x0 <= p.0 < x1, tri_sum(m, cell_corners(m, b, p.0, z), p)),
        ),
    decreases x1 - x0,
{
    let f = expanded_cell_fn(m, b);
    if x1 > x0 {
        lemma_row_sum(m, b, x0, x1 - 1, z, p);
        let a = row_items(f, x0, x1 - 1, z);
        lemma_expanded_cells_local(m, b);
        lemma_row_local(f, x0, x1 - 1, z);
        lemma_sum_concat(m, a, f(x1 - 1, z), p);
        if x1 - 1 != p.0 - 1 && x1 - 1 != p.0 {
            lemma_far_cell(m, b, x1 - 1, z, p);
        }
    }
}

proof fn lemma_grid_sum(m: Heightmap, b: ChunkBounds, x0: int, x1: int, z0: int, z1: int, p: (int, int))
    ensures
        tri_sum(m, grid_items(expanded_cell_fn(m, b), x0, x1, z0, z1), p) == vadd(
            pick(z0 <= p.1 - 1 < z1, tri_sum(m, row_items(expanded_cell_fn(m, b), x0, x1, p.1 - 1), p)),
            pick(z0 <= p.1 < z1, tri_sum(m, row_items(expanded_cell_fn(m, b), x0, x1, p.1), p)),
        ),
    decreases z1 - z0,
{
    let f = expanded_cell_fn(m, b);
    if z1 > z0 {
        lemma_grid_sum(m, b, x0, x1, z0, z1 - 1, p);
        let a = grid_items(f, x0, x1, z0, z1 - 1);
        let r = row_items(f, x0, x1, z1 - 1);
        lemma_expanded_cells_local(m, b);
        lemma_grid_local(f, x0, x1, z0, z1 - 1);
        lemma_row_local(f, x0, x1, z1 - 1);
        lemma_sum_concat(m, a, r, p);
        if z1 - 1 != p.1 - 1 && z1 - 1 != p.1 {
            lemma_row_sum(m, b, x0, x1, z1 - 1, p);
            lemma_far_cell(m, b, p.0 - 1, z1 - 1, p);
            lemma_far_cell(m, b, p.0, z1 - 1, p);
        }
    }
}

/// A cell of the window that holds terrain has all four corners.
proof fn lemma_cell_in_window(m: Heightmap, b: ChunkBounds, x: int, z: int, p: (int, int))
    ensures
        pick(in_cells(b, x, z), tri_sum(m, cell_corners(m, b, x, z), p)) == pick(
            in_cells(b, x, z),
            tri_sum(m, full_cell(m, x, z), p),
        ),
        !solid(m, x, z) ==> tri_sum(m, full_cell(m, x, z), p) == zero_normal(),
{
    if in_cells(b, x, z) && solid(m, x, z) {
        assert(cell_corners(m, b, x, z) =~= full_cell(m, x, z));
    }
}

/// Where the window holds every terrain cell around `p`, the normal the chunk
/// computes at `p` is the one the four cells around `p` give.
pub proof fn lemma_normal_is_local(m: Heightmap, b: ChunkBounds, p: (int, int))
    requires
        cells_around_in_window(m, b, p),
    ensures
        vertex_normal(m, b, p) == finish_normal(local_normal_sum(m, p)),
{
    let tris = expanded_triangles(m, b);
    let f = expanded_cell_fn(m, b);
    let (x0, x1, z0, z1) = (b.expanded_start_x as int, b.expanded_end_x as int, b.expanded_start_z as int, b.expanded_end_z as int);
    lemma_expanded_cells_local(m, b);
    lemma_grid_local(f, x0, x1, z0, z1);
    lemma_sum_prefix(m, tris, (tris.len() / 3) as int, p);
    assert(tris.subrange(0, 3 * (tris.len() / 3) as int) =~= tris);
    lemma_grid_sum(m, b, x0, x1, z0, z1, p);
    lemma_row_sum(m, b, x0, x1, p.1 - 1, p);
    lemma_row_sum(m, b, x0, x1, p.1, p);
    lemma_cell_in_window(m, b, p.0 - 1, p.1 - 1, p);
    lemma_cell_in_window(m, b, p.0, p.1 - 1, p);
    lemma_cell_in_window(m, b, p.0 - 1, p.1, p);
    lemma_cell_in_window(m, b, p.0, p.1, p);
}

/// Two chunks side by side compute the same normal at every lattice point of
/// their shared vertical edge: the chunk at `(start_x, start_z)` and the one
/// `size` to its right.
pub proof fn lemma_seam_normals_agree_horizontal(m: Heightmap, start_x: u32, start_z: u32, size: u32, z: int)
    requires
        start_x + size <= u32::MAX,
        start_z <= z <= start_z + size,
    ensures
        vertex_normal(m, chunk_bounds_of(m, start_x, start_z, size), (start_x + size, z)) == vertex_normal(
            m,
            chunk_bounds_of(m, (start_x + size) as u32, start_z, size),
            (start_x + size, z),
        ),
{
    let p = (start_x + size, z);
    lemma_normal_is_local(m, chunk_bounds_of(m, start_x, start_z, size), p);
    lemma_normal_is_local(m, chunk_bounds_of(m, (start_x + size) as u32, start_z, size), p);
}

/// Two chunks one above the other compute the same normal at every lattice
/// point of their shared horizontal edge: the chunk at `(start_x, start_z)`
/// and the one `size` below it.
pub proof fn lemma_seam_normals_agree_vertical(m: Heightmap, start_x: u32, start_z: u32, size: u32, x: int)
    requires
        start_z + size <= u32::MAX,
        start_x <= x <= start_x + size,
    ensures
        vertex_normal(m, chunk_bounds_of(m, start_x, start_z, size), (x, start_z + size)) == vertex_normal(
            m,
            chunk_bounds_of(m, start_x, (start_z + size) as u32, size),
            (x, start_z + size),
        ),
{
    let p = (x, start_z + size);
    lemma_normal_is_local(m, chunk_bounds_of(m, start_x, start_z, size), p);
    lemma_normal_is_local(m, chunk_bounds_of(m, start_x, (start_z + size) as u32, size), p);
}

} // verus!
