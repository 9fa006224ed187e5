//! The chunk assembler: bounds, emptiness check, vertices, triangles and
//! normals, packaged as the chunk's mesh description.

use vstd::prelude::*;
use crate::raster::{Heightmap, solid};
use crate::bounds::{
    ChunkBounds, CHUNK_SIZE, MAX_CHUNK_SIZE, bounds_for, chunk_bounds_of, degenerate, window_void,
    calculate_chunk_bounds, is_chunk_empty,
};
use crate::grid::{grid_items, row_items};
use crate::vertices::{
    TerrainVertex, chunk_vertices, corner_count, corner_sum, create_vertices, vertices_ordered,
    vertex_matches, lattice_before,
};
use crate::triangles::{
    cell_corners, chunk_triangles, create_triangles, expanded_cell_fn, expanded_triangles, index_points,
    indices_valid, vertex_point,
};
use crate::normals::{
    Normal, HORIZONTAL_UNIT, calculate_normals, finish_normal, index_normal_sum, index_contribution,
    local_triples, normal_view, scaled_height, scaled_position, triangle_local, vadd, zero_normal,
};

verus! {

/// Position of lattice point `p` in scaled units (see the normals module).
pub open spec fn lattice_position(m: Heightmap, p: (int, int)) -> (int, int, int) {
    (
        HORIZONTAL_UNIT * p.0,
        scaled_height(corner_sum(m, p.0, p.1), corner_count(m, p.0, p.1)),
        HORIZONTAL_UNIT * p.1,
    )
}

/// What the triangle of lattice points `a, b, c` adds to the normal at `p`:
/// its face normal, once for each corner at `p`.
pub open spec fn point_contribution(m: Heightmap, a: (int, int), b: (int, int), c: (int, int), p: (int, int)) -> (int, int, int) {
    let n = crate::normals::face_normal(lattice_position(m, a), lattice_position(m, b), lattice_position(m, c));
    vadd(
        vadd(if a == p { n } else { zero_normal() }, if b == p { n } else { zero_normal() }),
        if c == p { n } else { zero_normal() },
    )
}

/// Sum over the first `k` triangles of `pts` of their contributions at `p`.
pub open spec fn point_normal_sum(m: Heightmap, pts: Seq<(int, int)>, k: int, p: (int, int)) -> (int, int, int)
    decreases k,
{
    if k <= 0 {
        zero_normal()
    } else {
        vadd(
            point_normal_sum(m, pts, k - 1, p),
            point_contribution(m, pts[3 * k - 3], pts[3 * k - 2], pts[3 * k - 1], p),
        )
    }
}

/// The normal at lattice point `p` in the chunk's build: the sum of the face
/// normals of every triangle of the expanded window at `p`, or up where none is.
pub open spec fn vertex_normal(m: Heightmap, b: ChunkBounds, p: (int, int)) -> (int, int, int) {
    let tris = expanded_triangles(m, b);
    finish_normal(point_normal_sum(m, tris, (tris.len() / 3) as int, p))
}

/// The mesh of one chunk, in lattice coordinates. A vertex's chunk-local
/// position is `(x - start_x, height, z - start_z)`, its height
/// `sample_sum / sample_count` times the height scale, and its texture
/// coordinate `((x - expanded_start_x) / expanded_width, (z - expanded_start_z) / expanded_depth)`.
/// Normals are exact directions, not unit length. Each index triple is a
/// triangle that faces up.
pub struct ChunkMesh {
    pub bounds: ChunkBounds,
    pub vertices: Vec<TerrainVertex>,
    pub normals: Vec<Normal>,
    pub indices: Vec<u32>,
}

/// `mesh` is the mesh of the chunk with bounds `b` on raster `m`.
pub open spec fn mesh_matches(m: Heightmap, b: ChunkBounds, mesh: ChunkMesh) -> bool {
    let verts = mesh.vertices@;
    &&& mesh.bounds == b
    &&& verts == chunk_vertices(m, b)
    &&& index_points(verts, mesh.indices@) == chunk_triangles(m, b)
    &&& indices_valid(verts, mesh.indices@)
    &&& mesh.indices@.len() % 3 == 0
    &&& mesh.normals@.len() == verts.len()
    &&& forall|v: int|
        0 <= v < verts.len() ==> normal_view(#[trigger] mesh.normals@[v]) == vertex_normal(m, b, vertex_point(verts[v]))
}

/// The chunk yields no mesh: its window is empty or off the raster, or all
/// its samples are void. (Otherwise it always has a triangle.)
pub open spec fn no_mesh(m: Heightmap, start_x: u32, start_z: u32, size: u32) -> bool {
    let b = chunk_bounds_of(m, start_x, start_z, size);
    degenerate(b) || window_void(m, start_x as int, start_z as int, size as int)
}

proof fn lemma_row_holds(f: spec_fn(int, int) -> Seq<(int, int)>, x0: int, x1: int, z: int, x: int)
    requires
        x0 <= x < x1,
    ensures
        row_items(f, x0, x1, z).len() >= f(x, z).len(),
    decreases x1 - x0,
{
    if x1 - 1 > x {
        lemma_row_holds(f, x0, x1 - 1, z, x);
    }
}

proof fn lemma_grid_holds(f: spec_fn(int, int) -> Seq<(int, int)>, x0: int, x1: int, z0: int, z1: int, x: int, z: int)
    requires
        x0 <= x < x1,
        z0 <= z < z1,
    ensures
        grid_items(f, x0, x1, z0, z1).len() >= f(x, z).len(),
    decreases z1 - z0,
{
    if z1 - 1 > z {
        lemma_grid_holds(f, x0, x1, z0, z1 - 1, x, z);
    } else {
        lemma_row_holds(f, x0, x1, z, x);
    }
}

/// A chunk with a terrain sample in its own window draws at least the two
/// triangles of that sample's cell.
proof fn lemma_terrain_has_triangles(m: Heightmap, start_x: u32, start_z: u32, size: u32)
    requires
        !no_mesh(m, start_x, start_z, size),
    ensures
        chunk_triangles(m, chunk_bounds_of(m, start_x, start_z, size)).len() > 0,
{
    let b = chunk_bounds_of(m, start_x, start_z, size);
    let (x, z) = choose|x: int, z: int|
        start_x <= x < start_x + size && start_z <= z < start_z + size && #[trigger] solid(m, x, z);
    let f = crate::triangles::chunk_cell_fn(m, b);
    assert(f(x, z).len() == 6);
    lemma_grid_holds(f, b.expanded_start_x as int, b.expanded_end_x as int, b.expanded_start_z as int, b.expanded_end_z as int, x, z);
}

proof fn lemma_concat_local(a: Seq<(int, int)>, b: Seq<(int, int)>)
    requires
        local_triples(a),
        local_triples(b),
    ensures
        local_triples(a + b),
{
    let s = a + b;
    let ka = a.len() / 3;
    assert forall|t: int| 0 <= t < s.len() / 3 implies #[trigger] triangle_local(s, t) by {
        if t < ka {
            assert(triangle_local(a, t));
            assert(s[3 * t] == a[3 * t] && s[3 * t + 1] == a[3 * t + 1] && s[3 * t + 2] == a[3 * t + 2]);
        } else {
            assert(triangle_local(b, t - ka));
            assert(s[3 * t] == b[3 * (t - ka)]);
            assert(s[3 * t + 1] == b[3 * (t - ka) + 1]);
            assert(s[3 * t + 2] == b[3 * (t - ka) + 2]);
        }
    }
}

proof fn lemma_cell_local(m: Heightmap, b: ChunkBounds, x: int, z: int)
    ensures
        local_triples(cell_corners(m, b, x, z)),
{
    let s = cell_corners(m, b, x, z);
    if s.len() == 6 {
        assert(triangle_local(s, 0));
        assert(triangle_local(s, 1));
    } else if s.len() == 3 {
        assert(triangle_local(s, 0));
    }
}

pub(crate) proof fn lemma_row_local(f: spec_fn(int, int) -> Seq<(int, int)>, x0: int, x1: int, z: int)
    requires
        forall|x: int, zz: int| local_triples(#[trigger] f(x, zz)),
    ensures
        local_triples(row_items(f, x0, x1, z)),
    decreases x1 - x0,
{
    if x1 > x0 {
        lemma_row_local(f, x0, x1 - 1, z);
        lemma_concat_local(row_items(f, x0, x1 - 1, z), f(x1 - 1, z));
    } else {
        assert(row_items(f, x0, x1, z).len() == 0);
    }
}

pub(crate) proof fn lemma_grid_local(f: spec_fn(int, int) -> Seq<(int, int)>, x0: int, x1: int, z0: int, z1: int)
    requires
        forall|x: int, zz: int| local_triples(#[trigger] f(x, zz)),
    ensures
        local_triples(grid_items(f, x0, x1, z0, z1)),
    decreases z1 - z0,
{
    if z1 > z0 {
        lemma_grid_local(f, x0, x1, z0, z1 - 1);
        lemma_row_local(f, x0, x1, z1 - 1);
        lemma_concat_local(grid_items(f, x0, x1, z0, z1 - 1), row_items(f, x0, x1, z1 - 1));
    } else {
        assert(grid_items(f, x0, x1, z0, z1).len() == 0);
    }
}

/// Every triangle of the expanded window has its corners within one cell.
proof fn lemma_expanded_local(m: Heightmap, b: ChunkBounds)
    ensures
        local_triples(expanded_triangles(m, b)),
{
    let f = expanded_cell_fn(m, b);
    assert forall|x: int, zz: int| local_triples(#[trigger] f(x, zz)) by {
        lemma_cell_local(m, b, x, zz);
    }
    lemma_grid_local(f, b.expanded_start_x as int, b.expanded_end_x as int, b.expanded_start_z as int, b.expanded_end_z as int);
}

proof fn lemma_chunk_local(m: Heightmap, b: ChunkBounds)
    ensures
        local_triples(chunk_triangles(m, b)),
{
    let f = crate::triangles::chunk_cell_fn(m, b);
    assert forall|x: int, zz: int| local_triples(#[trigger] f(x, zz)) by {
        lemma_cell_local(m, b, x, zz);
        if !crate::bounds::in_original(b, x, zz) {
            assert(f(x, zz).len() == 0);
        }
    }
    lemma_grid_local(f, b.expanded_start_x as int, b.expanded_end_x as int, b.expanded_start_z as int, b.expanded_end_z as int);
}

/// The index-based normal sum of a vertex equals the point-based one at its
/// lattice point, since no two vertices share a lattice point.
proof fn lemma_index_sums_are_point_sums(m: Heightmap, verts: Seq<TerrainVertex>, idx: Seq<u32>, k: int, v: int)
    requires
        vertices_ordered(m, verts),
        indices_valid(verts, idx),
        0 <= k <= idx.len() / 3,
        0 <= v < verts.len(),
    ensures
        index_normal_sum(verts, idx, k, v) == point_normal_sum(m, index_points(verts, idx), k, vertex_point(verts[v])),
    decreases k,
{
    if k > 0 {
        lemma_index_sums_are_point_sums(m, verts, idx, k - 1, v);
        let pts = index_points(verts, idx);
        let i0 = idx[3 * k - 3] as int;
        let i1 = idx[3 * k - 2] as int;
        let i2 = idx[3 * k - 1] as int;
        assert(i0 < verts.len() && i1 < verts.len() && i2 < verts.len());
        assert forall|i: int| 0 <= i < verts.len() implies (i == v <==> vertex_point(#[trigger] verts[i]) == vertex_point(verts[v]))
            && scaled_position(verts[i]) == lattice_position(m, vertex_point(verts[i])) by {
            if i < v {
                assert(lattice_before(verts[i], verts[v]));
            } else if v < i {
                assert(lattice_before(verts[v], verts[i]));
            }
            assert(vertex_matches(m, verts[i]));
        }
        assert(pts[3 * k - 3] == vertex_point(verts[i0]));
        assert(pts[3 * k - 2] == vertex_point(verts[i1]));
        assert(pts[3 * k - 1] == vertex_point(verts[i2]));
        assert(index_contribution(verts, i0, i1, i2, v) == point_contribution(
            m,
            pts[3 * k - 3],
            pts[3 * k - 2],
            pts[3 * k - 1],
            vertex_point(verts[v]),
        ));
    }
}

/// Builds the vertices, normals and drawn indices of a non-degenerate chunk.
pub fn generate_mesh_data(bounds: ChunkBounds, heightmap: &Heightmap) -> (r: (Vec<TerrainVertex>, Vec<Normal>, Vec<u32>))
    requires
        bounds_for(bounds, *heightmap),
        !degenerate(bounds),
        bounds.chunk_size <= MAX_CHUNK_SIZE,
    ensures
        mesh_matches(*heightmap, bounds, ChunkMesh { bounds, vertices: r.0, normals: r.1, indices: r.2 }),
{
    let ghost m = *heightmap;
    let (verts, lookup) = create_vertices(&bounds, heightmap);
    let (indices, all_indices) = create_triangles(&bounds, heightmap, &verts, &lookup);
    proof {
        lemma_expanded_local(m, bounds);
        lemma_chunk_local(m, bounds);
        assert forall|i: int| 0 <= i < verts@.len() implies crate::normals::vertex_data_ok(#[trigger] verts@[i]) by {
            assert(vertex_matches(m, verts@[i]));
        }
        assert(index_points(verts@, indices@).len() == indices@.len());
    }
    let normals = calculate_normals(&all_indices, &verts);
    proof {
        let tris = expanded_triangles(m, bounds);
        assert(index_points(verts@, all_indices@).len() == all_indices@.len());
        assert forall|v: int| 0 <= v < verts@.len() implies normal_view(#[trigger] normals@[v]) == vertex_normal(
            m,
            bounds,
            vertex_point(verts@[v]),
        ) by {
            lemma_index_sums_are_point_sums(m, verts@, all_indices@, (all_indices@.len() / 3) as int, v);
        }
    }
    (verts, normals, indices)
}

/// The mesh of the chunk of edge `chunk_size` at `(start_x, start_z)`, or
/// `None` where the chunk has no terrain to draw.
pub fn generate_chunk_mesh(start_x: u32, start_z: u32, chunk_size: u32, heightmap: &Heightmap) -> (r: Option<ChunkMesh>)
    requires
        chunk_size <= MAX_CHUNK_SIZE,
    ensures
        r is None <==> no_mesh(*heightmap, start_x, start_z, chunk_size),
        r matches Some(mesh) ==> mesh_matches(*heightmap, chunk_bounds_of(*heightmap, start_x, start_z, chunk_size), mesh),
{
    let bounds = calculate_chunk_bounds(start_x, start_z, chunk_size, heightmap);
    if bounds.expanded_end_x <= bounds.expanded_start_x || bounds.expanded_end_z <= bounds.expanded_start_z {
        return None;
    }
    if is_chunk_empty(start_x, start_z, chunk_size, heightmap) {
        return None;
    }
    let (vertices, normals, indices) = generate_mesh_data(bounds, heightmap);
    if indices.len() == 0 {
        proof {
            lemma_terrain_has_triangles(*heightmap, start_x, start_z, chunk_size);
        }
        return None;
    }
    Some(ChunkMesh { bounds, vertices, normals, indices })
}

/// The mesh of the chunk at `(start_x, start_z)` with the default edge length.
pub fn generate_terrain_mesh(start_x: u32, start_z: u32, heightmap: &Heightmap) -> (r: Option<ChunkMesh>)
    ensures
        r is None <==> no_mesh(*heightmap, start_x, start_z, CHUNK_SIZE),
        r matches Some(mesh) ==> mesh_matches(*heightmap, chunk_bounds_of(*heightmap, start_x, start_z, CHUNK_SIZE), mesh),
{
    generate_chunk_mesh(start_x, start_z, CHUNK_SIZE, heightmap)
}


/// A chunk whose window lies inside a region of void samples has no mesh.
pub proof fn lemma_void_region_has_no_mesh(
    m: Heightmap,
    region_x0: int,
    region_x1: int,
    region_z0: int,
    region_z1: int,
    start_x: u32,
    start_z: u32,
    size: u32,
)
    requires
        forall|x: int, z: int| region_x0 <= x < region_x1 && region_z0 <= z < region_z1 ==> !#[trigger] solid(m, x, z),
        region_x0 <= start_x,
        start_x + size <= region_x1,
        region_z0 <= start_z,
        start_z + size <= region_z1,
    ensures
        no_mesh(m, start_x, start_z, size),
{
    assert(window_void(m, start_x as int, start_z as int, size as int));
}

/// Two chunks side by side (the second `size` to the right of, or below, the
/// first) never both draw triangles over the same cell.
pub proof fn lemma_adjacent_chunks_share_no_cell(m: Heightmap, b1: ChunkBounds, b2: ChunkBounds, x: int, z: int)
    requires
        b1.chunk_size == b2.chunk_size,
        (b2.start_x == b1.start_x + b1.chunk_size && b2.start_z == b1.start_z) || (b2.start_z == b1.start_z
            + b1.chunk_size && b2.start_x == b1.start_x),
    ensures
        crate::triangles::chunk_cell_corners(m, b1, x, z).len() == 0 || crate::triangles::chunk_cell_corners(
            m,
            b2,
            x,
            z,
        ).len() == 0,
{
}

/// On a raster whose samples all hold the same non-void value `v`, every
/// vertex height is exactly `v` times the height scale: the samples around a
/// lattice point sum to `v` times their count, and the scaled height is
/// `12 * HEIGHT_SCALE_NUM * v` units of `1 / (12 * HEIGHT_SCALE_DEN)`.
pub proof fn lemma_uniform_raster_height(m: Heightmap, v: int, x: int, z: int)
    requires
        0 < v,
        forall|px: int, pz: int| crate::raster::in_raster(m, px, pz) ==> #[trigger] crate::raster::sample(m, px, pz) == v,
        crate::vertices::vertex_needed(m, x, z),
    ensures
        corner_sum(m, x, z) == v * corner_count(m, x, z),
        scaled_height(corner_sum(m, x, z), corner_count(m, x, z)) == crate::normals::HEIGHT_SCALE_NUM * (12 * v),
{
    let c = corner_count(m, x, z);
    assert(corner_sum(m, x, z) == v * c) by (nonlinear_arith)
        requires
            corner_sum(m, x, z) == crate::raster::sample(m, x - 1, z - 1) + crate::raster::sample(m, x, z - 1)
                + crate::raster::sample(m, x - 1, z) + crate::raster::sample(m, x, z),
            c == crate::vertices::solid_count(m, x - 1, z - 1) + crate::vertices::solid_count(m, x, z - 1)
                + crate::vertices::solid_count(m, x - 1, z) + crate::vertices::solid_count(m, x, z),
            crate::raster::sample(m, x - 1, z - 1) == v * crate::vertices::solid_count(m, x - 1, z - 1),
            crate::raster::sample(m, x, z - 1) == v * crate::vertices::solid_count(m, x, z - 1),
            crate::raster::sample(m, x - 1, z) == v * crate::vertices::solid_count(m, x - 1, z),
            crate::raster::sample(m, x, z) == v * crate::vertices::solid_count(m, x, z),
    ;
    assert(1 <= c);
    assert((12 * (v * c)) / c == 12 * v) by (nonlinear_arith)
        requires
            1 <= c,
    ;
    assert((12 * corner_sum(m, x, z)) / c == 12 * v);
    assert(crate::normals::HEIGHT_SCALE_NUM == 3);
    assert(scaled_height(corner_sum(m, x, z), c) == 3 * (12 * v));
}


/// Every cell of the expanded window yields corner triples within one cell.
pub(crate) proof fn lemma_expanded_cells_local(m: Heightmap, b: ChunkBounds)
    ensures
        forall|x: int, zz: int| local_triples(#[trigger] expanded_cell_fn(m, b)(x, zz)),
{
    assert forall|x: int, zz: int| local_triples(#[trigger] expanded_cell_fn(m, b)(x, zz)) by {
        lemma_cell_local(m, b, x, zz);
    }
}

} // verus!
