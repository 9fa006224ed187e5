//! The vertex builder: one vertex per lattice point of the expanded window
//! that touches terrain, with its height taken from the samples around it.

use vstd::prelude::*;
use crate::raster::{Heightmap, sample, solid, check_pixel};
use crate::bounds::{ChunkBounds, bounds_for, degenerate, MAX_CHUNK_SIZE};
use crate::grid::{grid_items, row_items};

verus! {

/// A mesh vertex at lattice point `(x, z)`. Its height is the mean of the
/// non-void samples around the point, `sample_sum / sample_count`, before the
/// height scale is applied.
#[derive(Clone, Copy, Debug, PartialEq, Eq, Structural)]
pub struct TerrainVertex {
    pub x: u32,
    pub z: u32,
    pub sample_sum: u32,
    pub sample_count: u32,
}

/// Some sample around lattice point `(x, z)` holds terrain. The four samples
/// around it are `(x-1, z-1)`, `(x, z-1)`, `(x-1, z)` and `(x, z)`.
pub open spec fn vertex_needed(m: Heightmap, x: int, z: int) -> bool {
    solid(m, x - 1, z - 1) || solid(m, x, z - 1) || solid(m, x - 1, z) || solid(m, x, z)
}

/// Sum of the non-void samples around `(x, z)` (void ones count zero).
pub open spec fn corner_sum(m: Heightmap, x: int, z: int) -> int {
    sample(m, x - 1, z - 1) + sample(m, x, z - 1) + sample(m, x - 1, z) + sample(m, x, z)
}

pub open spec fn solid_count(m: Heightmap, x: int, z: int) -> int {
    if solid(m, x, z) {
        1
    } else {
        0
    }
}

/// Number of non-void samples around `(x, z)`.
pub open spec fn corner_count(m: Heightmap, x: int, z: int) -> int {
    solid_count(m, x - 1, z - 1) + solid_count(m, x, z - 1) + solid_count(m, x - 1, z) + solid_count(m, x, z)
}

/// The vertex at `(x, z)`, if one is needed there.
pub open spec fn lattice_vertex(m: Heightmap, x: int, z: int) -> Seq<TerrainVertex> {
    if vertex_needed(m, x, z) {
        seq![TerrainVertex { x: x as u32, z: z as u32, sample_sum: corner_sum(m, x, z) as u32, sample_count: corner_count(m, x, z) as u32 }]
    } else {
        Seq::empty()
    }
}

pub open spec fn vertex_fn(m: Heightmap) -> spec_fn(int, int) -> Seq<TerrainVertex> {
    |x: int, z: int| lattice_vertex(m, x, z)
}

/// The vertices of a chunk: the needed lattice points of the expanded window,
/// ends included, in row-major order.
pub open spec fn chunk_vertices(m: Heightmap, b: ChunkBounds) -> Seq<TerrainVertex> {
    grid_items(
        vertex_fn(m),
        b.expanded_start_x as int,
        b.expanded_end_x + 1,
        b.expanded_start_z as int,
        b.expanded_end_z + 1,
    )
}

/// `lookup` maps each lattice point of the expanded window, by row
/// `z - expanded_start_z` and column `x - expanded_start_x`, to the index of its
/// vertex in `verts`, and holds `None` exactly where no vertex is needed.
pub open spec fn lookup_ok(m: Heightmap, b: ChunkBounds, verts: Seq<TerrainVertex>, lookup: Seq<Vec<Option<u32>>>) -> bool {
    let rows = b.expanded_end_z - b.expanded_start_z + 1;
    let cols = b.expanded_end_x - b.expanded_start_x + 1;
    &&& lookup.len() == rows
    &&& forall|r: int| 0 <= r < rows ==> (#[trigger] lookup[r])@.len() == cols
    &&& forall|r: int, c: int|
        0 <= r < rows && 0 <= c < cols ==> entry_ok(m, verts, #[trigger] lookup[r]@[c], b.expanded_start_x + c, b.expanded_start_z + r)
}

pub open spec fn entry_ok(m: Heightmap, verts: Seq<TerrainVertex>, e: Option<u32>, x: int, z: int) -> bool {
    &&& (e is Some <==> vertex_needed(m, x, z))
    &&& (e matches Some(i) ==> i < verts.len() && verts[i as int].x == x && verts[i as int].z == z)
}

/// `v` carries the samples around its lattice point.
pub open spec fn vertex_matches(m: Heightmap, v: TerrainVertex) -> bool {
    &&& v.sample_sum == corner_sum(m, v.x as int, v.z as int)
    &&& v.sample_count == corner_count(m, v.x as int, v.z as int)
    &&& 1 <= v.sample_count <= 4
    &&& v.sample_sum <= 255 * v.sample_count
}

/// `v` comes before `w` in row-major order.
pub open spec fn lattice_before(v: TerrainVertex, w: TerrainVertex) -> bool {
    v.z < w.z || (v.z == w.z && v.x < w.x)
}

/// Every vertex carries its samples, and the vertices are in strictly
/// increasing row-major order (so no lattice point has two).
pub open spec fn vertices_ordered(m: Heightmap, verts: Seq<TerrainVertex>) -> bool {
    &&& forall|i: int| 0 <= i < verts.len() ==> vertex_matches(m, #[trigger] verts[i])
    &&& forall|i: int, j: int| 0 <= i < j < verts.len() ==> lattice_before(#[trigger] verts[i], #[trigger] verts[j])
}

/// Whether a vertex is needed at lattice point `(x, z)`.
pub fn is_vertex_needed(x: u32, z: u32, heightmap: &Heightmap) -> (r: bool)
    ensures
        r == vertex_needed(*heightmap, x as int, z as int),
{
    (x > 0 && z > 0 && check_pixel(x - 1, z - 1, heightmap))
        || (z > 0 && check_pixel(x, z - 1, heightmap))
        || (x > 0 && check_pixel(x - 1, z, heightmap))
        || check_pixel(x, z, heightmap)
}

/// Sum and count of the non-void samples around lattice point `(x, z)`.
pub fn calculate_vertex_height(x: u32, z: u32, heightmap: &Heightmap) -> (r: (u32, u32))
    ensures
        r.0 == corner_sum(*heightmap, x as int, z as int),
        r.1 == corner_count(*heightmap, x as int, z as int),
        r.1 <= 4,
        r.0 <= 255 * r.1,
        vertex_needed(*heightmap, x as int, z as int) ==> r.1 >= 1,
{
    let mut sum: u32 = 0;
    let mut count: u32 = 0;
    if x > 0 && z > 0 && check_pixel(x - 1, z - 1, heightmap) {
        sum = sum + heightmap.luma(x - 1, z - 1) as u32;
        count = count + 1;
    }
    if z > 0 && check_pixel(x, z - 1, heightmap) {
        sum = sum + heightmap.luma(x, z - 1) as u32;
        count = count + 1;
    }
    if x > 0 && check_pixel(x - 1, z, heightmap) {
        sum = sum + heightmap.luma(x - 1, z) as u32;
        count = count + 1;
    }
    if check_pixel(x, z, heightmap) {
        sum = sum + heightmap.luma(x, z) as u32;
        count = count + 1;
    }
    (sum, count)
}


proof fn lemma_index_fits(a: int, b: int, rows: int, cols: int)
    requires
        0 <= a < rows,
        0 <= b < cols,
        rows <= MAX_CHUNK_SIZE + 3,
        cols <= MAX_CHUNK_SIZE + 3,
    ensures
        a * cols + b < rows * cols,
        rows * cols < 0x1_0000_0000,
{
    assert(a * cols + b < rows * cols) by (nonlinear_arith)
        requires
            0 <= a < rows,
            0 <= b < cols,
    ;
    assert(rows * cols <= (MAX_CHUNK_SIZE + 3) * (MAX_CHUNK_SIZE + 3)) by (nonlinear_arith)
        requires
            0 <= rows <= MAX_CHUNK_SIZE + 3,
            0 <= cols <= MAX_CHUNK_SIZE + 3,
    ;
    assert(MAX_CHUNK_SIZE + 3 == 65003);
    assert(65003int * 65003int == 4225390009int) by (nonlinear_arith);
}

/// Builds the chunk's vertices over the expanded window and the lookup from
/// lattice point to vertex index.
pub fn create_vertices(bounds: &ChunkBounds, heightmap: &Heightmap) -> (r: (
    Vec<TerrainVertex>,
    Vec<Vec<Option<u32>>>,
))
    requires
        bounds_for(*bounds, *heightmap),
        !degenerate(*bounds),
        bounds.chunk_size <= MAX_CHUNK_SIZE,
    ensures
        r.0@ == chunk_vertices(*heightmap, *bounds),
        lookup_ok(*heightmap, *bounds, r.0@, r.1@),
        vertices_ordered(*heightmap, r.0@),
        r.0@.len() < 0x1_0000_0000,
{
    let esx = bounds.expanded_start_x as u64;
    let eex = bounds.expanded_end_x as u64;
    let esz = bounds.expanded_start_z as u64;
    let eez = bounds.expanded_end_z as u64;
    let cols: u64 = eex - esx + 1;
    let rows: u64 = eez - esz + 1;
    let ghost m = *heightmap;
    let ghost f = vertex_fn(m);
    assert(cols <= MAX_CHUNK_SIZE + 3 && rows <= MAX_CHUNK_SIZE + 3);
    let mut verts: Vec<TerrainVertex> = Vec::new();
    let mut lookup: Vec<Vec<Option<u32>>> = Vec::new();
    let mut z: u64 = esz;
    while z <= eez
        invariant
            esz <= z <= eez + 1,
            esx < eex <= u32::MAX,
            eez <= u32::MAX,
            cols == eex - esx + 1,
            rows == eez - esz + 1,
            cols <= MAX_CHUNK_SIZE + 3,
            rows <= MAX_CHUNK_SIZE + 3,
            esx == bounds.expanded_start_x,
            eex == bounds.expanded_end_x,
            esz == bounds.expanded_start_z,
            eez == bounds.expanded_end_z,
            f == vertex_fn(m),
            m == *heightmap,
            verts@ == grid_items(f, esx as int, eex + 1, esz as int, z as int),
            lookup@.len() == z - esz,
            forall|r: int| 0 <= r < lookup@.len() ==> (#[trigger] lookup@[r])@.len() == cols,
            forall|r: int, c: int|
                0 <= r < lookup@.len() && 0 <= c < cols ==> entry_ok(m, verts@, #[trigger] lookup@[r]@[c], esx + c, esz + r),
            verts@.len() <= (z - esz) * cols,
            vertices_ordered(m, verts@),
            forall|i: int| 0 <= i < verts@.len() ==> (#[trigger] verts@[i]).z < z,
        decreases eez + 1 - z,
    {
        let mut row: Vec<Option<u32>> = Vec::new();
        let mut x: u64 = esx;
        while x <= eex
            invariant
                esx <= x <= eex + 1,
                esz <= z <= eez,
                esx < eex <= u32::MAX,
                eez <= u32::MAX,
                cols == eex - esx + 1,
                rows == eez - esz + 1,
                cols <= MAX_CHUNK_SIZE + 3,
                rows <= MAX_CHUNK_SIZE + 3,
                f == vertex_fn(m),
                m == *heightmap,
                verts@ == grid_items(f, esx as int, eex + 1, esz as int, z as int) + row_items(f, esx as int, x as int, z as int),
                lookup@.len() == z - esz,
                forall|r: int| 0 <= r < lookup@.len() ==> (#[trigger] lookup@[r])@.len() == cols,
                forall|r: int, c: int|
                    0 <= r < lookup@.len() && 0 <= c < cols ==> entry_ok(m, verts@, #[trigger] lookup@[r]@[c], esx + c, esz + r),
                row@.len() == x - esx,
                forall|c: int| 0 <= c < row@.len() ==> entry_ok(m, verts@, #[trigger] row@[c], esx + c, z as int),
                verts@.len() <= (z - esz) * cols + (x - esx),
                vertices_ordered(m, verts@),
                forall|i: int| 0 <= i < verts@.len() ==> (#[trigger] verts@[i]).z < z || (verts@[i].z == z && verts@[i].x < x),
            decreases eex + 1 - x,
        {
            let ghost old_verts = verts@;
            proof {
                lemma_index_fits(z - esz, x - esx, rows as int, cols as int);
            }
            if is_vertex_needed(x as u32, z as u32, heightmap) {
                let (sum, count) = calculate_vertex_height(x as u32, z as u32, heightmap);
                let idx = verts.len() as u32;
                verts.push(TerrainVertex { x: x as u32, z: z as u32, sample_sum: sum, sample_count: count });
                row.push(Some(idx));
            } else {
                row.push(None);
            }
            assert forall|r: int, c: int|
                0 <= r < lookup@.len() && 0 <= c < cols implies entry_ok(m, verts@, #[trigger] lookup@[r]@[c], esx + c, esz + r) by {
                assert(entry_ok(m, old_verts, lookup@[r]@[c], esx + c, esz + r));
            }
            assert forall|i: int, j: int| 0 <= i < j < verts@.len() implies lattice_before(#[trigger] verts@[i], #[trigger] verts@[j]) by {
                if j >= old_verts.len() {
                    assert(old_verts[i].z < z || (old_verts[i].z == z && old_verts[i].x < x));
                }
            }
            assert forall|i: int| 0 <= i < verts@.len() implies (#[trigger] verts@[i]).z < z || (verts@[i].z == z && verts@[i].x < x + 1) by {
                if i < old_verts.len() {
                    assert(old_verts[i].z < z || (old_verts[i].z == z && old_verts[i].x < x));
                }
            }
            assert forall|c: int| 0 <= c < row@.len() implies entry_ok(m, verts@, #[trigger] row@[c], esx + c, z as int) by {
                if c < row@.len() - 1 {
                    assert(entry_ok(m, old_verts, row@[c], esx + c, z as int));
                }
            }
            assert(row_items(f, esx as int, x + 1, z as int) == row_items(f, esx as int, x as int, z as int) + f(x as int, z as int));
            assert(verts@ =~= grid_items(f, esx as int, eex + 1, esz as int, z as int) + row_items(f, esx as int, x + 1, z as int));
            x = x + 1;
        }
        let ghost before = lookup@;
        lookup.push(row);
        assert forall|r: int, c: int|
            0 <= r < lookup@.len() && 0 <= c < cols implies entry_ok(m, verts@, #[trigger] lookup@[r]@[c], esx + c, esz + r) by {
            if r < before.len() {
                assert(lookup@[r] == before[r]);
            }
        }
        assert(grid_items(f, esx as int, eex + 1, esz as int, z + 1) == grid_items(f, esx as int, eex + 1, esz as int, z as int) + row_items(f, esx as int, eex + 1, z as int));
        assert((z + 1 - esz) * cols == (z - esz) * cols + cols) by (nonlinear_arith);
        z = z + 1;
    }
    proof {
        assert(verts@.len() <= rows * cols);
        lemma_index_fits(0, 0, rows as int, cols as int);
    }
    (verts, lookup)
}

} // verus!
