//! The triangulator: each cell of the expanded window whose own sample holds
//! terrain is covered according to which of its four corner vertices exist.

use vstd::prelude::*;
use crate::raster::{Heightmap, solid, check_pixel};
use crate::bounds::{ChunkBounds, bounds_for, degenerate, in_original, is_in_original_chunk};
use crate::vertices::{TerrainVertex, vertex_needed, lookup_ok, entry_ok};
use crate::grid::{grid_items, row_items};

verus! {

/// Triangles of a cell from its corners (top-left `(x, z)`, top-right
/// `(x+1, z)`, bottom-left `(x, z+1)`, bottom-right `(x+1, z+1)`), as corner
/// triples that face up. Four corners give two triangles split along the
/// top-right/bottom-left diagonal; three give the one triangle of those three;
/// fewer give none.
pub open spec fn mask_triangles<T>(tl: Option<T>, tr: Option<T>, bl: Option<T>, br: Option<T>) -> Seq<T> {
    match (tl, tr, bl, br) {
        (Some(a), Some(b), Some(c), Some(d)) => seq![a, c, b, b, c, d],
        (None, Some(b), Some(c), Some(d)) => seq![b, c, d],
        (Some(a), None, Some(c), Some(d)) => seq![a, c, d],
        (Some(a), Some(b), None, Some(d)) => seq![a, d, b],
        (Some(a), Some(b), Some(c), None) => seq![a, c, b],
        _ => Seq::empty(),
    }
}

/// A vertex exists at lattice point `(x, z)` in the chunk's build.
pub open spec fn corner_present(m: Heightmap, b: ChunkBounds, x: int, z: int) -> bool {
    &&& b.expanded_start_x <= x <= b.expanded_end_x
    &&& b.expanded_start_z <= z <= b.expanded_end_z
    &&& vertex_needed(m, x, z)
}

pub open spec fn corner_point(m: Heightmap, b: ChunkBounds, x: int, z: int) -> Option<(int, int)> {
    if corner_present(m, b, x, z) {
        Some((x, z))
    } else {
        None
    }
}

/// Triangles of cell `(x, z)`, as lattice points: none where the cell's own
/// sample is void.
pub open spec fn cell_corners(m: Heightmap, b: ChunkBounds, x: int, z: int) -> Seq<(int, int)> {
    if !solid(m, x, z) {
        Seq::empty()
    } else {
        mask_triangles(
            corner_point(m, b, x, z),
            corner_point(m, b, x + 1, z),
            corner_point(m, b, x, z + 1),
            corner_point(m, b, x + 1, z + 1),
        )
    }
}

pub open spec fn expanded_cell_fn(m: Heightmap, b: ChunkBounds) -> spec_fn(int, int) -> Seq<(int, int)> {
    |x: int, z: int| cell_corners(m, b, x, z)
}

/// Triangles of cell `(x, z)` that the chunk draws: those of its own window.
pub open spec fn chunk_cell_corners(m: Heightmap, b: ChunkBounds, x: int, z: int) -> Seq<(int, int)> {
    if in_original(b, x, z) {
        cell_corners(m, b, x, z)
    } else {
        Seq::empty()
    }
}

pub open spec fn chunk_cell_fn(m: Heightmap, b: ChunkBounds) -> spec_fn(int, int) -> Seq<(int, int)> {
    |x: int, z: int| chunk_cell_corners(m, b, x, z)
}

/// All triangles of the expanded window, cell by cell in row-major order.
pub open spec fn expanded_triangles(m: Heightmap, b: ChunkBounds) -> Seq<(int, int)> {
    grid_items(
        expanded_cell_fn(m, b),
        b.expanded_start_x as int,
        b.expanded_end_x as int,
        b.expanded_start_z as int,
        b.expanded_end_z as int,
    )
}

/// The triangles the chunk draws, in the same order.
pub open spec fn chunk_triangles(m: Heightmap, b: ChunkBounds) -> Seq<(int, int)> {
    grid_items(
        chunk_cell_fn(m, b),
        b.expanded_start_x as int,
        b.expanded_end_x as int,
        b.expanded_start_z as int,
        b.expanded_end_z as int,
    )
}

pub open spec fn vertex_point(v: TerrainVertex) -> (int, int) {
    (v.x as int, v.z as int)
}

/// The lattice points that the indices `idx` name in `verts`.
pub open spec fn index_points(verts: Seq<TerrainVertex>, idx: Seq<u32>) -> Seq<(int, int)> {
    idx.map_values(|i: u32| vertex_point(verts[i as int]))
}

pub open spec fn indices_valid(verts: Seq<TerrainVertex>, idx: Seq<u32>) -> bool {
    forall|k: int| 0 <= k < idx.len() ==> (#[trigger] idx[k]) < verts.len()
}

/// Appends the triangles of a cell whose corner vertices are `tl`, `tr`, `bl`, `br`.
pub fn push_cell_triangles(out: &mut Vec<u32>, tl: Option<u32>, tr: Option<u32>, bl: Option<u32>, br: Option<u32>)
    ensures
        final(out)@ == old(out)@ + mask_triangles(tl, tr, bl, br),
{
    let ghost start = out@;
    match (tl, tr, bl, br) {
        (Some(a), Some(b), Some(c), Some(d)) => {
            out.push(a);
            out.push(c);
            out.push(b);
            out.push(b);
            out.push(c);
            out.push(d);
        },
        (None, Some(b), Some(c), Some(d)) => {
            out.push(b);
            out.push(c);
            out.push(d);
        },
        (Some(a), None, Some(c), Some(d)) => {
            out.push(a);
            out.push(c);
            out.push(d);
        },
        (Some(a), Some(b), None, Some(d)) => {
            out.push(a);
            out.push(d);
            out.push(b);
        },
        (Some(a), Some(b), Some(c), None) => {
            out.push(a);
            out.push(c);
            out.push(b);
        },
        _ => {},
    }
    assert(out@ =~= start + mask_triangles(tl, tr, bl, br));
}

proof fn lemma_mask_points(
    verts: Seq<TerrainVertex>,
    tl: Option<u32>,
    tr: Option<u32>,
    bl: Option<u32>,
    br: Option<u32>,
    ptl: Option<(int, int)>,
    ptr: Option<(int, int)>,
    pbl: Option<(int, int)>,
    pbr: Option<(int, int)>,
)
    requires
        tl is Some <==> ptl is Some,
        tl matches Some(i) ==> i < verts.len() && ptl == Some(vertex_point(verts[i as int])),
        tr is Some <==> ptr is Some,
        tr matches Some(i) ==> i < verts.len() && ptr == Some(vertex_point(verts[i as int])),
        bl is Some <==> pbl is Some,
        bl matches Some(i) ==> i < verts.len() && pbl == Some(vertex_point(verts[i as int])),
        br is Some <==> pbr is Some,
        br matches Some(i) ==> i < verts.len() && pbr == Some(vertex_point(verts[i as int])),
    ensures
        index_points(verts, mask_triangles(tl, tr, bl, br)) == mask_triangles(ptl, ptr, pbl, pbr),
        indices_valid(verts, mask_triangles(tl, tr, bl, br)),
{
    assert(index_points(verts, mask_triangles(tl, tr, bl, br)) =~= mask_triangles(ptl, ptr, pbl, pbr));
}

proof fn lemma_append_points(verts: Seq<TerrainVertex>, a: Seq<u32>, b: Seq<u32>)
    ensures
        index_points(verts, a + b) == index_points(verts, a) + index_points(verts, b),
        indices_valid(verts, a) && indices_valid(verts, b) ==> indices_valid(verts, a + b),
{
    assert(index_points(verts, a + b) =~= index_points(verts, a) + index_points(verts, b));
    if indices_valid(verts, a) && indices_valid(verts, b) {
        assert forall|k: int| 0 <= k < (a + b).len() implies (#[trigger] (a + b)[k]) < verts.len() by {
            if k >= a.len() {
                assert((a + b)[k] == b[k - a.len()]);
            }
        }
    }
}

/// Emits the triangles of every cell of the expanded window. Returns the
/// chunk's own triangles (cells of its window) and all of them (for normals).
pub fn create_triangles(
    bounds: &ChunkBounds,
    heightmap: &Heightmap,
    verts: &Vec<TerrainVertex>,
    lookup: &Vec<Vec<Option<u32>>>,
) -> (r: (Vec<u32>, Vec<u32>))
    requires
        bounds_for(*bounds, *heightmap),
        !degenerate(*bounds),
        lookup_ok(*heightmap, *bounds, verts@, lookup@),
    ensures
        index_points(verts@, r.0@) == chunk_triangles(*heightmap, *bounds),
        index_points(verts@, r.1@) == expanded_triangles(*heightmap, *bounds),
        indices_valid(verts@, r.0@),
        indices_valid(verts@, r.1@),
{
    let esx = bounds.expanded_start_x;
    let eex = bounds.expanded_end_x;
    let esz = bounds.expanded_start_z;
    let eez = bounds.expanded_end_z;
    let ghost m = *heightmap;
    let ghost b = *bounds;
    let ghost fa = expanded_cell_fn(m, b);
    let ghost fc = chunk_cell_fn(m, b);
    let mut indices: Vec<u32> = Vec::new();
    let mut all_indices: Vec<u32> = Vec::new();
    let mut z: u32 = esz;
    while z < eez
        invariant
            esz <= z <= eez,
            esx < eex,
            esx == b.expanded_start_x,
            eex == b.expanded_end_x,
            esz == b.expanded_start_z,
            eez == b.expanded_end_z,
            m == *heightmap,
            b == *bounds,
            fa == expanded_cell_fn(m, b),
            fc == chunk_cell_fn(m, b),
            lookup_ok(m, b, verts@, lookup@),
            index_points(verts@, all_indices@) == grid_items(fa, esx as int, eex as int, esz as int, z as int),
            index_points(verts@, indices@) == grid_items(fc, esx as int, eex as int, esz as int, z as int),
            indices_valid(verts@, all_indices@),
            indices_valid(verts@, indices@),
        decreases eez - z,
    {
        let mut x: u32 = esx;
        while x < eex
            invariant
                esx <= x <= eex,
                esz <= z < eez,
                esx == b.expanded_start_x,
                eex == b.expanded_end_x,
                esz == b.expanded_start_z,
                eez == b.expanded_end_z,
                m == *heightmap,
                b == *bounds,
                fa == expanded_cell_fn(m, b),
                fc == chunk_cell_fn(m, b),
                lookup_ok(m, b, verts@, lookup@),
                index_points(verts@, all_indices@) == grid_items(fa, esx as int, eex as int, esz as int, z as int)
                    + row_items(fa, esx as int, x as int, z as int),
                index_points(verts@, indices@) == grid_items(fc, esx as int, eex as int, esz as int, z as int)
                    + row_items(fc, esx as int, x as int, z as int),
                indices_valid(verts@, all_indices@),
                indices_valid(verts@, indices@),
            decreases eex - x,
        {
            let ghost all_before = all_indices@;
            let ghost own_before = indices@;
            let mut emitted: Vec<u32> = Vec::new();
            if check_pixel(x, z, heightmap) {
                let r0 = (z - esz) as usize;
                let r1 = (z + 1 - esz) as usize;
                let c0 = (x - esx) as usize;
                let c1 = (x + 1 - esx) as usize;
                let tl = lookup[r0][c0];
                let tr = lookup[r0][c1];
                let bl = lookup[r1][c0];
                let br = lookup[r1][c1];
                proof {
                    assert(entry_ok(m, verts@, lookup@[r0 as int]@[c0 as int], esx + c0, esz + r0));
                    assert(entry_ok(m, verts@, lookup@[r0 as int]@[c1 as int], esx + c1, esz + r0));
                    assert(entry_ok(m, verts@, lookup@[r1 as int]@[c0 as int], esx + c0, esz + r1));
                    assert(entry_ok(m, verts@, lookup@[r1 as int]@[c1 as int], esx + c1, esz + r1));
                    lemma_mask_points(
                        verts@,
                        tl,
                        tr,
                        bl,
                        br,
                        corner_point(m, b, x as int, z as int),
                        corner_point(m, b, x + 1, z as int),
                        corner_point(m, b, x as int, z + 1),
                        corner_point(m, b, x + 1, z + 1),
                    );
                }
                push_cell_triangles(&mut emitted, tl, tr, bl, br);
                assert(emitted@ =~= mask_triangles(tl, tr, bl, br));
            }
            assert(index_points(verts@, emitted@) == fa(x as int, z as int));
            assert(indices_valid(verts@, emitted@));
            let own = is_in_original_chunk(x, z, bounds);
            proof {
                lemma_append_points(verts@, all_before, emitted@);
                if own {
                    lemma_append_points(verts@, own_before, emitted@);
                } else {
                    assert(index_points(verts@, own_before) =~= index_points(verts@, own_before) + fc(x as int, z as int));
                }
            }
            let mut copy = emitted.clone();
            assert(copy@ == emitted@);
            all_indices.append(&mut copy);
            if own {
                indices.append(&mut emitted);
            }
            assert(row_items(fa, esx as int, x + 1, z as int) == row_items(fa, esx as int, x as int, z as int) + fa(x as int, z as int));
            assert(row_items(fc, esx as int, x + 1, z as int) == row_items(fc, esx as int, x as int, z as int) + fc(x as int, z as int));
            assert(index_points(verts@, all_indices@) =~= grid_items(fa, esx as int, eex as int, esz as int, z as int)
                + row_items(fa, esx as int, x + 1, z as int));
            assert(index_points(verts@, indices@) =~= grid_items(fc, esx as int, eex as int, esz as int, z as int)
                + row_items(fc, esx as int, x + 1, z as int));
            x = x + 1;
        }
        assert(grid_items(fa, esx as int, eex as int, esz as int, z + 1) == grid_items(fa, esx as int, eex as int, esz as int, z as int) + row_items(fa, esx as int, eex as int, z as int));
        assert(grid_items(fc, esx as int, eex as int, esz as int, z + 1) == grid_items(fc, esx as int, eex as int, esz as int, z as int) + row_items(fc, esx as int, eex as int, z as int));
        z = z + 1;
    }
    (indices, all_indices)
}

} // verus!
