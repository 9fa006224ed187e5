//! The sampling window of a chunk and its expanded window.

use vstd::prelude::*;
use crate::raster::{Heightmap, raster_width, raster_height, solid, check_pixel};

verus! {

/// Edge length of a chunk, in samples, used where none is given.
pub const CHUNK_SIZE: u32 = 128;

/// Largest chunk edge for which every vertex index of a chunk fits in `u32`.
pub const MAX_CHUNK_SIZE: u32 = 65000;

/// A chunk's window and the window padded by one sample on each side,
/// clamped to the raster. Cells of the expanded window are
/// `[expanded_start_x, expanded_end_x) x [expanded_start_z, expanded_end_z)`;
/// its lattice points run one further, to the ends inclusive.
#[derive(Clone, Copy, Debug)]
pub struct ChunkBounds {
    pub start_x: u32,
    pub start_z: u32,
    pub chunk_size: u32,
    pub expanded_start_x: u32,
    pub expanded_start_z: u32,
    pub expanded_end_x: u32,
    pub expanded_end_z: u32,
    /// `expanded_end_x - expanded_start_x`, or zero when that is negative.
    pub expanded_width: u32,
    /// `expanded_end_z - expanded_start_z`, or zero when that is negative.
    pub expanded_depth: u32,
}

pub open spec fn expanded_start(start: int) -> int {
    if start > 0 {
        start - 1
    } else {
        0
    }
}

pub open spec fn expanded_end(start: int, size: int, limit: int) -> int {
    if start + size + 1 < limit {
        start + size + 1
    } else {
        limit
    }
}

pub open spec fn extent(lo: int, hi: int) -> int {
    if hi > lo {
        hi - lo
    } else {
        0
    }
}

/// The bounds of the chunk at `(start_x, start_z)` of edge `size` on raster `m`.
pub open spec fn chunk_bounds_of(m: Heightmap, start_x: u32, start_z: u32, size: u32) -> ChunkBounds {
    let esx = expanded_start(start_x as int);
    let esz = expanded_start(start_z as int);
    let eex = expanded_end(start_x as int, size as int, raster_width(m));
    let eez = expanded_end(start_z as int, size as int, raster_height(m));
    ChunkBounds {
        start_x,
        start_z,
        chunk_size: size,
        expanded_start_x: esx as u32,
        expanded_start_z: esz as u32,
        expanded_end_x: eex as u32,
        expanded_end_z: eez as u32,
        expanded_width: extent(esx, eex) as u32,
        expanded_depth: extent(esz, eez) as u32,
    }
}

/// `b` was computed for raster `m`.
pub open spec fn bounds_for(b: ChunkBounds, m: Heightmap) -> bool {
    b == chunk_bounds_of(m, b.start_x, b.start_z, b.chunk_size)
}

/// The expanded window holds no cell.
pub open spec fn degenerate(b: ChunkBounds) -> bool {
    b.expanded_end_x <= b.expanded_start_x || b.expanded_end_z <= b.expanded_start_z
}

/// The cell `(x, z)` lies in the chunk's own (not expanded) window.
pub open spec fn in_original(b: ChunkBounds, x: int, z: int) -> bool {
    b.start_x <= x < b.start_x + b.chunk_size && b.start_z <= z < b.start_z + b.chunk_size
}

/// Every sample of the chunk's own window is void.
pub open spec fn window_void(m: Heightmap, start_x: int, start_z: int, size: int) -> bool {
    forall|x: int, z: int|
        start_x <= x < start_x + size && start_z <= z < start_z + size ==> !#[trigger] solid(m, x, z)
}

pub fn calculate_chunk_bounds(start_x: u32, start_z: u32, chunk_size: u32, heightmap: &Heightmap) -> (r:
    ChunkBounds)
    ensures
        r == chunk_bounds_of(*heightmap, start_x, start_z, chunk_size),
        bounds_for(r, *heightmap),
{
    let width = heightmap.width();
    let height = heightmap.height();
    let expanded_start_x = start_x.saturating_sub(1);
    let expanded_start_z = start_z.saturating_sub(1);
    let end_x: u64 = start_x as u64 + chunk_size as u64 + 1;
    let end_z: u64 = start_z as u64 + chunk_size as u64 + 1;
    let expanded_end_x = if end_x < width as u64 {
        end_x as u32
    } else {
        width
    };
    let expanded_end_z = if end_z < height as u64 {
        end_z as u32
    } else {
        height
    };
    ChunkBounds {
        start_x,
        start_z,
        chunk_size,
        expanded_start_x,
        expanded_start_z,
        expanded_end_x,
        expanded_end_z,
        expanded_width: expanded_end_x.saturating_sub(expanded_start_x),
        expanded_depth: expanded_end_z.saturating_sub(expanded_start_z),
    }
}

/// Whether every sample of the chunk's own window is void. Reads only that
/// window, clipped to the raster.
pub fn is_chunk_empty(start_x: u32, start_z: u32, chunk_size: u32, heightmap: &Heightmap) -> (r: bool)
    ensures
        r == window_void(*heightmap, start_x as int, start_z as int, chunk_size as int),
{
    let width = heightmap.width() as u64;
    let height = heightmap.height() as u64;
    let end_x: u64 = if start_x as u64 + chunk_size as u64 <= width {
        start_x as u64 + chunk_size as u64
    } else {
        width
    };
    let end_z: u64 = if start_z as u64 + chunk_size as u64 <= height {
        start_z as u64 + chunk_size as u64
    } else {
        height
    };
    let mut z: u64 = start_z as u64;
    while z < end_z
        invariant
            start_z <= z,
            end_z <= height,
            end_x <= width,
            width == raster_width(*heightmap),
            height == raster_height(*heightmap),
            end_x == start_x + chunk_size || end_x == width,
            end_z == start_z + chunk_size || end_z == height,
            end_x <= start_x + chunk_size,
            end_z <= start_z + chunk_size,
            forall|x: int, zz: int|
                start_x <= x < start_x + chunk_size && start_z <= zz < z ==> !#[trigger] solid(
                    *heightmap,
                    x,
                    zz,
                ),
        decreases end_z - z,
    {
        let mut x: u64 = start_x as u64;
        while x < end_x
            invariant
                start_x <= x,
                start_z <= z < end_z,
                end_x <= start_x + chunk_size,
                end_z <= start_z + chunk_size,
                end_z <= height,
                end_x <= width,
                width == raster_width(*heightmap),
                height == raster_height(*heightmap),
                forall|xx: int| start_x <= xx < x ==> !#[trigger] solid(*heightmap, xx, z as int),
            decreases end_x - x,
        {
            if check_pixel(x as u32, z as u32, heightmap) {
                assert(solid(*heightmap, x as int, z as int));
                return false;
            }
            x = x + 1;
        }
        assert forall|xx: int, zz: int|
            start_x <= xx < start_x + chunk_size && start_z <= zz < z + 1 implies !#[trigger] solid(
                *heightmap,
                xx,
                zz,
            ) by {
            if zz < z {
            } else if xx < end_x {
            } else {
                assert(xx >= width);
            }
        }
        z = z + 1;
    }
    assert forall|xx: int, zz: int|
        start_x <= xx < start_x + chunk_size && start_z <= zz < start_z + chunk_size implies !#[trigger] solid(
            *heightmap,
            xx,
            zz,
        ) by {
        if zz >= z {
            assert(zz >= height);
        }
    }
    true
}

/// Whether the cell `(x, z)` belongs to the chunk's own window.
pub fn is_in_original_chunk(x: u32, z: u32, bounds: &ChunkBounds) -> (r: bool)
    ensures
        r == in_original(*bounds, x as int, z as int),
{
    x >= bounds.start_x && (x as u64) < bounds.start_x as u64 + bounds.chunk_size as u64 && z
        >= bounds.start_z && (z as u64) < bounds.start_z as u64 + bounds.chunk_size as u64
}

} // verus!
