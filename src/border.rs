//! Border classification: the void pixels that touch terrain, and the shape
//! of the terrain around each of them as seen from that pixel.

use vstd::prelude::*;
use crate::raster::{Heightmap, solid, in_raster, sample, check_pixel, VOID_HEIGHT};
use crate::grid::{grid_items, row_items};

verus! {

/// The side of a terrain pixel on which a void pixel lies.
#[derive(Clone, Copy, Debug, PartialEq, Eq, Structural)]
pub enum Direction {
    Left,
    Right,
    Top,
    Bottom,
}

/// The shape of the terrain around a void border pixel.
#[derive(Clone, Copy, Debug, PartialEq, Eq, Structural)]
pub enum BorderType {
    Corner,
    Line,
    DeadEnd,
    Canyon,
    Pit,
    Unclassified,
}

/// An offset in a frame turned towards a direction: `forward` steps along
/// it, `right` steps across it.
#[derive(Clone, Copy, Debug)]
pub struct RelativeCoord {
    pub forward: i32,
    pub right: i32,
}

/// A void pixel next to a terrain border pixel, the side of that terrain
/// pixel it lies on, and its classification.
#[derive(Clone, Copy, Debug, PartialEq, Eq, Structural)]
pub struct BorderSite {
    pub x: u32,
    pub z: u32,
    pub direction: Direction,
    pub border_type: BorderType,
}

/// The raster offset of `rel` in the frame of `direction`.
pub open spec fn relative_offset(direction: Direction, rel: RelativeCoord) -> (int, int) {
    match direction {
        Direction::Right => (-(rel.right as int), -(rel.forward as int)),
        Direction::Left => (rel.right as int, rel.forward as int),
        Direction::Bottom => (-(rel.right as int), rel.forward as int),
        Direction::Top => (rel.right as int, -(rel.forward as int)),
    }
}

/// `v` clamped to the range of `u32`.
pub open spec fn clamp_u32(v: int) -> int {
    if v < 0 {
        0
    } else if v > u32::MAX {
        u32::MAX as int
    } else {
        v
    }
}

pub open spec fn relative_point(x: int, z: int, direction: Direction, rel: RelativeCoord) -> (int, int) {
    let off = relative_offset(direction, rel);
    (clamp_u32(x + off.0), clamp_u32(z + off.1))
}

/// The pixel at `rel` from `(x, z)` in the frame of `direction` holds terrain.
pub open spec fn relative_solid(m: Heightmap, x: int, z: int, direction: Direction, forward: int, right: int) -> bool {
    let p = relative_point(x, z, direction, RelativeCoord { forward: forward as i32, right: right as i32 });
    solid(m, p.0, p.1)
}

/// Classification of the void pixel `(x, z)`: a line where nothing ahead,
/// right or left of it holds terrain; a corner where only the right does.
pub open spec fn border_type_of(m: Heightmap, x: int, z: int, direction: Direction) -> BorderType {
    let forward = relative_solid(m, x, z, direction, 1, 0);
    let right = relative_solid(m, x, z, direction, 0, 1);
    let left = relative_solid(m, x, z, direction, 0, -1);
    if !forward && right && !left {
        BorderType::Corner
    } else if !forward && !right && !left {
        BorderType::Line
    } else {
        BorderType::Unclassified
    }
}

/// A terrain pixel with a void or off-raster pixel beside it (4-connected).
pub open spec fn border_pixel(m: Heightmap, x: int, z: int) -> bool {
    solid(m, x, z) && (!solid(m, x, z - 1) || !solid(m, x + 1, z) || !solid(m, x, z + 1) || !solid(m, x - 1, z))
}

/// The point lies in the raster and is void.
pub open spec fn void_in_raster(m: Heightmap, x: int, z: int) -> bool {
    in_raster(m, x, z) && !solid(m, x, z)
}

pub open spec fn site_at(m: Heightmap, x: int, z: int, direction: Direction) -> Seq<BorderSite> {
    if void_in_raster(m, x, z) {
        seq![BorderSite { x: x as u32, z: z as u32, direction, border_type: border_type_of(m, x, z, direction) }]
    } else {
        Seq::empty()
    }
}

/// The sites around pixel `(x, z)`: its void neighbours in the raster, left,
/// right, top, bottom, where it is a terrain border pixel.
pub open spec fn sites_of(m: Heightmap, x: int, z: int) -> Seq<BorderSite> {
    if border_pixel(m, x, z) {
        site_at(m, x - 1, z, Direction::Left) + site_at(m, x + 1, z, Direction::Right) + site_at(
            m,
            x,
            z - 1,
            Direction::Top,
        ) + site_at(m, x, z + 1, Direction::Bottom)
    } else {
        Seq::empty()
    }
}

pub open spec fn sites_fn(m: Heightmap) -> spec_fn(int, int) -> Seq<BorderSite> {
    |x: int, z: int| sites_of(m, x, z)
}

pub open spec fn clip(start: int, size: int, limit: int) -> int {
    if start + size <= limit {
        start + size
    } else {
        limit
    }
}

/// Border sites of the window of edge `size` at `(start_x, start_z)`, pixel by
/// pixel in row-major order.
pub open spec fn border_sites(m: Heightmap, start_x: int, start_z: int, size: int) -> Seq<BorderSite> {
    grid_items(
        sites_fn(m),
        start_x,
        clip(start_x, size, crate::raster::raster_width(m)),
        start_z,
        clip(start_z, size, crate::raster::raster_height(m)),
    )
}

/// The point `rel` away from `(base_x, base_z)` in the frame of `direction`,
/// clamped to the range of `u32`.
pub fn relative_to_absolute(base_x: u32, base_z: u32, direction: Direction, rel: RelativeCoord) -> (r: (u32, u32))
    ensures
        (r.0 as int, r.1 as int) == relative_point(base_x as int, base_z as int, direction, rel),
{
    let (dx, dz): (i64, i64) = match direction {
        Direction::Right => (-(rel.right as i64), -(rel.forward as i64)),
        Direction::Left => (rel.right as i64, rel.forward as i64),
        Direction::Bottom => (-(rel.right as i64), rel.forward as i64),
        Direction::Top => (rel.right as i64, -(rel.forward as i64)),
    };
    let ax = base_x as i64 + dx;
    let az = base_z as i64 + dz;
    let abs_x: u32 = if ax < 0 {
        0
    } else if ax > u32::MAX as i64 {
        u32::MAX
    } else {
        ax as u32
    };
    let abs_z: u32 = if az < 0 {
        0
    } else if az > u32::MAX as i64 {
        u32::MAX
    } else {
        az as u32
    };
    (abs_x, abs_z)
}

/// The sample at `rel` from `(base_x, base_z)` in the frame of `direction`,
/// or `None` off the raster.
pub fn get_relative_pixel(base_x: u32, base_z: u32, direction: Direction, rel: RelativeCoord, heightmap: &Heightmap) -> (r: Option<u8>)
    ensures
        ({
            let p = relative_point(base_x as int, base_z as int, direction, rel);
            &&& (r is Some <==> in_raster(*heightmap, p.0, p.1))
            &&& (r matches Some(v) ==> v == sample(*heightmap, p.0, p.1))
        }),
{
    let (nx, nz) = relative_to_absolute(base_x, base_z, direction, rel);
    if nx >= heightmap.width() || nz >= heightmap.height() {
        return None;
    }
    Some(heightmap.luma(nx, nz))
}

/// Whether the pixel at `rel` from `(base_x, base_z)` holds terrain.
pub fn check_relative_pixel(base_x: u32, base_z: u32, direction: Direction, rel: RelativeCoord, heightmap: &Heightmap) -> (r: bool)
    ensures
        r == relative_solid(*heightmap, base_x as int, base_z as int, direction, rel.forward as int, rel.right as int),
{
    match get_relative_pixel(base_x, base_z, direction, rel, heightmap) {
        Some(v) => v > VOID_HEIGHT,
        None => false,
    }
}

/// Classifies the void pixel `(x, z)` lying on side `direction` of terrain.
pub fn determine_border_type(x: u32, z: u32, direction: Direction, heightmap: &Heightmap) -> (r: BorderType)
    ensures
        r == border_type_of(*heightmap, x as int, z as int, direction),
{
    let forward = check_relative_pixel(x, z, direction, RelativeCoord { forward: 1, right: 0 }, heightmap);
    let right = check_relative_pixel(x, z, direction, RelativeCoord { forward: 0, right: 1 }, heightmap);
    let left = check_relative_pixel(x, z, direction, RelativeCoord { forward: 0, right: -1 }, heightmap);
    if !forward && right && !left {
        BorderType::Corner
    } else if !forward && !right && !left {
        BorderType::Line
    } else {
        BorderType::Unclassified
    }
}

/// Whether `(x, z)` holds terrain and has a void or off-raster pixel beside it.
pub fn is_border_pixel(x: u32, z: u32, heightmap: &Heightmap) -> (r: bool)
    ensures
        r == border_pixel(*heightmap, x as int, z as int),
{
    if !check_pixel(x, z, heightmap) {
        return false;
    }
    (z == 0 || !check_pixel(x, z - 1, heightmap))
        || (x == u32::MAX || !check_pixel(x + 1, z, heightmap))
        || (z == u32::MAX || !check_pixel(x, z + 1, heightmap))
        || (x == 0 || !check_pixel(x - 1, z, heightmap))
}

fn void_in_raster_at(x: u32, z: u32, heightmap: &Heightmap) -> (r: bool)
    ensures
        r == void_in_raster(*heightmap, x as int, z as int),
{
    x < heightmap.width() && z < heightmap.height() && heightmap.luma(x, z) == VOID_HEIGHT
}

fn push_site(out: &mut Vec<BorderSite>, x: u32, z: u32, direction: Direction, heightmap: &Heightmap)
    requires
        void_in_raster(*heightmap, x as int, z as int),
    ensures
        final(out)@ == old(out)@ + site_at(*heightmap, x as int, z as int, direction),
{
    let border_type = determine_border_type(x, z, direction, heightmap);
    out.push(BorderSite { x, z, direction, border_type });
    assert(out@ =~= old(out)@ + site_at(*heightmap, x as int, z as int, direction));
}

/// Appends the border sites around pixel `(x, z)`.
fn process_border(out: &mut Vec<BorderSite>, x: u32, z: u32, heightmap: &Heightmap)
    ensures
        final(out)@ == old(out)@ + sites_of(*heightmap, x as int, z as int),
{
    let ghost m = *heightmap;
    let ghost start = out@;
    if !is_border_pixel(x, z, heightmap) {
        assert(out@ =~= start + sites_of(m, x as int, z as int));
        return;
    }
    let ghost e = Seq::<BorderSite>::empty();
    if x > 0 && void_in_raster_at(x - 1, z, heightmap) {
        push_site(out, x - 1, z, Direction::Left, heightmap);
    } else {
        assert(site_at(m, x - 1, z as int, Direction::Left) == e);
        assert(out@ =~= start + e);
    }
    let ghost s1 = out@;
    if x < u32::MAX && void_in_raster_at(x + 1, z, heightmap) {
        push_site(out, x + 1, z, Direction::Right, heightmap);
    } else {
        assert(site_at(m, x + 1, z as int, Direction::Right) == e);
        assert(out@ =~= s1 + e);
    }
    let ghost s2 = out@;
    if z > 0 && void_in_raster_at(x, z - 1, heightmap) {
        push_site(out, x, z - 1, Direction::Top, heightmap);
    } else {
        assert(site_at(m, x as int, z - 1, Direction::Top) == e);
        assert(out@ =~= s2 + e);
    }
    let ghost s3 = out@;
    if z < u32::MAX && void_in_raster_at(x, z + 1, heightmap) {
        push_site(out, x, z + 1, Direction::Bottom, heightmap);
    } else {
        assert(site_at(m, x as int, z + 1, Direction::Bottom) == e);
        assert(out@ =~= s3 + e);
    }
    assert(out@ =~= start + sites_of(m, x as int, z as int));
}

/// The border sites of the chunk window of edge `chunk_size` at
/// `(start_x, start_z)`, clipped to the raster, in row-major pixel order.
pub fn make_borders(start_x: u32, start_z: u32, chunk_size: u32, heightmap: &Heightmap) -> (r: Vec<BorderSite>)
    ensures
        r@ == border_sites(*heightmap, start_x as int, start_z as int, chunk_size as int),
{
    let ghost m = *heightmap;
    let ghost f = sites_fn(m);
    let width = heightmap.width() as u64;
    let height = heightmap.height() as u64;
    let end_x: u64 = if start_x as u64 + chunk_size as u64 <= width {
        start_x as u64 + chunk_size as u64
    } else {
        width
    };
    let end_z: u64 = if start_z as u64 + chunk_size as u64 <= height {
        start_z as u64 + chunk_size as u64
    } else {
        height
    };
    let mut out: Vec<BorderSite> = Vec::new();
    let mut z: u64 = start_z as u64;
    if end_z < z {
        assert(out@ =~= border_sites(m, start_x as int, start_z as int, chunk_size as int));
        return out;
    }
    while z < end_z
        invariant
            start_z <= z <= end_z,
            end_z <= height,
            end_x <= width,
            width <= u32::MAX,
            height <= u32::MAX,
            f == sites_fn(m),
            m == *heightmap,
            out@ == grid_items(f, start_x as int, end_x as int, start_z as int, z as int),
            end_x == clip(start_x as int, chunk_size as int, crate::raster::raster_width(m)),
            end_z == clip(start_z as int, chunk_size as int, crate::raster::raster_height(m)),
        decreases end_z - z,
    {
        let mut x: u64 = start_x as u64;
        if end_x < x {
            assert(row_items(f, start_x as int, end_x as int, z as int) =~= Seq::empty());
        }
        while x < end_x
            invariant
                start_x <= x,
                x <= end_x || end_x < start_x,
                start_z <= z < end_z,
                end_z <= height,
                end_x <= width,
                width <= u32::MAX,
                height <= u32::MAX,
                f == sites_fn(m),
                m == *heightmap,
                out@ == grid_items(f, start_x as int, end_x as int, start_z as int, z as int) + row_items(
                    f,
                    start_x as int,
                    if x <= end_x { x as int } else { end_x as int },
                    z as int,
                ),
            decreases end_x - x,
        {
            let ghost before = out@;
            process_border(&mut out, x as u32, z as u32, heightmap);
            assert(row_items(f, start_x as int, x + 1, z as int) == row_items(f, start_x as int, x as int, z as int) + f(
                x as int,
                z as int,
            ));
            assert(out@ =~= grid_items(f, start_x as int, end_x as int, start_z as int, z as int) + row_items(
                f,
                start_x as int,
                x + 1,
                z as int,
            ));
            x = x + 1;
        }
        proof {
            if end_x >= start_x {
                assert(x == end_x);
            } else {
                assert(row_items(f, start_x as int, end_x as int, z as int) =~= Seq::empty());
            }
        }
        assert(grid_items(f, start_x as int, end_x as int, start_z as int, z + 1) == grid_items(
            f,
            start_x as int,
            end_x as int,
            start_z as int,
            z as int,
        ) + row_items(f, start_x as int, end_x as int, z as int));
        z = z + 1;
    }
    out
}

} // verus!
