//! Read-only access to the elevation raster.
//!
//! The raster is an 8-bit grayscale image held by the `image` crate. Sample
//! value zero marks void (no terrain); coordinates outside the image read as
//! void too, so callers may probe one sample past any edge.

use vstd::prelude::*;
use image::GrayImage;

verus! {

/// Sample value that marks the absence of terrain.
pub const VOID_HEIGHT: u8 = 0;

/// An elevation raster: a grayscale image, row-major, origin top-left.
#[verifier::external_body]
pub struct Heightmap {
    image: GrayImage,
}

/// The raw sample buffer of the image, row-major (what `as_raw` returns).
pub uninterp spec fn heightmap_samples(map: Heightmap) -> Seq<u8>;

/// The image's `(width, height)`.
pub uninterp spec fn heightmap_dimensions(map: Heightmap) -> (u32, u32);

pub open spec fn raster_width(m: Heightmap) -> int {
    heightmap_dimensions(m).0 as int
}

pub open spec fn raster_height(m: Heightmap) -> int {
    heightmap_dimensions(m).1 as int
}

pub open spec fn in_raster(m: Heightmap, x: int, z: int) -> bool {
    0 <= x < raster_width(m) && 0 <= z < raster_height(m)
}

/// The sample at `(x, z)`, or void where the point lies outside the raster.
pub open spec fn sample(m: Heightmap, x: int, z: int) -> int {
    if in_raster(m, x, z) {
        heightmap_samples(m)[z * raster_width(m) + x] as int
    } else {
        VOID_HEIGHT as int
    }
}

/// The point holds terrain: it lies in the raster and is not void.
pub open spec fn solid(m: Heightmap, x: int, z: int) -> bool {
    sample(m, x, z) != VOID_HEIGHT as int
}

/// Relies on `ImageBuffer::from_raw`: it accepts a buffer of at least
/// `width * height` samples (one channel; the product cannot overflow a 64-bit
/// `usize`) and keeps it as the image's data.
#[verifier::external_body]
fn gray_from_raw(width: u32, height: u32, buf: Vec<u8>) -> (r: Option<Heightmap>)
    ensures
        r is Some <==> width as int * height as int <= buf@.len(),
        r matches Some(m) ==> heightmap_samples(m) == buf@ && heightmap_dimensions(m) == (
        width,
        height,
        ),
{
    GrayImage::from_raw(width, height, buf).map(|image| Heightmap { image })
}

/// Relies on `ImageBuffer::dimensions`: the stored width and height.
#[verifier::external_body]
fn gray_dimensions(map: &Heightmap) -> (r: (u32, u32))
    ensures
        r == heightmap_dimensions(*map),
{
    map.image.dimensions()
}

/// Relies on `ImageBuffer::get_pixel`: for an in-bounds point it reads the one
/// channel at `y * width + x`; out of bounds it panics, which `requires` rules out.
#[verifier::external_body]
fn gray_luma(map: &Heightmap, x: u32, y: u32) -> (r: u8)
    requires
        (x as int) < raster_width(*map),
        (y as int) < raster_height(*map),
    ensures
        r == heightmap_samples(*map)[y * raster_width(*map) + x],
{
    map.image.get_pixel(x, y).0[0]
}

impl Heightmap {
    /// Builds a raster of `width * height` samples, row-major; `None` when the
    /// buffer is too short.
    pub fn new(width: u32, height: u32, samples: Vec<u8>) -> (r: Option<Heightmap>)
        ensures
            r is Some <==> width as int * height as int <= samples@.len(),
            r matches Some(m) ==> {
                &&& raster_width(m) == width
                &&& raster_height(m) == height
                &&& forall|x: int, z: int|
                    0 <= x < width && 0 <= z < height ==> #[trigger] sample(m, x, z)
                        == samples@[z * width + x] as int
            },
    {
        gray_from_raw(width, height, samples)
    }

    pub fn width(&self) -> (r: u32)
        ensures
            r == raster_width(*self),
    {
        gray_dimensions(self).0
    }

    pub fn height(&self) -> (r: u32)
        ensures
            r == raster_height(*self),
    {
        gray_dimensions(self).1
    }

    /// The sample at `(x, z)`; void outside the raster.
    pub fn luma(&self, x: u32, z: u32) -> (r: u8)
        ensures
            r == sample(*self, x as int, z as int),
    {
        let (w, h) = gray_dimensions(self);
        if x < w && z < h {
            gray_luma(self, x, z)
        } else {
            VOID_HEIGHT
        }
    }
}

/// Whether `(x, z)` lies in the raster and holds terrain.
pub fn check_pixel(x: u32, z: u32, heightmap: &Heightmap) -> (r: bool)
    ensures
        r == solid(*heightmap, x as int, z as int),
{
    heightmap.luma(x, z) != VOID_HEIGHT
}

} // verus!
