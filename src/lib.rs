//! Heightmap-to-mesh chunk generation with seam-consistent normals, and
//! boundary tracing of terrain/void borders.

pub mod raster;
pub mod grid;
pub mod bounds;
pub mod vertices;
pub mod triangles;
pub mod normals;
pub mod mesh;
pub mod seams;
pub mod border;
pub mod contour;
pub mod island;
