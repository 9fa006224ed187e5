use terrain_mesh::border::{
    determine_border_type, get_relative_pixel, is_border_pixel, make_borders, relative_to_absolute,
    BorderType, Direction, RelativeCoord,
};
use terrain_mesh::contour::{find_next, trace_borders, trace_contour, void_neighbours, TraceWindow};
use terrain_mesh::raster::Heightmap;

fn raster(width: u32, height: u32, f: impl Fn(u32, u32) -> u8) -> Heightmap {
    let mut samples = Vec::new();
    for z in 0..height {
        for x in 0..width {
            samples.push(f(x, z));
        }
    }
    Heightmap::new(width, height, samples).unwrap()
}

fn island(size: u32, side: u32, at: u32) -> Heightmap {
    raster(size, size, |x, z| if x >= at && x < at + side && z >= at && z < at + side { 80 } else { 0 })
}

fn window(sx: u32, sz: u32, ex: u32, ez: u32) -> TraceWindow {
    TraceWindow { start_x: sx, start_z: sz, end_x: ex, end_z: ez }
}

fn adjacent(a: (u32, u32), b: (u32, u32)) -> bool {
    let dx = a.0 as i64 - b.0 as i64;
    let dz = a.1 as i64 - b.1 as i64;
    dx.abs() <= 1 && dz.abs() <= 1 && (dx, dz) != (0, 0)
}

#[test]
fn relative_to_absolute_turns_with_direction() {
    let rel = RelativeCoord { forward: 1, right: 2 };
    assert_eq!(relative_to_absolute(10, 10, Direction::Left, rel), (12, 11));
    assert_eq!(relative_to_absolute(10, 10, Direction::Right, rel), (8, 9));
    assert_eq!(relative_to_absolute(10, 10, Direction::Bottom, rel), (8, 11));
    assert_eq!(relative_to_absolute(10, 10, Direction::Top, rel), (12, 9));
}

#[test]
fn relative_to_absolute_clamps() {
    let rel = RelativeCoord { forward: 3, right: 0 };
    assert_eq!(relative_to_absolute(1, 1, Direction::Top, rel), (1, 0));
    assert_eq!(relative_to_absolute(u32::MAX, 5, Direction::Left, RelativeCoord { forward: 0, right: 4 }), (u32::MAX, 5));
}

#[test]
fn relative_pixel_reads_and_misses() {
    let m = raster(3, 3, |x, z| (x + 3 * z) as u8);
    assert_eq!(get_relative_pixel(1, 1, Direction::Left, RelativeCoord { forward: 1, right: 0 }, &m), Some(7));
    assert_eq!(get_relative_pixel(2, 2, Direction::Left, RelativeCoord { forward: 1, right: 0 }, &m), None);
}

#[test]
fn border_pixels_include_raster_edges() {
    let m = raster(3, 3, |_, _| 5);
    assert!(is_border_pixel(0, 0, &m));
    assert!(!is_border_pixel(1, 1, &m));
    let h = raster(3, 3, |x, z| if x == 1 && z == 0 { 0 } else { 5 });
    assert!(is_border_pixel(1, 1, &h));
    assert!(!is_border_pixel(1, 0, &h));
}

#[test]
fn border_types() {
    // Terrain at x < 2. Seen from the void pixel (2, 2) in the frame of
    // `Right`, "right" points back at x = 1: terrain there only is a corner.
    let m = raster(5, 5, |x, _| if x < 2 { 9 } else { 0 });
    assert_eq!(determine_border_type(2, 2, Direction::Right, &m), BorderType::Corner);
    // From (3, 2) nothing ahead, right or left holds terrain: a line.
    assert_eq!(determine_border_type(3, 2, Direction::Right, &m), BorderType::Line);
    // Terrain ahead (at (2, 1)) leaves the pixel unclassified.
    let c = raster(5, 5, |x, z| if x < 2 || (z == 1 && x == 2) { 9 } else { 0 });
    assert_eq!(determine_border_type(2, 2, Direction::Right, &c), BorderType::Unclassified);
}

#[test]
fn make_borders_lists_void_neighbours() {
    let m = island(4, 1, 1);
    let sites = make_borders(0, 0, 4, &m);
    let got: Vec<(u32, u32, Direction)> = sites.iter().map(|s| (s.x, s.z, s.direction)).collect();
    assert_eq!(
        got,
        vec![(0, 1, Direction::Left), (2, 1, Direction::Right), (1, 0, Direction::Top), (1, 2, Direction::Bottom)]
    );
    let types: Vec<BorderType> = sites.iter().map(|s| s.border_type).collect();
    assert_eq!(types, vec![BorderType::Corner, BorderType::Corner, BorderType::Line, BorderType::Line]);
}

#[test]
fn next_step_search_order() {
    let m = island(5, 3, 1);
    let w = window(0, 0, 5, 5);
    assert_eq!(find_next(&m, &w, 1, 1, 0), Some((0, (2, 1))));
    assert_eq!(find_next(&m, &w, 3, 1, 0), Some((2, (3, 2))));
}

#[test]
fn square_island_contour_is_closed_perimeter() {
    let m = island(5, 3, 1);
    let contours = trace_borders(&m, &window(0, 0, 5, 5));
    assert_eq!(contours.len(), 1);
    let c = &contours[0];
    assert_eq!(c.len(), 8);
    assert_eq!(c[0], (1, 1));
    assert!(c.windows(2).all(|p| adjacent(p[0], p[1])));
    assert!(adjacent(c[c.len() - 1], c[0]));
    assert!(!c.contains(&(2, 2)));
}

#[test]
fn larger_square_island_contour() {
    let m = island(8, 4, 2);
    let contours = trace_borders(&m, &window(0, 0, 8, 8));
    assert_eq!(contours.len(), 1);
    assert_eq!(contours[0].len(), 12);
    let (c, closed) = trace_contour(&m, &window(0, 0, 8, 8), 2, 2, 24);
    assert!(closed);
    assert_eq!(&c, &contours[0]);
}

#[test]
fn two_islands_two_contours() {
    let m = raster(9, 5, |x, z| if (1..4).contains(&z) && ((1..4).contains(&x) || (5..8).contains(&x)) { 10 } else { 0 });
    let contours = trace_borders(&m, &window(0, 0, 9, 5));
    assert_eq!(contours.len(), 2);
    assert_eq!(contours[0][0], (1, 1));
    assert_eq!(contours[1][0], (5, 1));
}

#[test]
fn small_islands_are_noise() {
    let m = raster(6, 6, |x, z| if (x == 1 && z == 1) || (z == 4 && (x == 3 || x == 4)) { 10 } else { 0 });
    assert!(trace_borders(&m, &window(0, 0, 6, 6)).is_empty());
}

#[test]
fn single_void_corner_contour() {
    let m = raster(4, 4, |x, z| if x == 0 && z == 0 { 0 } else { 100 });
    let contours = trace_borders(&m, &window(0, 0, 4, 4));
    assert!(!contours.is_empty());
    let c = &contours[0];
    assert!(c.len() >= 3);
    assert_eq!(c.len(), 11);
    assert_eq!(c[0], (1, 0));
    assert!(c.contains(&(0, 1)));
    assert!(adjacent(c[c.len() - 1], c[0]));
}

#[test]
fn contour_pixel_void_neighbours() {
    let m = island(5, 3, 1);
    assert_eq!(void_neighbours(1, 1, &m), vec![(1, 0), (0, 1)]);
    assert_eq!(void_neighbours(3, 3, &m), vec![(4, 3), (3, 4)]);
    assert!(void_neighbours(2, 2, &m).is_empty());
    let edge = raster(2, 2, |x, _| if x == 1 { 0 } else { 7 });
    assert_eq!(void_neighbours(0, 0, &edge), vec![(1, 0)]);
}

#[test]
fn walk_budget_runs_out() {
    let m = island(5, 3, 1);
    let w = window(0, 0, 5, 5);
    assert_eq!(trace_contour(&m, &w, 1, 1, 0), (vec![(1, 1)], false));
    assert_eq!(trace_contour(&m, &w, 1, 1, 2), (vec![(1, 1), (2, 1), (3, 1)], false));
    let (full, closed) = trace_contour(&m, &w, 1, 1, 8);
    assert!(closed);
    assert_eq!(full.len(), 8);
}

#[test]
fn walk_stops_without_neighbour() {
    let m = island(3, 1, 1);
    assert_eq!(find_next(&m, &window(0, 0, 3, 3), 1, 1, 0), None);
    assert_eq!(trace_contour(&m, &window(0, 0, 3, 3), 1, 1, 10), (vec![(1, 1)], false));
}

#[test]
fn window_limits_the_walk() {
    // The island reaches past the window's right edge: the walk stays inside.
    let m = island(6, 4, 1);
    let contours = trace_borders(&m, &window(0, 0, 3, 6));
    for c in &contours {
        assert!(c.iter().all(|&(x, _)| x < 3));
    }
}
