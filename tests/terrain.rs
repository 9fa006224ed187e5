use terrain_mesh::bounds::{calculate_chunk_bounds, is_chunk_empty, is_in_original_chunk, CHUNK_SIZE};
use terrain_mesh::mesh::{generate_chunk_mesh, generate_terrain_mesh, ChunkMesh};
use terrain_mesh::normals::{calculate_normals, finalize_normal, Normal};
use terrain_mesh::raster::{check_pixel, Heightmap};
use terrain_mesh::vertices::{calculate_vertex_height, is_vertex_needed, TerrainVertex};

fn raster(width: u32, height: u32, f: impl Fn(u32, u32) -> u8) -> Heightmap {
    let mut samples = Vec::new();
    for z in 0..height {
        for x in 0..width {
            samples.push(f(x, z));
        }
    }
    Heightmap::new(width, height, samples).unwrap()
}

fn vertex_index(mesh: &ChunkMesh, x: u32, z: u32) -> Option<usize> {
    mesh.vertices.iter().position(|v| v.x == x && v.z == z)
}

fn triangle_cells(mesh: &ChunkMesh) -> Vec<(u32, u32)> {
    let mut cells = Vec::new();
    for t in mesh.indices.chunks(3) {
        let vs: Vec<&TerrainVertex> = t.iter().map(|&i| &mesh.vertices[i as usize]).collect();
        let x = vs.iter().map(|v| v.x).min().unwrap();
        let z = vs.iter().map(|v| v.z).min().unwrap();
        cells.push((x, z));
    }
    cells
}

#[test]
fn heightmap_rejects_short_buffer() {
    assert!(Heightmap::new(3, 2, vec![1, 2, 3, 4, 5]).is_none());
    assert!(Heightmap::new(3, 2, vec![1, 2, 3, 4, 5, 6]).is_some());
}

#[test]
fn heightmap_reads_row_major_samples() {
    let m = Heightmap::new(3, 2, vec![1, 2, 3, 4, 5, 6]).unwrap();
    assert_eq!(m.width(), 3);
    assert_eq!(m.height(), 2);
    assert_eq!(m.luma(0, 0), 1);
    assert_eq!(m.luma(2, 0), 3);
    assert_eq!(m.luma(1, 1), 5);
    assert_eq!(m.luma(3, 0), 0);
    assert_eq!(m.luma(0, 2), 0);
    assert!(check_pixel(2, 1, &m));
    assert!(!check_pixel(5, 1, &m));
}

#[test]
fn bounds_are_padded_and_clamped() {
    let m = raster(300, 200, |_, _| 1);
    let b = calculate_chunk_bounds(128, 128, CHUNK_SIZE, &m);
    assert_eq!(b.expanded_start_x, 127);
    assert_eq!(b.expanded_start_z, 127);
    assert_eq!(b.expanded_end_x, 257);
    assert_eq!(b.expanded_end_z, 200);
    assert_eq!(b.expanded_width, 130);
    assert_eq!(b.expanded_depth, 73);
    let origin = calculate_chunk_bounds(0, 0, CHUNK_SIZE, &m);
    assert_eq!(origin.expanded_start_x, 0);
    assert_eq!(origin.expanded_end_x, 129);
    let outside = calculate_chunk_bounds(512, 0, CHUNK_SIZE, &m);
    assert_eq!(outside.expanded_start_x, 511);
    assert_eq!(outside.expanded_end_x, 300);
    assert_eq!(outside.expanded_width, 0);
}

#[test]
fn chunk_emptiness_reads_own_window_only() {
    let m = raster(8, 8, |x, z| if x == 4 && z == 0 { 9 } else { 0 });
    assert!(is_chunk_empty(0, 0, 4, &m));
    assert!(!is_chunk_empty(4, 0, 4, &m));
    assert!(is_chunk_empty(8, 8, 4, &m));
}

#[test]
fn original_window_membership() {
    let m = raster(300, 300, |_, _| 1);
    let b = calculate_chunk_bounds(128, 0, CHUNK_SIZE, &m);
    assert!(is_in_original_chunk(128, 0, &b));
    assert!(is_in_original_chunk(255, 127, &b));
    assert!(!is_in_original_chunk(127, 0, &b));
    assert!(!is_in_original_chunk(256, 0, &b));
}

#[test]
fn vertex_need_and_height() {
    let m = raster(3, 3, |x, z| if x == 1 && z == 1 { 40 } else if x == 2 && z == 1 { 20 } else { 0 });
    assert!(is_vertex_needed(1, 1, &m));
    assert!(is_vertex_needed(3, 2, &m));
    assert!(!is_vertex_needed(0, 0, &m));
    assert!(!is_vertex_needed(3, 0, &m));
    assert_eq!(calculate_vertex_height(2, 1, &m), (60, 2));
    assert_eq!(calculate_vertex_height(1, 1, &m), (40, 1));
    let edge = raster(2, 2, |_, _| 10);
    assert_eq!(calculate_vertex_height(0, 0, &edge), (10, 1));
    assert_eq!(calculate_vertex_height(1, 1, &edge), (40, 4));
}

#[test]
fn void_raster_gives_no_mesh() {
    let m = raster(16, 16, |_, _| 0);
    assert!(generate_chunk_mesh(0, 0, 8, &m).is_none());
    assert!(generate_chunk_mesh(8, 8, 8, &m).is_none());
    assert!(generate_terrain_mesh(0, 0, &m).is_none());
}

#[test]
fn void_region_chunk_gives_no_mesh_beside_terrain() {
    let m = raster(16, 8, |x, _| if x < 8 { 0 } else { 50 });
    assert!(generate_chunk_mesh(0, 0, 4, &m).is_none());
    assert!(generate_chunk_mesh(8, 0, 4, &m).is_some());
}

#[test]
fn chunk_off_raster_gives_no_mesh() {
    let m = raster(4, 4, |_, _| 5);
    assert!(generate_chunk_mesh(10, 0, 4, &m).is_none());
    assert!(generate_chunk_mesh(4, 0, 4, &m).is_none());
}

#[test]
fn indices_are_valid_triples() {
    let m = raster(12, 10, |x, z| ((x * 7 + z * 13) % 5) as u8 * 30);
    for (sx, sz) in [(0, 0), (4, 0), (8, 4), (4, 8)] {
        if let Some(mesh) = generate_chunk_mesh(sx, sz, 4, &m) {
            assert_eq!(mesh.indices.len() % 3, 0);
            assert!(mesh.indices.iter().all(|&i| (i as usize) < mesh.vertices.len()));
            assert_eq!(mesh.normals.len(), mesh.vertices.len());
        }
    }
}

#[test]
fn single_void_corner_scenario() {
    let m = raster(4, 4, |x, z| if x == 0 && z == 0 { 0 } else { 100 });
    let mesh = generate_chunk_mesh(0, 0, 4, &m).unwrap();
    // 16 cells, of which the void corner cell draws nothing.
    assert_eq!(mesh.indices.len(), 15 * 2 * 3);
    assert!(mesh.indices.len() < 16 * 2 * 3);
    // 5 x 5 lattice points, the corner touching only void has no vertex.
    assert_eq!(mesh.vertices.len(), 24);
    assert!(vertex_index(&mesh, 0, 0).is_none());
    let v = vertex_index(&mesh, 1, 1).unwrap();
    assert_eq!(mesh.vertices[v].sample_sum, 300);
    assert_eq!(mesh.vertices[v].sample_count, 3);
    assert!(!triangle_cells(&mesh).contains(&(0, 0)));
}

#[test]
fn triangles_face_up() {
    let m = raster(3, 3, |_, _| 10);
    let mesh = generate_chunk_mesh(0, 0, 3, &m).unwrap();
    for t in mesh.indices.chunks(3) {
        let p: Vec<(i64, i64)> = t
            .iter()
            .map(|&i| (mesh.vertices[i as usize].x as i64, mesh.vertices[i as usize].z as i64))
            .collect();
        let (ux, uz) = (p[1].0 - p[0].0, p[1].1 - p[0].1);
        let (vx, vz) = (p[2].0 - p[0].0, p[2].1 - p[0].1);
        assert!(uz * vx - ux * vz > 0);
    }
}

#[test]
fn flat_raster_normals_point_straight_up() {
    let m = raster(6, 6, |_, _| 77);
    let mesh = generate_chunk_mesh(0, 0, 6, &m).unwrap();
    for n in &mesh.normals {
        assert_eq!(n.0, 0);
        assert_eq!(n.2, 0);
        assert!(n.1 > 0);
    }
}

#[test]
fn sloped_cell_normal_exact_value() {
    // One cell; heights 10 on the left column, 20 on the right column.
    let m = raster(2, 1, |x, _| if x == 0 { 10 } else { 20 });
    let mesh = generate_chunk_mesh(0, 0, 2, &m).unwrap();
    let v = vertex_index(&mesh, 1, 0).unwrap();
    // Vertex (1, 0) averages both samples; it lies in cell (0, 0) and (1, 0).
    assert_eq!((mesh.vertices[v].sample_sum, mesh.vertices[v].sample_count), (30, 2));
    let n = mesh.normals[v];
    assert!(n.1 > 0);
    assert_eq!(n.2, 0);
    assert!(n.0 < 0);
}

#[test]
fn uniform_raster_heights_are_exact() {
    let m = raster(9, 7, |_, _| 50);
    let mesh = generate_chunk_mesh(0, 0, 4, &m).unwrap();
    for v in &mesh.vertices {
        assert!(v.sample_count >= 1);
        assert_eq!(v.sample_sum, 50 * v.sample_count);
    }
}

#[test]
fn unused_vertex_normal_falls_back_to_up() {
    // Sample (5, 2) lies past the chunk's cells but its corner (5, 2) is
    // still a vertex of the expanded lattice, with no triangle around it.
    let m = raster(8, 8, |x, z| if x == 5 && z == 2 { 30 } else if x < 4 { 30 } else { 0 });
    let mesh = generate_chunk_mesh(0, 0, 4, &m).unwrap();
    let v = vertex_index(&mesh, 5, 2).unwrap();
    assert_eq!(mesh.normals[v], (0, 1, 0));
}

#[test]
fn finalize_normal_fallback() {
    let zero: Normal = (0, 0, 0);
    assert_eq!(finalize_normal(zero), (0, 1, 0));
    assert_eq!(finalize_normal((3, -4, 5)), (3, -4, 5));
    assert_eq!(finalize_normal((0, 0, 1)), (0, 0, 1));
}

#[test]
fn seam_normals_match_between_neighbours() {
    let m = raster(8, 8, |x, z| (((x * 31 + z * 17) % 9) * 20 + 10) as u8);
    let left = generate_chunk_mesh(0, 0, 4, &m).unwrap();
    let right = generate_chunk_mesh(4, 0, 4, &m).unwrap();
    for z in 0..=4 {
        let a = vertex_index(&left, 4, z).unwrap();
        let b = vertex_index(&right, 4, z).unwrap();
        assert_eq!(left.normals[a], right.normals[b]);
    }
    let below = generate_chunk_mesh(0, 4, 4, &m).unwrap();
    for x in 0..=4 {
        let a = vertex_index(&left, x, 4).unwrap();
        let b = vertex_index(&below, x, 4).unwrap();
        assert_eq!(left.normals[a], below.normals[b]);
    }
}

#[test]
fn neighbouring_chunks_draw_disjoint_cells() {
    let m = raster(8, 8, |x, z| if (x + z) % 5 == 0 { 0 } else { 60 });
    let a = generate_chunk_mesh(0, 0, 4, &m).unwrap();
    let b = generate_chunk_mesh(4, 0, 4, &m).unwrap();
    let c = generate_chunk_mesh(0, 4, 4, &m).unwrap();
    let ca = triangle_cells(&a);
    for cell in triangle_cells(&b) {
        assert!(!ca.contains(&cell));
    }
    for cell in triangle_cells(&c) {
        assert!(!ca.contains(&cell));
    }
    assert!(ca.iter().all(|&(x, z)| x < 4 && z < 4));
}

fn flat_vertex(x: u32, z: u32, sample: u32) -> TerrainVertex {
    TerrainVertex { x, z, sample_sum: sample, sample_count: 1 }
}

#[test]
fn normals_of_isolated_vertices_are_up() {
    let verts = vec![flat_vertex(0, 0, 10), flat_vertex(3, 3, 10)];
    assert_eq!(calculate_normals(&vec![], &verts), vec![(0, 1, 0), (0, 1, 0)]);
}

#[test]
fn single_triangle_normal_exact_value() {
    // Corners (0, 0), (0, 1), (1, 0) at equal height: the face normal is the
    // cross product of two lattice steps of 120 units each.
    let verts = vec![flat_vertex(0, 0, 10), flat_vertex(0, 1, 10), flat_vertex(1, 0, 10), flat_vertex(5, 5, 10)];
    let normals = calculate_normals(&vec![0, 1, 2], &verts);
    assert_eq!(normals, vec![(0, 14400, 0), (0, 14400, 0), (0, 14400, 0), (0, 1, 0)]);
}

#[test]
fn sloped_triangle_normal_exact_value() {
    // Height of (1, 0) is 20 samples: 3 * 12 * 20 = 720 units; the others 0.
    let verts = vec![flat_vertex(0, 0, 0), flat_vertex(0, 1, 0), TerrainVertex { x: 1, z: 0, sample_sum: 40, sample_count: 2 }];
    let normals = calculate_normals(&vec![0, 1, 2], &verts);
    // u = (0, 0, 120), v = (120, 720, 0): u x v = (-86400, 14400, 0).
    assert_eq!(normals[0], (-86400, 14400, 0));
    assert_eq!(normals[2], (-86400, 14400, 0));
}
