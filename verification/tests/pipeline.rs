use lowpoly::Point;
use lowpoly::buffer::{Color, PixelBuffer};
use lowpoly::colorpick::compute_color;
use lowpoly::compose::compute_image;
use lowpoly::density::{DensityField, GradientGrid, calculate_density};
use lowpoly::mesh::{MeshError, Triangle, build_mesh};
use lowpoly::randsrc::seed_rng;
use lowpoly::raster::fill_triangle;
use lowpoly::sampler::{boundary_points, collect_candidates, sample_points, select_points};
use lowpoly::{BORDER_SEGMENTS, EDGE_THRESHOLD, MAX_POINTS};

fn uniform(w: usize, h: usize, c: Color) -> PixelBuffer {
    PixelBuffer::new_filled(w, h, c)
}

fn red() -> Color {
    Color { r: 255, g: 0, b: 0 }
}

fn black() -> Color {
    Color { r: 0, g: 0, b: 0 }
}

fn field_all(w: usize, h: usize, v: u32) -> DensityField {
    DensityField { width: w, height: h, values: vec![v; w * h] }
}

/// Independent same-side point-in-triangle reference: sign of each edge
/// cross product against the opposite vertex, strict for interior.
fn cross(ax: i64, ay: i64, bx: i64, by: i64, px: i64, py: i64) -> i64 {
    (bx - ax) * (py - ay) - (by - ay) * (px - ax)
}

fn reference_strictly_inside(a: Point, b: Point, c: Point, x: i64, y: i64) -> bool {
    let s0 = cross(a.x as i64, a.y as i64, b.x as i64, b.y as i64, x, y);
    let r0 = cross(a.x as i64, a.y as i64, b.x as i64, b.y as i64, c.x as i64, c.y as i64);
    let s1 = cross(b.x as i64, b.y as i64, c.x as i64, c.y as i64, x, y);
    let r1 = cross(b.x as i64, b.y as i64, c.x as i64, c.y as i64, a.x as i64, a.y as i64);
    let s2 = cross(c.x as i64, c.y as i64, a.x as i64, a.y as i64, x, y);
    let r2 = cross(c.x as i64, c.y as i64, a.x as i64, a.y as i64, b.x as i64, b.y as i64);
    (s0 * r0 > 0) && (s1 * r1 > 0) && (s2 * r2 > 0)
}

fn reference_strictly_outside(a: Point, b: Point, c: Point, x: i64, y: i64) -> bool {
    let s0 = cross(a.x as i64, a.y as i64, b.x as i64, b.y as i64, x, y);
    let r0 = cross(a.x as i64, a.y as i64, b.x as i64, b.y as i64, c.x as i64, c.y as i64);
    let s1 = cross(b.x as i64, b.y as i64, c.x as i64, c.y as i64, x, y);
    let r1 = cross(b.x as i64, b.y as i64, c.x as i64, c.y as i64, a.x as i64, a.y as i64);
    let s2 = cross(c.x as i64, c.y as i64, a.x as i64, a.y as i64, x, y);
    let r2 = cross(c.x as i64, c.y as i64, a.x as i64, a.y as i64, b.x as i64, b.y as i64);
    (s0 * r0 < 0) || (s1 * r1 < 0) || (s2 * r2 < 0)
}

#[test]
fn sampled_interior_count_is_capped() {
    // 16x16 image: desired = min(MAX_POINTS, 256 / 10) = 25, candidates 196.
    let f = field_all(14, 14, EDGE_THRESHOLD + 1);
    let mut rng = seed_rng(7);
    let pts = select_points(&f, 16, 16, &mut rng);
    let boundary = 4 + 4 * (BORDER_SEGMENTS - 1);
    assert_eq!(pts.len(), 25 + boundary);
    assert!(pts.len() - boundary <= MAX_POINTS.min(16 * 16 / 10));
}

#[test]
fn sampled_count_takes_all_when_candidates_are_few() {
    let mut vals = vec![0u32; 14 * 14];
    vals[0] = EDGE_THRESHOLD + 5;
    vals[7] = EDGE_THRESHOLD + 5;
    let f = DensityField { width: 14, height: 14, values: vals };
    let mut rng = seed_rng(3);
    let pts = select_points(&f, 16, 16, &mut rng);
    assert_eq!(pts.len(), 2 + 4 + 4 * (BORDER_SEGMENTS - 1));
}

#[test]
fn point_set_contains_exact_corners() {
    let f = field_all(6, 4, EDGE_THRESHOLD + 1);
    let mut rng = seed_rng(11);
    let pts = select_points(&f, 8, 6, &mut rng);
    for corner in [(0, 0), (7, 0), (0, 5), (7, 5)] {
        assert!(pts.iter().any(|p| p.x == corner.0 && p.y == corner.1));
    }
}

#[test]
fn raster_matches_reference_inside_and_outside() {
    let a = Point::new(2, 1);
    let b = Point::new(12, 3);
    let c = Point::new(5, 11);
    let mut buf = uniform(16, 16, black());
    fill_triangle(&mut buf, a, b, c, red());
    for y in 0..16usize {
        for x in 0..16usize {
            let painted = buf.get(x, y) == red();
            if reference_strictly_inside(a, b, c, x as i64, y as i64) {
                assert!(painted, "interior pixel ({x},{y}) not filled");
            }
            if reference_strictly_outside(a, b, c, x as i64, y as i64) {
                assert!(!painted, "exterior pixel ({x},{y}) filled");
            }
        }
    }
}

#[test]
fn shared_edge_leaves_no_gap() {
    // Two triangles sharing the diagonal of a square: every pixel of the
    // square is painted by the pair.
    let a = Point::new(0, 0);
    let b = Point::new(9, 0);
    let c = Point::new(0, 9);
    let d = Point::new(9, 9);
    let mut buf = uniform(10, 10, black());
    fill_triangle(&mut buf, a, b, c, red());
    let green = Color { r: 0, g: 255, b: 0 };
    fill_triangle(&mut buf, b, d, c, green);
    for y in 0..10usize {
        for x in 0..10usize {
            assert!(buf.get(x, y) != black(), "gap at ({x},{y})");
        }
    }
}

#[test]
fn collinear_triangle_fills_nothing() {
    let mut buf = uniform(8, 8, black());
    fill_triangle(&mut buf, Point::new(1, 1), Point::new(3, 3), Point::new(6, 6), red());
    for y in 0..8usize {
        for x in 0..8usize {
            assert_eq!(buf.get(x, y), black());
        }
    }
}

#[test]
fn centroid_color_is_clamped_to_bounds() {
    let mut src = uniform(3, 3, black());
    src.set(2, 2, red());
    // Centroid truncates to exactly (width - 1, height - 1).
    let col = compute_color(Point::new(2, 2), Point::new(2, 2), Point::new(2, 2), &src);
    assert_eq!(col, red());
    // Centroid far past the last column and row clamps back inside.
    let col2 = compute_color(Point::new(100, 100), Point::new(200, 300), Point::new(50, 80), &src);
    assert_eq!(col2, red());
}

#[test]
fn centroid_color_exact_value() {
    let mut src = uniform(4, 4, black());
    src.set(1, 2, red());
    // Mean of (0,0), (2,3), (2,4) truncates to (1, 2).
    let col = compute_color(Point::new(0, 0), Point::new(2, 3), Point::new(2, 4), &src);
    assert_eq!(col, red());
}

#[test]
fn density_is_mean_of_nine_neighbors() {
    // 3x3 grid: one interior cell whose density is the mean of all nine.
    let mags: Vec<u32> = vec![9, 18, 27, 36, 45, 54, 63, 72, 82];
    let g = GradientGrid { width: 3, height: 3, mags };
    let d = calculate_density(&g);
    assert_eq!(d.width, 1);
    assert_eq!(d.height, 1);
    let sum: u64 = 9 + 18 + 27 + 36 + 45 + 54 + 63 + 72 + 82;
    assert_eq!(d.values[0] as u64, sum / 9);
}

#[test]
fn tiny_image_has_empty_density_field_and_no_candidates() {
    let g = GradientGrid { width: 2, height: 2, mags: vec![u32::MAX; 4] };
    let d = calculate_density(&g);
    assert_eq!(d.width, 0);
    assert_eq!(d.height, 0);
    let cands = collect_candidates(&d, EDGE_THRESHOLD);
    assert!(cands.is_empty());
}

#[test]
fn uniform_two_by_two_renders_uniformly() {
    // End to end on a uniform 2x2 image: empty density field, boundary-only
    // point set, a two-triangle cover of the square, every pixel the source
    // color.
    let g = GradientGrid { width: 2, height: 2, mags: vec![0; 4] };
    let d = calculate_density(&g);
    let mut rng = seed_rng(5);
    let pts = select_points(&d, 2, 2, &mut rng);
    assert_eq!(pts.len(), 4 + 4 * (BORDER_SEGMENTS - 1));
    let idx = |x: i32, y: i32| pts.iter().position(|p| p.x == x && p.y == y).unwrap();
    let tris = vec![
        Triangle { v0: idx(0, 0), v1: idx(1, 0), v2: idx(0, 1) },
        Triangle { v0: idx(1, 0), v1: idx(1, 1), v2: idx(0, 1) },
    ];
    let mesh = build_mesh(tris, pts.len()).unwrap();
    let src = uniform(2, 2, red());
    let out = compute_image(&pts, &mesh, &src, black());
    assert_eq!(out.width, 2);
    assert_eq!(out.height, 2);
    for y in 0..2usize {
        for x in 0..2usize {
            assert_eq!(out.get(x, y), red(), "pixel ({x},{y}) not covered");
        }
    }
}

#[test]
fn same_seed_gives_identical_point_sets() {
    let f = field_all(30, 30, EDGE_THRESHOLD + 1);
    let mut rng1 = seed_rng(1234);
    let mut rng2 = seed_rng(1234);
    let pts1 = select_points(&f, 32, 32, &mut rng1);
    let pts2 = select_points(&f, 32, 32, &mut rng2);
    assert_eq!(pts1.len(), pts2.len());
    for i in 0..pts1.len() {
        assert_eq!(pts1[i], pts2[i]);
    }
    // Different seeds never change the point-set length.
    let mut rng3 = seed_rng(99);
    let pts3 = select_points(&f, 32, 32, &mut rng3);
    assert_eq!(pts1.len(), pts3.len());
}

#[test]
fn sample_points_draws_exact_count_from_candidates() {
    let cands: Vec<Point> = (0..20).map(|i| Point::new(i, i + 1)).collect();
    let mut rng = seed_rng(8);
    let picked = sample_points(cands.clone(), 5, &mut rng);
    assert_eq!(picked.len(), 5);
    for p in &picked {
        assert!(cands.iter().any(|q| q == p));
    }
    let mut rng2 = seed_rng(8);
    let all = sample_points(cands.clone(), 50, &mut rng2);
    assert_eq!(all.len(), 20);
}

#[test]
fn boundary_points_shape() {
    let b = boundary_points(13, 7);
    assert_eq!(b.len(), 4 + 4 * (BORDER_SEGMENTS - 1));
    assert_eq!((b[0].x, b[0].y), (0, 0));
    assert_eq!((b[1].x, b[1].y), (12, 0));
    assert_eq!((b[2].x, b[2].y), (0, 6));
    assert_eq!((b[3].x, b[3].y), (12, 6));
    // Subdivision 6 of 12 along a 12-long edge sits exactly at 6.
    assert_eq!((b[4 * 6].x, b[4 * 6].y), (6, 0));
    for p in &b {
        assert!(p.x >= 0 && p.x <= 12 && p.y >= 0 && p.y <= 6);
    }
}

#[test]
fn mesh_rejects_too_few_points() {
    let r = build_mesh(vec![], 2);
    assert_eq!(r, Err(MeshError::TooFewPoints));
}

#[test]
fn mesh_rejects_bad_triangle() {
    let bad = vec![Triangle { v0: 0, v1: 1, v2: 3 }];
    assert_eq!(build_mesh(bad, 3), Err(MeshError::InvalidTriangle));
    let dup = vec![Triangle { v0: 0, v1: 1, v2: 1 }];
    assert_eq!(build_mesh(dup, 3), Err(MeshError::InvalidTriangle));
    let good = vec![Triangle { v0: 0, v1: 1, v2: 2 }];
    assert!(build_mesh(good, 3).is_ok());
}

#[test]
fn triangulated_pipeline_covers_frame() {
    // Full pipeline with the real triangulator: a 12x12 image with edges,
    // triangulated point set, every pixel painted (no background leaks).
    let f = field_all(10, 10, EDGE_THRESHOLD + 1);
    let mut rng = seed_rng(21);
    let pts = select_points(&f, 12, 12, &mut rng);
    let tp: Vec<rtriangulate::TriangulationPoint<f32>> = pts
        .iter()
        .map(|p| rtriangulate::TriangulationPoint::new(p.x as f32, p.y as f32))
        .collect();
    let raw = rtriangulate::triangulate(&tp).expect("triangulation failed");
    let tris: Vec<Triangle> =
        raw.iter().map(|t| Triangle { v0: t.0, v1: t.1, v2: t.2 }).collect();
    let mesh = build_mesh(tris, pts.len()).unwrap();
    let src = uniform(12, 12, red());
    let out = compute_image(&pts, &mesh, &src, black());
    for y in 0..12usize {
        for x in 0..12usize {
            assert_eq!(out.get(x, y), red(), "background leaked at ({x},{y})");
        }
    }
}
