use orbit_raster::fixed::ONE;
use orbit_raster::framebuffer::{Framebuffer, Pixel, Plot, Star};
use orbit_raster::matrix::{new_matrix3, new_matrix4, multiply_matrix_vector4, Vector2, Vector3, Vector4};
use orbit_raster::pipeline::{fragment_vertex, rasterize_mesh};
use orbit_raster::triangle::triangle;
use orbit_raster::vertex::{assemble_triangles, vertex_shader, Fragment, Uniforms, Vertex};

fn screen_vertex(x: i64, y: i64, z: i64) -> Vertex {
    let p = Vector3::new(x * ONE, y * ONE, z * ONE);
    Vertex::new(p, Vector3::zero(), Vector2::new(0, 0))
}

fn identity() -> orbit_raster::matrix::Matrix {
    new_matrix3(ONE, 0, 0, 0, ONE, 0, 0, 0, ONE)
}

fn red() -> Vector3 {
    Vector3::new(ONE, 0, 0)
}

const BLACK: Pixel = Pixel { r: 0, g: 0, b: 0, a: 255 };
const RED: Pixel = Pixel { r: 255, g: 0, b: 0, a: 255 };

#[test]
fn right_triangle_covers_fifteen_points() {
    let a = screen_vertex(0, 0, 0);
    let b = screen_vertex(4, 0, 0);
    let c = screen_vertex(0, 4, 0);
    let frags = triangle(&a, &b, &c);
    let mut got: Vec<(i64, i64)> = frags.iter().map(|f| (f.x, f.y)).collect();
    got.sort();
    let mut want = Vec::new();
    for x in 0..=4i64 {
        for y in 0..=4i64 {
            if x + y <= 4 {
                want.push((x, y));
            }
        }
    }
    want.sort();
    assert_eq!(want.len(), 15);
    assert_eq!(got, want);
}

#[test]
fn fragments_stay_in_bounding_box() {
    let mk = |x: i64, y: i64| Vertex::new(Vector3::new(x, y, 0), Vector3::zero(), Vector2::new(0, 0));
    let a = mk(ONE / 2, ONE / 3);
    let b = mk(6 * ONE + ONE / 4, 2 * ONE);
    let c = mk(3 * ONE, 5 * ONE + ONE / 2);
    let frags = triangle(&a, &b, &c);
    assert!(!frags.is_empty());
    for f in &frags {
        assert!(f.x >= 0 && f.x <= 7, "x = {}", f.x);
        assert!(f.y >= 0 && f.y <= 6, "y = {}", f.y);
    }
}

#[test]
fn corner_on_grid_is_emitted() {
    let a = screen_vertex(2, 3, 0);
    let b = Vertex::new(Vector3::new(2 * ONE + ONE / 2, 3 * ONE, 0), Vector3::zero(), Vector2::new(0, 0));
    let c = Vertex::new(Vector3::new(2 * ONE, 3 * ONE + ONE / 2, 0), Vector3::zero(), Vector2::new(0, 0));
    let frags = triangle(&a, &b, &c);
    assert!(frags.iter().any(|f| f.x == 2 && f.y == 3));
}

#[test]
fn tiny_triangle_between_pixels_is_empty() {
    let mk = |x: i64, y: i64| Vertex::new(Vector3::new(x, y, 0), Vector3::zero(), Vector2::new(0, 0));
    let frags = triangle(&mk(ONE / 10, ONE / 10), &mk(ONE / 5, ONE / 10), &mk(ONE / 10, ONE / 5));
    assert!(frags.is_empty());
}

#[test]
fn depth_blends_by_edge_weights() {
    let a = screen_vertex(0, 0, 10);
    let b = screen_vertex(4, 0, 20);
    let c = screen_vertex(0, 4, 30);
    let frags = triangle(&a, &b, &c);
    let at = |x: i64, y: i64| frags.iter().find(|f| f.x == x && f.y == y).unwrap().depth;
    assert_eq!(at(0, 0), 20 * ONE);
    assert_eq!(at(4, 0), 30 * ONE);
    assert_eq!(at(0, 4), 10 * ONE);
    let flat = triangle(&screen_vertex(0, 0, 5), &screen_vertex(4, 0, 5), &screen_vertex(0, 4, 5));
    assert!(flat.iter().all(|f| f.depth == 5 * ONE));
}

#[test]
fn degenerate_triangle_on_a_line() {
    let frags = triangle(&screen_vertex(0, 0, 0), &screen_vertex(2, 0, 0), &screen_vertex(4, 0, 0));
    let mut xs: Vec<i64> = frags.iter().filter(|f| f.y == 0).map(|f| f.x).collect();
    xs.sort();
    assert_eq!(xs, vec![0, 1, 2, 3, 4]);
    assert!(frags.iter().all(|f| f.y == 0));
}

#[test]
fn perspective_divide_by_w() {
    let m = new_matrix4(
        3 * ONE, 0, 0, 0,
        0, ONE, 0, 0,
        0, 0, ONE, 0,
        0, 0, 0, 2 * ONE,
    );
    let u = Uniforms { model_matrix: m, time: 0, planet_type: 0 };
    let v = Vertex::new(Vector3::new(2 * ONE, 4 * ONE, 6 * ONE), Vector3::new(0, ONE, 0), Vector2::new(7, 8));
    let t = vertex_shader(&v, &u);
    assert_eq!(t.transformed_position, Vector3::new(3 * ONE, 2 * ONE, 3 * ONE));
    assert_eq!(t.position, v.position);
    assert_eq!(t.transformed_normal, v.normal);
    assert_eq!(t.tex_coords, v.tex_coords);
}

#[test]
fn zero_w_passes_coordinates_through() {
    let m = new_matrix4(
        3 * ONE, 0, 0, ONE,
        0, ONE, 0, 0,
        0, 0, ONE, 0,
        0, 0, 0, 0,
    );
    let u = Uniforms { model_matrix: m, time: 0, planet_type: 0 };
    let v = Vertex::new(Vector3::new(2 * ONE, 4 * ONE, 6 * ONE), Vector3::zero(), Vector2::new(0, 0));
    let t = vertex_shader(&v, &u);
    assert_eq!(t.transformed_position, Vector3::new(7 * ONE, 4 * ONE, 6 * ONE));
}

#[test]
fn translation_moves_points() {
    let m = new_matrix4(
        ONE, 0, 0, 10 * ONE,
        0, ONE, 0, -5 * ONE,
        0, 0, ONE, 0,
        0, 0, 0, ONE,
    );
    let u = Uniforms { model_matrix: m, time: 0, planet_type: 1 };
    let v = Vertex::new(Vector3::new(ONE, ONE, ONE), Vector3::zero(), Vector2::new(0, 0));
    assert_eq!(vertex_shader(&v, &u).transformed_position, Vector3::new(11 * ONE, -4 * ONE, ONE));
}

#[test]
fn matrix_times_vector_is_exact() {
    let m = new_matrix4(1, 2, 3, 4, 5, 6, 7, 8, 9, 10, 11, 12, 13, 14, 15, 16);
    let r = multiply_matrix_vector4(&m, &Vector4::new(1, 1, 1, 1));
    assert_eq!((r.x, r.y, r.z, r.w), (10, 26, 42, 58));
    let m3 = new_matrix3(1, 2, 3, 4, 5, 6, 7, 8, 9);
    assert_eq!(m3.m[3], [0, 0, 0, ONE]);
    assert_eq!(m3.m[1], [4, 5, 6, 0]);
}

#[test]
fn assembly_drops_trailing_vertices() {
    let vs: Vec<Vertex> = (0..8).map(|i| screen_vertex(i, 0, 0)).collect();
    let tris = assemble_triangles(&vs);
    assert_eq!(tris.len(), 2);
    assert_eq!(tris[1].a, vs[3]);
    assert_eq!(tris[1].c, vs[5]);
}

#[test]
fn mesh_rasterization_runs_every_stage() {
    let u = Uniforms { model_matrix: identity(), time: 0, planet_type: 0 };
    let vs = vec![screen_vertex(0, 0, 0), screen_vertex(4, 0, 0), screen_vertex(0, 4, 0), screen_vertex(9, 9, 9)];
    let frags = rasterize_mesh(&u, &vs);
    assert_eq!(frags.len(), 15);
    let sv = fragment_vertex(&frags[0]);
    assert_eq!(sv.position, Vector3::new(frags[0].x, frags[0].y, 0));
    assert_eq!(sv.transformed_position.z, frags[0].depth);
    assert_eq!(sv.normal, Vector3::new(0, ONE, 0));
}

#[test]
fn clear_point_and_clear_again() {
    let mut fb = Framebuffer::new(10, 10);
    fb.set_show_stars(false);
    fb.set_background_color(Vector3::new(0, 0, 0));
    fb.clear();
    fb.point(5, 5, red());
    for y in 0..10u32 {
        for x in 0..10u32 {
            let want = if (x, y) == (5, 5) { RED } else { BLACK };
            assert_eq!(fb.pixel(x, y), Some(want));
        }
    }
    fb.clear();
    for y in 0..10u32 {
        for x in 0..10u32 {
            assert_eq!(fb.pixel(x, y), Some(BLACK));
        }
    }
}

#[test]
fn point_outside_is_ignored() {
    let mut fb = Framebuffer::new(4, 3);
    fb.set_show_stars(false);
    fb.clear();
    let before = fb.to_rgba_bytes();
    fb.point(-1, 0, red());
    fb.point(0, -1, red());
    fb.point(4, 0, red());
    fb.point(0, 3, red());
    fb.point(i32::MAX, i32::MIN, red());
    assert_eq!(fb.to_rgba_bytes(), before);
    assert_eq!(fb.pixel(4, 0), None);
}

#[test]
fn point_clamps_channels() {
    let mut fb = Framebuffer::new(2, 2);
    fb.point(1, 1, Vector3::new(2 * ONE, -ONE, ONE / 2));
    assert_eq!(fb.pixel(1, 1), Some(Pixel { r: 255, g: 0, b: 127, a: 255 }));
}

#[test]
fn later_body_paints_over_earlier() {
    let mut fb = Framebuffer::new(8, 8);
    fb.set_show_stars(false);
    fb.clear();
    let mut a = Vec::new();
    let mut b = Vec::new();
    for y in 0..6 {
        for x in 0..6 {
            a.push(Plot { x, y, color: red() });
        }
    }
    for y in 2..4 {
        for x in 2..4 {
            b.push(Plot { x, y, color: Vector3::new(0, 0, ONE) });
        }
    }
    fb.draw_plots(&a);
    fb.draw_plots(&b);
    for y in 0..8u32 {
        for x in 0..8u32 {
            let p = fb.pixel(x, y).unwrap();
            if (2..4).contains(&x) && (2..4).contains(&y) {
                assert_eq!(p, Pixel { r: 0, g: 0, b: 255, a: 255 });
            } else if x < 6 && y < 6 {
                assert_eq!(p, RED);
            } else {
                assert_eq!(p, BLACK);
            }
        }
    }
}

#[test]
fn star_field_follows_the_generator() {
    let fb = Framebuffer::new(800, 600);
    let stars = fb.star_field();
    assert_eq!(stars.len(), 800);
    assert_eq!(stars[0], Star { x: 606, y: 575, brightness: 54 });
    assert_eq!(stars[1], Star { x: 373, y: 578, brightness: 59 });
    assert!(stars.iter().all(|s| s.x >= 0 && s.x < 800 && s.y >= 0 && s.y < 600));
    assert!(stars.iter().all(|s| (30..100).contains(&s.brightness)));
}

#[test]
fn clear_draws_stars_over_background() {
    let mut fb = Framebuffer::new(800, 600);
    fb.clear();
    let stars = fb.star_field().clone();
    let last_dim = stars.iter().rev().find(|s| s.brightness <= 80).unwrap();
    let later_hit = stars.iter().rev().take_while(|s| !std::ptr::eq(*s, last_dim)).any(|s| {
        (s.x - last_dim.x).abs() + (s.y - last_dim.y).abs() <= 1
    });
    if !later_hit {
        let b = last_dim.brightness;
        let core = Pixel { r: (255 * b / 100) as u8, g: (255 * b / 100) as u8, b: (255 * b * 9 / 1000) as u8, a: 255 };
        assert_eq!(fb.pixel(last_dim.x as u32, last_dim.y as u32), Some(core));
    }
    assert_eq!(fb.pixel(606, 575).map(|p| p.a), Some(255));
    let first = fb.pixel(606, 575).unwrap();
    assert_eq!(first, Pixel { r: 137, g: 137, b: 123, a: 255 });
}

#[test]
fn bright_star_gets_a_cross() {
    let mut fb = Framebuffer::new(800, 600);
    fb.clear();
    let stars = fb.star_field().clone();
    let n = stars.len();
    let (k, s) = stars.iter().enumerate().rev().find(|(_, s)| s.brightness > 80 && s.x > 0).unwrap();
    let near = |t: &Star| (t.x - s.x).abs() + (t.y - s.y).abs() <= 2;
    if !stars[k + 1..n].iter().any(near) {
        let b = s.brightness;
        let halo = Pixel { r: (255 * b / 200) as u8, g: (255 * b / 200) as u8, b: (255 * b * 45 / 10000) as u8, a: 255 };
        assert_eq!(fb.pixel((s.x - 1) as u32, s.y as u32), Some(halo));
    }
}

#[test]
fn background_colour_fills_buffer() {
    let mut fb = Framebuffer::new(3, 2);
    fb.set_show_stars(false);
    fb.set_background_color(Vector3::new(ONE / 2, ONE, 0));
    fb.clear();
    let bytes = fb.to_rgba_bytes();
    assert_eq!(bytes.len(), 24);
    for px in bytes.chunks(4) {
        assert_eq!(px, &[127, 255, 0, 255]);
    }
}

#[test]
fn rgba_bytes_follow_rows() {
    let mut fb = Framebuffer::new(3, 2);
    fb.set_show_stars(false);
    fb.clear();
    fb.point(2, 1, red());
    let bytes = fb.to_rgba_bytes();
    assert_eq!(&bytes[20..24], &[255, 0, 0, 255]);
    assert_eq!(&bytes[0..4], &[0, 0, 0, 255]);
}

#[test]
fn fragment_constructor_keeps_fields() {
    let f = Fragment::new(3, 4, red(), 9);
    assert_eq!((f.x, f.y, f.depth, f.color), (3, 4, 9, red()));
}
