use orbit_raster::fixed::{LIMIT, ONE};
use orbit_raster::matrix::{multiply, new_matrix3, new_matrix4, Vector2, Vector3};
use orbit_raster::transform::create_model_matrix;
use orbit_raster::vertex::{vertex_shader, Uniforms, Vertex};

fn no_turn() -> Vector2 {
    Vector2::new(ONE, 0)
}

fn place(m: orbit_raster::matrix::Matrix, p: Vector3) -> Vector3 {
    let u = Uniforms { model_matrix: m, time: 0, planet_type: 0 };
    vertex_shader(&Vertex::new(p, Vector3::zero(), Vector2::new(0, 0)), &u).transformed_position
}

#[test]
fn product_with_identity_is_unchanged() {
    let a = new_matrix4(ONE, 2 * ONE, 0, 5, -ONE, 0, 3, 0, 0, 0, ONE, 0, 0, 0, 0, ONE);
    let id = new_matrix3(ONE, 0, 0, 0, ONE, 0, 0, 0, ONE);
    assert_eq!(multiply(&a, &id).m, a.m);
    assert_eq!(multiply(&id, &a).m, a.m);
}

#[test]
fn product_rounds_down_and_saturates() {
    let half = new_matrix3(ONE / 2, 0, 0, 0, ONE / 2, 0, 0, 0, ONE / 2);
    let odd = new_matrix4(3, 0, 0, 0, 0, -3, 0, 0, 0, 0, 1, 0, 0, 0, 0, ONE);
    let p = multiply(&half, &odd);
    assert_eq!(p.m[0][0], 1);
    assert_eq!(p.m[1][1], -2);
    assert_eq!(p.m[2][2], 0);
    let big = new_matrix3(LIMIT, 0, 0, 0, ONE, 0, 0, 0, ONE);
    assert_eq!(multiply(&big, &big).m[0][0], LIMIT);
}

#[test]
fn model_matrix_scales_then_translates() {
    let m = create_model_matrix(Vector3::new(5 * ONE, 0, -ONE), 2 * ONE, no_turn(), no_turn(), no_turn());
    assert_eq!(
        m.m,
        [
            [2 * ONE, 0, 0, 5 * ONE],
            [0, 2 * ONE, 0, 0],
            [0, 0, 2 * ONE, -ONE],
            [0, 0, 0, ONE],
        ]
    );
    assert_eq!(place(m, Vector3::new(ONE, ONE, ONE)), Vector3::new(7 * ONE, 2 * ONE, ONE));
}

#[test]
fn model_matrix_rotates_about_z() {
    let quarter = Vector2::new(0, ONE);
    let m = create_model_matrix(Vector3::zero(), ONE, no_turn(), no_turn(), quarter);
    assert_eq!(place(m, Vector3::new(ONE, 0, 0)), Vector3::new(0, ONE, 0));
    let mx = create_model_matrix(Vector3::zero(), ONE, quarter, no_turn(), no_turn());
    assert_eq!(place(mx, Vector3::new(0, ONE, 0)), Vector3::new(0, 0, ONE));
    let my = create_model_matrix(Vector3::zero(), ONE, no_turn(), quarter, no_turn());
    assert_eq!(place(my, Vector3::new(ONE, 0, 0)), Vector3::new(0, 0, -ONE));
}
