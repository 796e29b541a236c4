use vstd::prelude::*;

use crate::fixed::{in_range, ONE};
use crate::matrix::{multiply, new_matrix4, product, Matrix, Vector2, Vector3};

verus! {

/// Rotation about the x axis by the angle whose `(cos, sin)` is `a`.
pub open spec fn rotation_x(a: Vector2) -> Matrix {
    Matrix { m: [[ONE, 0, 0, 0], [0, a.x, (-a.y) as i64, 0], [0, a.y, a.x, 0], [0, 0, 0, ONE]] }
}

/// Rotation about the y axis by the angle whose `(cos, sin)` is `a`.
pub open spec fn rotation_y(a: Vector2) -> Matrix {
    Matrix { m: [[a.x, 0, a.y, 0], [0, ONE, 0, 0], [(-a.y) as i64, 0, a.x, 0], [0, 0, 0, ONE]] }
}

/// Rotation about the z axis by the angle whose `(cos, sin)` is `a`.
pub open spec fn rotation_z(a: Vector2) -> Matrix {
    Matrix { m: [[a.x, (-a.y) as i64, 0, 0], [a.y, a.x, 0, 0], [0, 0, ONE, 0], [0, 0, 0, ONE]] }
}

/// Uniform scaling by `k`.
pub open spec fn scaling(k: i64) -> Matrix {
    Matrix { m: [[k, 0, 0, 0], [0, k, 0, 0], [0, 0, k, 0], [0, 0, 0, ONE]] }
}

/// Translation by `t`.
pub open spec fn translation(t: Vector3) -> Matrix {
    Matrix { m: [[ONE, 0, 0, t.x], [0, ONE, 0, t.y], [0, 0, ONE, t.z], [0, 0, 0, ONE]] }
}

/// The model matrix `T · Rx · (Ry · Rz) · S`: scale first, then rotate about
/// z, y and x, then translate; products are formed in this grouping.
pub open spec fn model_matrix(t: Vector3, k: i64, ax: Vector2, ay: Vector2, az: Vector2) -> Matrix {
    let r = product(rotation_x(ax), product(rotation_y(ay), rotation_z(az)));
    product(translation(t), product(r, scaling(k)))
}

pub open spec fn angle_ok(a: Vector2) -> bool {
    in_range(a.x as int) && in_range(a.y as int)
}

/// Builds the matrix that places a body: `scale`, then rotations whose
/// `(cos, sin)` pairs are `rot_x`, `rot_y`, `rot_z`, then `translation`.
pub fn create_model_matrix(translation: Vector3, scale: i64, rot_x: Vector2, rot_y: Vector2, rot_z: Vector2) -> (r:
    Matrix)
    requires
        translation.in_range(),
        in_range(scale as int),
        angle_ok(rot_x),
        angle_ok(rot_y),
        angle_ok(rot_z),
    ensures
        r == model_matrix(translation, scale, rot_x, rot_y, rot_z),
        r.in_range(),
{
    let mx = new_matrix4(
        ONE, 0, 0, 0,
        0, rot_x.x, -rot_x.y, 0,
        0, rot_x.y, rot_x.x, 0,
        0, 0, 0, ONE,
    );
    let my = new_matrix4(
        rot_y.x, 0, rot_y.y, 0,
        0, ONE, 0, 0,
        -rot_y.y, 0, rot_y.x, 0,
        0, 0, 0, ONE,
    );
    let mz = new_matrix4(
        rot_z.x, -rot_z.y, 0, 0,
        rot_z.y, rot_z.x, 0, 0,
        0, 0, ONE, 0,
        0, 0, 0, ONE,
    );
    let ms = new_matrix4(
        scale, 0, 0, 0,
        0, scale, 0, 0,
        0, 0, scale, 0,
        0, 0, 0, ONE,
    );
    let mt = new_matrix4(
        ONE, 0, 0, translation.x,
        0, ONE, 0, translation.y,
        0, 0, ONE, translation.z,
        0, 0, 0, ONE,
    );
    assert(mx.in_range() && my.in_range() && mz.in_range() && ms.in_range() && mt.in_range());
    let rotation = multiply(&mx, &multiply(&my, &mz));
    multiply(&mt, &multiply(&rotation, &ms))
}

} // verus!
