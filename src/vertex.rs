use vstd::prelude::*;

use crate::fixed::{abs, clamp_spec, in_range, saturate, LIMIT, ONE};
use crate::matrix::{multiply_matrix_vector4, Matrix, Vector2, Vector3, Vector4, Wide4};

verus! {

/// A mesh vertex. `transformed_position` and `transformed_normal` are filled
/// in by `vertex_shader`; the other fields describe the untransformed model.
#[derive(Clone, Copy, Debug, PartialEq, Eq, Structural)]
pub struct Vertex {
    pub position: Vector3,
    pub normal: Vector3,
    pub tex_coords: Vector2,
    pub color: Vector3,
    pub transformed_position: Vector3,
    pub transformed_normal: Vector3,
}

/// One covered pixel: its column `x` and row `y` in whole pixels, its
/// interpolated depth in fixed-point units, and a colour that shading replaces.
#[derive(Clone, Copy, Debug, PartialEq, Eq, Structural)]
pub struct Fragment {
    pub x: i64,
    pub y: i64,
    pub depth: i64,
    pub color: Vector3,
}

/// What one draw call reads: the model matrix, the elapsed time in
/// fixed-point seconds, and the tag that picks the surface material.
#[derive(Clone, Copy, Debug)]
pub struct Uniforms {
    pub model_matrix: Matrix,
    pub time: i64,
    pub planet_type: u32,
}

/// Three consecutive vertices of a stream.
#[derive(Clone, Copy, Debug, PartialEq, Eq, Structural)]
pub struct Triangle {
    pub a: Vertex,
    pub b: Vertex,
    pub c: Vertex,
}

impl Vertex {
    /// A vertex at `position` whose transformed copy is still the original and
    /// whose base colour is white.
    pub fn new(position: Vector3, normal: Vector3, tex_coords: Vector2) -> (r: Vertex)
        ensures
            r.position == position,
            r.normal == normal,
            r.tex_coords == tex_coords,
            r.color == (Vector3 { x: ONE, y: ONE, z: ONE }),
            r.transformed_position == position,
            r.transformed_normal == normal,
    {
        Vertex {
            position,
            normal,
            tex_coords,
            color: Vector3 { x: ONE, y: ONE, z: ONE },
            transformed_position: position,
            transformed_normal: normal,
        }
    }

    pub open spec fn in_range(self) -> bool {
        self.position.in_range() && self.transformed_position.in_range()
    }
}

impl Fragment {
    pub fn new(x: i64, y: i64, color: Vector3, depth: i64) -> (r: Fragment)
        ensures
            r.x == x,
            r.y == y,
            r.color == color,
            r.depth == depth,
    {
        Fragment { x, y, depth, color }
    }
}

/// The perspective divide of one component `c` by `w`, both in `ONE * ONE`
/// units, giving fixed-point units: `c / w` where `w` is not zero, and `c`
/// itself where it is. The result saturates at the coordinate range.
pub open spec fn divide_component(c: int, w: int) -> int {
    if w != 0 {
        clamp_spec((c * ONE) / w)
    } else {
        clamp_spec(c / (ONE as int))
    }
}

/// The homogeneous form of `p`, with `w` equal to one.
pub open spec fn lift(p: Vector3) -> Vector4 {
    Vector4 { x: p.x, y: p.y, z: p.z, w: ONE }
}

/// Where the model matrix `m` takes the point `p`, after the perspective divide.
pub open spec fn transform_point(m: Matrix, p: Vector3) -> Vector3 {
    let v = lift(p);
    let w = m.row_dot(3, v);
    Vector3 {
        x: divide_component(m.row_dot(0, v), w) as i64,
        y: divide_component(m.row_dot(1, v), w) as i64,
        z: divide_component(m.row_dot(2, v), w) as i64,
    }
}

fn divide(c: i128, w: i128) -> (r: i64)
    requires
        -0x1_0000_0000_0000_0000_0000_0000 <= c <= 0x1_0000_0000_0000_0000_0000_0000,
    ensures
        r == divide_component(c as int, w as int),
{
    if w != 0 {
        assert(-0x1_0000_0000_0000_0000_0000_0000_0000 <= c * 65536 <= 0x1_0000_0000_0000_0000_0000_0000_0000)
            by (nonlinear_arith)
            requires
                -0x1_0000_0000_0000_0000_0000_0000 <= c <= 0x1_0000_0000_0000_0000_0000_0000;
        let n: i128 = c * (ONE as i128);
        proof {
            let ni = n as int;
            let wi = w as int;
            assert(-abs(ni) <= ni / wi <= abs(ni)) by (nonlinear_arith)
                requires wi != 0;
        }
        match n.checked_div_euclid(w) {
            Some(q) => saturate(q),
            None => 0,
        }
    } else {
        proof {
            let ci = c as int;
            assert(-abs(ci) <= ci / 65536 <= abs(ci)) by (nonlinear_arith);
        }
        match c.checked_div_euclid(ONE as i128) {
            Some(q) => saturate(q),
            None => 0,
        }
    }
}

/// Moves a vertex by the model matrix of `uniforms`: the position is lifted to
/// homogeneous form, multiplied by the matrix and divided by `w` (see
/// `transform_point`). Everything else is copied; the normal is not
/// transformed.
pub fn vertex_shader(vertex: &Vertex, uniforms: &Uniforms) -> (r: Vertex)
    requires
        vertex.position.in_range(),
        uniforms.model_matrix.in_range(),
    ensures
        r.position == vertex.position,
        r.normal == vertex.normal,
        r.tex_coords == vertex.tex_coords,
        r.color == vertex.color,
        r.transformed_position == transform_point(uniforms.model_matrix, vertex.position),
        r.transformed_normal == vertex.normal,
        r.in_range(),
{
    let h = Vector4 { x: vertex.position.x, y: vertex.position.y, z: vertex.position.z, w: ONE };
    let t: Wide4 = multiply_matrix_vector4(&uniforms.model_matrix, &h);
    proof {
        let l = LIMIT as int;
        let m = uniforms.model_matrix;
        assert forall|r: int, c: int| 0 <= r < 4 && 0 <= c < 4 implies -l <= #[trigger] m.at(r, c) <= l by {}
        assert forall|r: int| 0 <= r < 4 implies -4 * l * l <= #[trigger] m.row_dot(r, h) <= 4 * l * l by {
            let (a0, a1, a2, a3) = (m.at(r, 0), m.at(r, 1), m.at(r, 2), m.at(r, 3));
            let (x, y, z, w) = (h.x as int, h.y as int, h.z as int, h.w as int);
            assert(-l * l <= a0 * x <= l * l) by (nonlinear_arith) requires -l <= a0 <= l, -l <= x <= l;
            assert(-l * l <= a1 * y <= l * l) by (nonlinear_arith) requires -l <= a1 <= l, -l <= y <= l;
            assert(-l * l <= a2 * z <= l * l) by (nonlinear_arith) requires -l <= a2 <= l, -l <= z <= l;
            assert(-l * l <= a3 * w <= l * l) by (nonlinear_arith) requires -l <= a3 <= l, -l <= w <= l;
        }
        assert(-4 * l * l <= m.row_dot(0, h) <= 4 * l * l);
        assert(-4 * l * l <= m.row_dot(1, h) <= 4 * l * l);
        assert(-4 * l * l <= m.row_dot(2, h) <= 4 * l * l);
    }
    let p = Vector3 { x: divide(t.x, t.w), y: divide(t.y, t.w), z: divide(t.z, t.w) };
    Vertex {
        position: vertex.position,
        normal: vertex.normal,
        tex_coords: vertex.tex_coords,
        color: vertex.color,
        transformed_position: p,
        transformed_normal: vertex.normal,
    }
}

/// The triangles of a vertex stream: entries `3i`, `3i + 1`, `3i + 2` form
/// triangle `i`; one or two trailing vertices are dropped.
pub open spec fn assembled(vs: Seq<Vertex>) -> Seq<Triangle> {
    Seq::new(
        vs.len() / 3,
        |i: int| Triangle { a: vs[3 * i], b: vs[3 * i + 1], c: vs[3 * i + 2] },
    )
}

/// Groups a stream of transformed vertices into triangles, three at a time
/// and in order.
pub fn assemble_triangles(vertices: &Vec<Vertex>) -> (r: Vec<Triangle>)
    ensures
        r@ == assembled(vertices@),
{
    let mut out: Vec<Triangle> = Vec::new();
    let n = vertices.len();
    let mut i: usize = 0;
    while n - i > 2
        invariant
            n == vertices@.len(),
            i == 3 * out@.len(),
            i <= n,
            forall|k: int| 0 <= k < out@.len() ==> out@[k] == #[trigger] assembled(vertices@)[k],
        decreases n - i,
    {
        out.push(Triangle { a: vertices[i], b: vertices[i + 1], c: vertices[i + 2] });
        i = i + 3;
    }
    assert(out@ =~= assembled(vertices@));
    out
}

/// The perspective divide: where the transformed `w` is not zero, each
/// transformed coordinate is the pre-divide coordinate divided by `w`; where
/// `w` is zero, it is the pre-divide coordinate itself. Both hold wherever the
/// result lies in the coordinate range.
pub proof fn lemma_perspective_divide(m: Matrix, p: Vector3)
    ensures
        ({
            let v = lift(p);
            let (x, y, z, w) = (m.row_dot(0, v), m.row_dot(1, v), m.row_dot(2, v), m.row_dot(3, v));
            let q = transform_point(m, p);
            &&& w != 0 && in_range((x * ONE) / w) ==> q.x == (x * ONE) / w
            &&& w != 0 && in_range((y * ONE) / w) ==> q.y == (y * ONE) / w
            &&& w != 0 && in_range((z * ONE) / w) ==> q.z == (z * ONE) / w
            &&& w == 0 && in_range(x / (ONE as int)) ==> q.x == x / (ONE as int)
            &&& w == 0 && in_range(y / (ONE as int)) ==> q.y == y / (ONE as int)
            &&& w == 0 && in_range(z / (ONE as int)) ==> q.z == z / (ONE as int)
        }),
{
}

} // verus!
