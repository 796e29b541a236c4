use vstd::prelude::*;

use crate::fixed::ONE;
use crate::matrix::{Matrix, Vector2, Vector3};
use crate::triangle::{corners, triangle};
use crate::vertex::{
    assemble_triangles, assembled, transform_point, vertex_shader, Fragment, Triangle, Uniforms, Vertex,
};

verus! {

/// `v` moved by the model matrix `m`, as `vertex_shader` leaves it.
pub open spec fn moved(v: Vertex, m: Matrix) -> Vertex {
    Vertex { transformed_position: transform_point(m, v.position), transformed_normal: v.normal, ..v }
}

/// Every vertex of the stream moved by `m`.
pub open spec fn moved_all(vs: Seq<Vertex>, m: Matrix) -> Seq<Vertex> {
    Seq::new(vs.len(), |i: int| moved(vs[i], m))
}

/// The fragments of the triangles, one triangle after another.
pub open spec fn fragments_of(tris: Seq<Triangle>) -> Seq<Fragment>
    decreases tris.len(),
{
    if tris.len() == 0 {
        seq![]
    } else {
        let t = tris.last();
        fragments_of(tris.drop_last()) + corners(t.a, t.b, t.c).fragments()
    }
}

/// The fragments of a vertex stream drawn with `uniforms`: move every vertex,
/// group the stream into triangles and scan-convert them in order.
pub open spec fn mesh_fragments(uniforms: Uniforms, vs: Seq<Vertex>) -> Seq<Fragment> {
    fragments_of(assembled(moved_all(vs, uniforms.model_matrix)))
}

/// Runs the geometry stages for one body: the vertex stage, primitive
/// assembly and rasterization. Shading and writing the pixels follow.
pub fn rasterize_mesh(uniforms: &Uniforms, vertex_array: &Vec<Vertex>) -> (r: Vec<Fragment>)
    requires
        uniforms.model_matrix.in_range(),
        forall|k: int| 0 <= k < vertex_array@.len() ==> (#[trigger] vertex_array@[k]).position.in_range(),
    ensures
        r@ == mesh_fragments(*uniforms, vertex_array@),
{
    let mut moved_vs: Vec<Vertex> = Vec::with_capacity(vertex_array.len());
    let mut i: usize = 0;
    while i < vertex_array.len()
        invariant
            uniforms.model_matrix.in_range(),
            forall|k: int| 0 <= k < vertex_array@.len() ==> (#[trigger] vertex_array@[k]).position.in_range(),
            i <= vertex_array@.len(),
            moved_vs@ == moved_all(vertex_array@, uniforms.model_matrix).take(i as int),
            forall|k: int| 0 <= k < i ==> (#[trigger] moved_vs@[k]).in_range(),
        decreases vertex_array@.len() - i,
    {
        let v = vertex_shader(&vertex_array[i], uniforms);
        assert(v == moved(vertex_array@[i as int], uniforms.model_matrix));
        moved_vs.push(v);
        assert(moved_all(vertex_array@, uniforms.model_matrix).take(i + 1) =~= moved_all(
            vertex_array@,
            uniforms.model_matrix,
        ).take(i as int).push(v));
        i = i + 1;
    }
    assert(moved_all(vertex_array@, uniforms.model_matrix).take(i as int) =~= moved_all(
        vertex_array@,
        uniforms.model_matrix,
    ));
    let tris = assemble_triangles(&moved_vs);
    let mut out: Vec<Fragment> = Vec::new();
    let mut t: usize = 0;
    while t < tris.len()
        invariant
            tris@ == assembled(moved_vs@),
            forall|k: int| 0 <= k < moved_vs@.len() ==> (#[trigger] moved_vs@[k]).in_range(),
            t <= tris@.len(),
            out@ == fragments_of(tris@.take(t as int)),
        decreases tris@.len() - t,
    {
        let tri = tris[t];
        proof {
            assert(tri.a == moved_vs@[3 * t as int]);
            assert(tri.b == moved_vs@[3 * t + 1]);
            assert(tri.c == moved_vs@[3 * t + 2]);
        }
        let mut f = triangle(&tri.a, &tri.b, &tri.c);
        out.append(&mut f);
        proof {
            let s = tris@.take(t + 1);
            assert(s.drop_last() =~= tris@.take(t as int));
            assert(s.last() == tri);
        }
        t = t + 1;
    }
    assert(tris@.take(t as int) =~= tris@);
    out
}

/// The vertex that shading reads for a fragment: the fragment's pixel as its
/// position, its pixel and depth as its transformed position, an upward
/// normal, no texture coordinates and the fragment's colour.
pub open spec fn surface_vertex(f: Fragment) -> Vertex {
    Vertex {
        position: Vector3 { x: f.x, y: f.y, z: 0 },
        normal: Vector3 { x: 0, y: ONE, z: 0 },
        tex_coords: Vector2 { x: 0, y: 0 },
        color: f.color,
        transformed_position: Vector3 { x: f.x, y: f.y, z: f.depth },
        transformed_normal: Vector3 { x: 0, y: ONE, z: 0 },
    }
}

/// Builds the vertex that shading reads for fragment `f` (see `surface_vertex`).
pub fn fragment_vertex(f: &Fragment) -> (r: Vertex)
    ensures
        r == surface_vertex(*f),
{
    Vertex {
        position: Vector3 { x: f.x, y: f.y, z: 0 },
        normal: Vector3 { x: 0, y: ONE, z: 0 },
        tex_coords: Vector2 { x: 0, y: 0 },
        color: f.color,
        transformed_position: Vector3 { x: f.x, y: f.y, z: f.depth },
        transformed_normal: Vector3 { x: 0, y: ONE, z: 0 },
    }
}

} // verus!
