use vstd::prelude::*;

use crate::fixed::{abs, in_range, LIMIT, ONE};
use crate::matrix::{Vector2, Vector3};
use crate::texture::{unit_color, white, Texture};
use crate::vertex::Vertex;

verus! {

/// Surface colours of one material, in fixed-point units.
#[derive(Clone, Debug)]
pub struct Material {
    pub name: String,
    pub ambient: Vector3,
    pub diffuse: Vector3,
    pub specular: Vector3,
    pub shininess: i64,
    pub texture_path: Option<String>,
}

/// One sub-model as the mesh reader hands it over: three coordinates per
/// vertex, optional normals (three per vertex) and texture coordinates (two
/// per vertex), all in fixed-point units, the triangle indices, and the
/// index of its material if it has one.
#[derive(Clone, Debug)]
pub struct RawModel {
    pub positions: Vec<i64>,
    pub normals: Vec<i64>,
    pub texcoords: Vec<i64>,
    pub indices: Vec<u32>,
    pub material_id: Option<usize>,
}

/// A loaded model: its normalised vertices with baked colours, the triangle
/// index list, the materials, the material of each sub-model, and the
/// texture if one was found.
pub struct Obj {
    pub vertices: Vec<Vertex>,
    pub indices: Vec<u32>,
    pub materials: Vec<Material>,
    pub mesh_materials: Vec<Option<usize>>,
    pub texture: Option<Texture>,
}

/// Why the mesh data cannot be used.
#[derive(Clone, Copy, Debug, PartialEq, Eq, Structural)]
pub enum MeshError {
    /// Normals or texture coordinates are too few for the vertices, a value
    /// lies outside the coordinate range, or an index names no vertex.
    Malformed,
}

/// Ambient colour of a material that gives none: 0.2 grey.
pub const DEFAULT_AMBIENT: i64 = 13107;

/// Shininess of a material that gives none.
pub const DEFAULT_SHININESS: i64 = 2097152;

impl Material {
    /// A material from what the material file gave, with defaults for what it
    /// left out: ambient 0.2 grey, diffuse and specular white, shininess 32.
    pub fn resolve(
        name: String,
        ambient: Option<Vector3>,
        diffuse: Option<Vector3>,
        specular: Option<Vector3>,
        shininess: Option<i64>,
        texture_path: Option<String>,
    ) -> (r: Material)
        ensures
            r.name@ == name@,
            r.ambient == (match ambient {
                Some(c) => c,
                None => Vector3 { x: DEFAULT_AMBIENT, y: DEFAULT_AMBIENT, z: DEFAULT_AMBIENT },
            }),
            r.diffuse == (match diffuse {
                Some(c) => c,
                None => white(),
            }),
            r.specular == (match specular {
                Some(c) => c,
                None => white(),
            }),
            r.shininess == (match shininess {
                Some(s) => s,
                None => DEFAULT_SHININESS,
            }),
            r.texture_path == texture_path,
    {
        let ambient = match ambient {
            Some(c) => c,
            None => Vector3 { x: DEFAULT_AMBIENT, y: DEFAULT_AMBIENT, z: DEFAULT_AMBIENT },
        };
        let diffuse = match diffuse {
            Some(c) => c,
            None => Vector3 { x: ONE, y: ONE, z: ONE },
        };
        let specular = match specular {
            Some(c) => c,
            None => Vector3 { x: ONE, y: ONE, z: ONE },
        };
        let shininess = match shininess {
            Some(s) => s,
            None => DEFAULT_SHININESS,
        };
        Material { name, ambient, diffuse, specular, shininess, texture_path }
    }
}

/// Within 0.01 of one.
pub open spec fn near_one(c: int) -> bool {
    -655 < c - ONE < 655
}

/// The colour a sub-model's vertices start from: its material's diffuse
/// colour, or the ambient colour where the diffuse colour is white (within
/// 0.01 on each channel); white without a usable material.
pub open spec fn base_color(material_id: Option<usize>, materials: Seq<Material>) -> Vector3 {
    match material_id {
        Some(i) => if i < materials.len() {
            let d = materials[i as int].diffuse;
            if near_one(d.x as int) && near_one(d.y as int) && near_one(d.z as int) {
                materials[i as int].ambient
            } else {
                d
            }
        } else {
            white()
        },
        None => white(),
    }
}

/// 70% of texture colour `t` and 30% of material colour `m`.
pub open spec fn blend(t: Vector3, m: Vector3) -> Vector3 {
    Vector3 {
        x: ((7 * t.x + 3 * m.x) / 10) as i64,
        y: ((7 * t.y + 3 * m.y) / 10) as i64,
        z: ((7 * t.z + 3 * m.z) / 10) as i64,
    }
}

fn blend_channel(t: i64, m: i64) -> (r: i64)
    requires
        0 <= t <= ONE,
    ensures
        r == (7 * t + 3 * m) / 10,
{
    let v: i128 = 7 * (t as i128) + 3 * (m as i128);
    assert(i64::MIN <= v / 10 <= i64::MAX) by (nonlinear_arith)
        requires v == 7 * t + 3 * m, 0 <= t <= 65536, i64::MIN <= m <= i64::MAX;
    match v.checked_div_euclid(10) {
        Some(q) => q as i64,
        None => 0,
    }
}

fn blend_exec(t: Vector3, m: Vector3) -> (r: Vector3)
    requires
        unit_color(t),
    ensures
        r == blend(t, m),
{
    Vector3 { x: blend_channel(t.x, m.x), y: blend_channel(t.y, m.y), z: blend_channel(t.z, m.z) }
}

fn near_one_exec(c: i64) -> (r: bool)
    ensures
        r == near_one(c as int),
{
    -655 < c as i128 - ONE as i128 && (c as i128) - (ONE as i128) < 655
}

/// Resolves the base colour of a sub-model (see `base_color`).
pub fn material_color(material_id: Option<usize>, materials: &Vec<Material>) -> (r: Vector3)
    ensures
        r == base_color(material_id, materials@),
{
    match material_id {
        Some(i) => {
            if i < materials.len() {
                let d = materials[i].diffuse;
                if near_one_exec(d.x) && near_one_exec(d.y) && near_one_exec(d.z) {
                    materials[i].ambient
                } else {
                    d
                }
            } else {
                Vector3 { x: ONE, y: ONE, z: ONE }
            }
        },
        None => Vector3 { x: ONE, y: ONE, z: ONE },
    }
}

/// Coordinate `a` (0 for x, 1 for y, 2 for z) of vertex `i`.
pub open spec fn coord(ps: Seq<i64>, i: int, a: int) -> int {
    ps[3 * i + a] as int
}

/// The least coordinate `a` among the first `n` vertices.
pub open spec fn lo_of(ps: Seq<i64>, a: int, n: int) -> int
    decreases n,
{
    if n <= 0 {
        LIMIT as int
    } else {
        let m = lo_of(ps, a, n - 1);
        if coord(ps, n - 1, a) < m { coord(ps, n - 1, a) } else { m }
    }
}

/// The greatest coordinate `a` among the first `n` vertices.
pub open spec fn hi_of(ps: Seq<i64>, a: int, n: int) -> int
    decreases n,
{
    if n <= 0 {
        -LIMIT as int
    } else {
        let m = hi_of(ps, a, n - 1);
        if coord(ps, n - 1, a) > m { coord(ps, n - 1, a) } else { m }
    }
}

/// The centre of the bounding box along axis `a`.
pub open spec fn center_of(ps: Seq<i64>, a: int, n: int) -> int {
    (lo_of(ps, a, n) + hi_of(ps, a, n)) / 2
}

/// The largest side of the bounding box.
pub open spec fn extent(ps: Seq<i64>, n: int) -> int {
    let (sx, sy, sz) = (
        hi_of(ps, 0, n) - lo_of(ps, 0, n),
        hi_of(ps, 1, n) - lo_of(ps, 1, n),
        hi_of(ps, 2, n) - lo_of(ps, 2, n),
    );
    if sx >= sy && sx >= sz {
        sx
    } else if sy >= sz {
        sy
    } else {
        sz
    }
}

/// An offset from the centre scaled by `2 / size`, so that the largest side
/// spans two units; unscaled where the model has no extent.
pub open spec fn scaled(d: int, size: int) -> int {
    if size > 0 {
        d * 2 * ONE / size
    } else {
        d
    }
}

/// Vertex `i` of the model centred on the origin, scaled into the cube
/// `[-1, 1]` and with its y axis flipped.
pub open spec fn normalized_position(ps: Seq<i64>, i: int) -> Vector3 {
    let n = (ps.len() / 3) as int;
    let size = extent(ps, n);
    Vector3 {
        x: scaled(coord(ps, i, 0) - center_of(ps, 0, n), size) as i64,
        y: scaled(center_of(ps, 1, n) - coord(ps, i, 1), size) as i64,
        z: scaled(coord(ps, i, 2) - center_of(ps, 2, n), size) as i64,
    }
}

/// A texture that has pixels to sample.
pub open spec fn usable(t: Option<Texture>) -> bool {
    t.is_some() && t.unwrap().width >= 1 && t.unwrap().height >= 1
}

impl RawModel {
    pub open spec fn vertex_count(self) -> int {
        (self.positions@.len() / 3) as int
    }

    /// Normals and texture coordinates are absent or enough for every vertex,
    /// and every value lies in the coordinate range.
    pub open spec fn well_formed(self) -> bool {
        let n = self.vertex_count();
        &&& self.normals@.len() == 0 || self.normals@.len() >= 3 * n
        &&& self.texcoords@.len() == 0 || self.texcoords@.len() >= 2 * n
        &&& forall|k: int| 0 <= k < self.positions@.len() ==> in_range(#[trigger] self.positions@[k] as int)
        &&& forall|k: int| 0 <= k < self.normals@.len() ==> in_range(#[trigger] self.normals@[k] as int)
        &&& forall|k: int| 0 <= k < self.texcoords@.len() ==> in_range(#[trigger] self.texcoords@[k] as int)
    }

    /// Vertex `i` as loaded: normalised position, normal with its y flipped
    /// (zero if there are none), texture coordinates (zero if there are none)
    /// and the baked colour: the material colour, blended 70/30 with the
    /// texture sampled bilinearly where there is a texture.
    pub open spec fn vertex(self, i: int, materials: Seq<Material>, tex: Option<Texture>) -> Vertex {
        let position = normalized_position(self.positions@, i);
        let normal = if self.normals@.len() == 0 {
            Vector3 { x: 0, y: 0, z: 0 }
        } else {
            Vector3 {
                x: self.normals@[3 * i],
                y: -self.normals@[3 * i + 1] as i64,
                z: self.normals@[3 * i + 2],
            }
        };
        let uv = if self.texcoords@.len() == 0 {
            Vector2 { x: 0, y: 0 }
        } else {
            Vector2 { x: self.texcoords@[2 * i], y: self.texcoords@[2 * i + 1] }
        };
        let base = base_color(self.material_id, materials);
        let color = if usable(tex) {
            blend(tex.unwrap().bilinear_spec(uv.x as int, uv.y as int), base)
        } else {
            base
        };
        Vertex {
            position,
            normal,
            tex_coords: uv,
            color,
            transformed_position: position,
            transformed_normal: normal,
        }
    }

    /// The model's vertices, in order.
    pub open spec fn vertices(self, materials: Seq<Material>, tex: Option<Texture>) -> Seq<Vertex> {
        Seq::new(self.vertex_count() as nat, |i: int| self.vertex(i, materials, tex))
    }
}

/// The vertices of the sub-models, one after another.
pub open spec fn all_vertices(models: Seq<RawModel>, materials: Seq<Material>, tex: Option<Texture>) -> Seq<Vertex>
    decreases models.len(),
{
    if models.len() == 0 {
        seq![]
    } else {
        all_vertices(models.drop_last(), materials, tex) + models.last().vertices(materials, tex)
    }
}

/// The index lists of the sub-models, one after another, each as given.
pub open spec fn all_indices(models: Seq<RawModel>) -> Seq<u32>
    decreases models.len(),
{
    if models.len() == 0 {
        seq![]
    } else {
        all_indices(models.drop_last()) + models.last().indices@
    }
}

/// Each sub-model is well formed and every index names one of the vertices.
pub open spec fn loadable(models: Seq<RawModel>, materials: Seq<Material>, tex: Option<Texture>) -> bool {
    &&& forall|k: int| 0 <= k < models.len() ==> (#[trigger] models[k]).well_formed()
    &&& forall|k: int|
        0 <= k < all_indices(models).len() ==> (#[trigger] all_indices(models)[k]) < all_vertices(
            models,
            materials,
            tex,
        ).len()
}

impl Obj {
    /// Every index names a vertex, and every vertex lies in the coordinate range.
    pub open spec fn wf(&self) -> bool {
        &&& forall|k: int| 0 <= k < self.indices@.len() ==> (#[trigger] self.indices@[k]) < self.vertices@.len()
        &&& forall|k: int| 0 <= k < self.vertices@.len() ==> (#[trigger] self.vertices@[k]).in_range()
    }

    /// The flat vertex stream: the vertex of each index, in index order.
    pub open spec fn vertex_stream(&self) -> Seq<Vertex> {
        Seq::new(self.indices@.len(), |k: int| self.vertices@[self.indices@[k] as int])
    }
}

proof fn lemma_bounds(ps: Seq<i64>, a: int, n: int, i: int)
    requires
        0 <= a < 3,
        3 * n <= ps.len(),
        0 <= i < n,
        forall|k: int| 0 <= k < ps.len() ==> in_range(#[trigger] ps[k] as int),
    ensures
        lo_of(ps, a, n) <= coord(ps, i, a) <= hi_of(ps, a, n),
        in_range(lo_of(ps, a, n)),
        in_range(hi_of(ps, a, n)),
    decreases n,
{
    assert(in_range(ps[3 * (n - 1) + a] as int));
    if i < n - 1 {
        lemma_bounds(ps, a, n - 1, i);
    } else if n > 1 {
        lemma_bounds(ps, a, n - 1, 0);
    }
}

proof fn lemma_scaled_bound(d: int, size: int)
    requires
        -size <= d <= size,
    ensures
        -2 * ONE <= scaled(d, size) <= 2 * ONE,
{
    if size > 0 {
        assert(-2 * 65536 <= d * 2 * 65536 / size <= 2 * 65536) by (nonlinear_arith)
            requires -size <= d <= size, size > 0;
    }
}

fn model_ok(m: &RawModel) -> (r: bool)
    ensures
        r == m.well_formed(),
{
    let n = m.positions.len() / 3;
    if !(m.normals.len() == 0 || m.normals.len() / 3 >= n) {
        return false;
    }
    if !(m.texcoords.len() == 0 || m.texcoords.len() / 2 >= n) {
        return false;
    }
    all_in_range(&m.positions) && all_in_range(&m.normals) && all_in_range(&m.texcoords)
}

fn all_in_range(v: &Vec<i64>) -> (r: bool)
    ensures
        r == forall|k: int| 0 <= k < v@.len() ==> in_range(#[trigger] v@[k] as int),
{
    let mut i: usize = 0;
    while i < v.len()
        invariant
            i <= v@.len(),
            forall|k: int| 0 <= k < i ==> in_range(#[trigger] v@[k] as int),
        decreases v@.len() - i,
    {
        if v[i] < -LIMIT || v[i] > LIMIT {
            return false;
        }
        i = i + 1;
    }
    true
}

fn half_floor(v: i64) -> (r: i64)
    ensures
        r == (v as int) / 2,
{
    proof {
        let vi = v as int;
        assert(-abs(vi) <= vi / 2 <= abs(vi)) by (nonlinear_arith);
    }
    match v.checked_div_euclid(2) {
        Some(q) => q,
        None => 0,
    }
}

fn scale_offset(d: i64, size: i64) -> (r: i64)
    requires
        -size <= d <= size,
        size <= 2 * LIMIT,
    ensures
        r == scaled(d as int, size as int),
{
    proof {
        lemma_scaled_bound(d as int, size as int);
    }
    if size > 0 {
        match (d * 2 * ONE).checked_div_euclid(size) {
            Some(q) => q,
            None => 0,
        }
    } else {
        d
    }
}

struct Bounds {
    lo: [i64; 3],
    hi: [i64; 3],
}

fn model_bounds(ps: &Vec<i64>) -> (r: Bounds)
    requires
        forall|k: int| 0 <= k < ps@.len() ==> in_range(#[trigger] ps@[k] as int),
    ensures
        forall|a: int| 0 <= a < 3 ==> r.lo[a] == lo_of(ps@, a, (ps@.len() / 3) as int) && r.hi[a] == hi_of(ps@, a, (ps@.len() / 3) as int),
{
    let len = ps.len();
    let n = len / 3;
    let mut lo: [i64; 3] = [LIMIT, LIMIT, LIMIT];
    let mut hi: [i64; 3] = [-LIMIT, -LIMIT, -LIMIT];
    let mut i: usize = 0;
    while i < n
        invariant
            len == ps@.len(),
            n == ps@.len() / 3,
            3 * n <= ps@.len(),
            i <= n,
            forall|a: int| 0 <= a < 3 ==> lo[a] == lo_of(ps@, a, i as int) && hi[a] == hi_of(ps@, a, i as int),
        decreases n - i,
    {
        let mut a: usize = 0;
        while a < 3
            invariant
                len == ps@.len(),
                n == ps@.len() / 3,
                3 * n <= ps@.len(),
                i < n,
                a <= 3,
                forall|b: int| 0 <= b < a ==> lo[b] == lo_of(ps@, b, i + 1) && hi[b] == hi_of(ps@, b, i + 1),
                forall|b: int| a <= b < 3 ==> lo[b] == lo_of(ps@, b, i as int) && hi[b] == hi_of(ps@, b, i as int),
            decreases 3 - a,
        {
            let c = ps[3 * i + a];
            if c < lo[a] {
                lo[a] = c;
            }
            if c > hi[a] {
                hi[a] = c;
            }
            a = a + 1;
        }
        i = i + 1;
    }
    Bounds { lo, hi }
}

fn max3(a: i64, b: i64, c: i64) -> (r: i64)
    ensures
        r == (if a >= b && a >= c {
            a
        } else if b >= c {
            b
        } else {
            c
        }),
{
    if a >= b && a >= c {
        a
    } else if b >= c {
        b
    } else {
        c
    }
}

/// Appends the vertices of one sub-model, normalised and with baked colours.
fn push_model_vertices(
    m: &RawModel,
    materials: &Vec<Material>,
    texture: &Option<Texture>,
    out: &mut Vec<Vertex>,
)
    requires
        m.well_formed(),
    ensures
        final(out)@ == old(out)@ + m.vertices(materials@, *texture),
{
    let ghost ps = m.positions@;
    let len = m.positions.len();
    let n = len / 3;
    let b = model_bounds(&m.positions);
    if n > 0 {
        proof {
            lemma_bounds(ps, 0, n as int, 0);
            lemma_bounds(ps, 1, n as int, 0);
            lemma_bounds(ps, 2, n as int, 0);
        }
    }
    let size: i64 = if n > 0 {
        max3(b.hi[0] - b.lo[0], b.hi[1] - b.lo[1], b.hi[2] - b.lo[2])
    } else {
        0
    };
    let cx = half_floor(b.lo[0] + b.hi[0]);
    let cy = half_floor(b.lo[1] + b.hi[1]);
    let cz = half_floor(b.lo[2] + b.hi[2]);
    let base = material_color(m.material_id, materials);
    let ghost start = out@;
    let mut i: usize = 0;
    while i < n
        invariant
            m.well_formed(),
            ps == m.positions@,
            n == m.vertex_count(),
            len == ps.len(),
            3 * n <= ps.len(),
            i <= n,
            n > 0 ==> size == extent(ps, n as int),
            cx == center_of(ps, 0, n as int),
            cy == center_of(ps, 1, n as int),
            cz == center_of(ps, 2, n as int),
            forall|a: int| 0 <= a < 3 ==> b.lo[a] == lo_of(ps, a, n as int) && b.hi[a] == hi_of(ps, a, n as int),
            base == base_color(m.material_id, materials@),
            out@ == start + m.vertices(materials@, *texture).take(i as int),
        decreases n - i,
    {
        proof {
            lemma_bounds(ps, 0, n as int, i as int);
            lemma_bounds(ps, 1, n as int, i as int);
            lemma_bounds(ps, 2, n as int, i as int);
        }
        let position = Vector3 {
            x: scale_offset(m.positions[3 * i] - cx, size),
            y: scale_offset(cy - m.positions[3 * i + 1], size),
            z: scale_offset(m.positions[3 * i + 2] - cz, size),
        };
        let normal = if m.normals.len() == 0 {
            Vector3 { x: 0, y: 0, z: 0 }
        } else {
            Vector3 { x: m.normals[3 * i], y: -m.normals[3 * i + 1], z: m.normals[3 * i + 2] }
        };
        let uv = if m.texcoords.len() == 0 {
            Vector2 { x: 0, y: 0 }
        } else {
            Vector2 { x: m.texcoords[2 * i], y: m.texcoords[2 * i + 1] }
        };
        let color = match texture {
            Some(t) => {
                if t.width >= 1 && t.height >= 1 {
                    blend_exec(t.sample_bilinear(uv.x, uv.y), base)
                } else {
                    base
                }
            },
            None => base,
        };
        let v = Vertex {
            position,
            normal,
            tex_coords: uv,
            color,
            transformed_position: position,
            transformed_normal: normal,
        };
        assert(v == m.vertex(i as int, materials@, *texture));
        out.push(v);
        proof {
            assert(m.vertices(materials@, *texture).take(i + 1) =~= m.vertices(materials@, *texture).take(
                i as int,
            ).push(v));
        }
        i = i + 1;
    }
    assert(m.vertices(materials@, *texture).take(n as int) =~= m.vertices(materials@, *texture));
}

proof fn lemma_vertex_in_range(m: RawModel, i: int, materials: Seq<Material>, tex: Option<Texture>)
    requires
        m.well_formed(),
        0 <= i < m.vertex_count(),
    ensures
        m.vertex(i, materials, tex).in_range(),
{
    let ps = m.positions@;
    let n = m.vertex_count();
    lemma_bounds(ps, 0, n, i);
    lemma_bounds(ps, 1, n, i);
    lemma_bounds(ps, 2, n, i);
    lemma_bounds(ps, 0, n, 0);
    lemma_bounds(ps, 1, n, 0);
    lemma_bounds(ps, 2, n, 0);
    let size = extent(ps, n);
    lemma_scaled_bound(coord(ps, i, 0) - center_of(ps, 0, n), size);
    lemma_scaled_bound(center_of(ps, 1, n) - coord(ps, i, 1), size);
    lemma_scaled_bound(coord(ps, i, 2) - center_of(ps, 2, n), size);
}

proof fn lemma_all_vertices_in_range(models: Seq<RawModel>, materials: Seq<Material>, tex: Option<Texture>)
    requires
        forall|k: int| 0 <= k < models.len() ==> (#[trigger] models[k]).well_formed(),
    ensures
        forall|k: int|
            0 <= k < all_vertices(models, materials, tex).len() ==> (#[trigger] all_vertices(
                models,
                materials,
                tex,
            )[k]).in_range(),
    decreases models.len(),
{
    if models.len() > 0 {
        let rest = models.drop_last();
        assert forall|k: int| 0 <= k < rest.len() implies (#[trigger] rest[k]).well_formed() by {
            assert(rest[k] == models[k]);
        }
        lemma_all_vertices_in_range(rest, materials, tex);
        let a = all_vertices(rest, materials, tex);
        let m = models.last();
        assert(m == models[models.len() - 1]);
        let b = m.vertices(materials, tex);
        assert forall|k: int| 0 <= k < all_vertices(models, materials, tex).len() implies (
        #[trigger] all_vertices(models, materials, tex)[k]).in_range() by {
            if k >= a.len() {
                lemma_vertex_in_range(m, k - a.len(), materials, tex);
                assert(all_vertices(models, materials, tex)[k] == b[k - a.len()]);
            } else {
                assert(all_vertices(models, materials, tex)[k] == a[k]);
            }
        }
    }
}

impl Obj {
    /// Builds a model from the sub-models that the mesh reader produced, the
    /// materials, and the texture of the first material that has one. Each
    /// sub-model is centred and scaled into `[-1, 1]` on its own, with y
    /// flipped, and its vertex colours are baked (see `RawModel::vertex`).
    /// Malformed data is refused as a whole.
    pub fn from_models(models: &Vec<RawModel>, materials: Vec<Material>, texture: Option<Texture>) -> (r: Result<
        Obj,
        MeshError,
    >)
        ensures
            r.is_ok() == loadable(models@, materials@, texture),
            r.is_err() ==> r == Err::<Obj, MeshError>(MeshError::Malformed),
            r.is_ok() ==> ({
                let o = r.unwrap();
                &&& o.wf()
                &&& o.vertices@ == all_vertices(models@, materials@, texture)
                &&& o.indices@ == all_indices(models@)
                &&& o.materials@ == materials@
                &&& o.mesh_materials@ == Seq::new(models@.len(), |k: int| models@[k].material_id)
                &&& o.texture == texture
            }),
    {
        let mut k: usize = 0;
        while k < models.len()
            invariant
                k <= models@.len(),
                forall|j: int| 0 <= j < k ==> (#[trigger] models@[j]).well_formed(),
            decreases models@.len() - k,
        {
            if !model_ok(&models[k]) {
                return Err(MeshError::Malformed);
            }
            k = k + 1;
        }
        let mut vertices: Vec<Vertex> = Vec::new();
        let mut indices: Vec<u32> = Vec::new();
        let mut mesh_materials: Vec<Option<usize>> = Vec::new();
        let mut k: usize = 0;
        while k < models.len()
            invariant
                k <= models@.len(),
                forall|j: int| 0 <= j < models@.len() ==> (#[trigger] models@[j]).well_formed(),
                vertices@ == all_vertices(models@.take(k as int), materials@, texture),
                indices@ == all_indices(models@.take(k as int)),
                mesh_materials@ == Seq::new(k as nat, |j: int| models@[j].material_id),
            decreases models@.len() - k,
        {
            let m = &models[k];
            push_model_vertices(m, &materials, &texture, &mut vertices);
            let mut j: usize = 0;
            let ghost before = indices@;
            while j < m.indices.len()
                invariant
                    j <= m.indices@.len(),
                    indices@ == before + m.indices@.take(j as int),
                decreases m.indices@.len() - j,
            {
                indices.push(m.indices[j]);
                assert(m.indices@.take(j + 1) =~= m.indices@.take(j as int).push(m.indices@[j as int]));
                j = j + 1;
            }
            assert(m.indices@.take(j as int) =~= m.indices@);
            mesh_materials.push(m.material_id);
            proof {
                let t = models@.take(k + 1);
                assert(t.drop_last() =~= models@.take(k as int));
                assert(t.last() == models@[k as int]);
                assert(mesh_materials@ =~= Seq::new((k + 1) as nat, |j: int| models@[j].material_id));
            }
            k = k + 1;
        }
        assert(models@.take(k as int) =~= models@);
        proof {
            lemma_all_vertices_in_range(models@, materials@, texture);
        }
        let mut i: usize = 0;
        while i < indices.len()
            invariant
                i <= indices@.len(),
                vertices@ == all_vertices(models@, materials@, texture),
                indices@ == all_indices(models@),
                forall|j: int| 0 <= j < i ==> (#[trigger] indices@[j]) < vertices@.len(),
            decreases indices@.len() - i,
        {
            if indices[i] as usize >= vertices.len() {
                return Err(MeshError::Malformed);
            }
            i = i + 1;
        }
        Ok(Obj { vertices, indices, materials, mesh_materials, texture })
    }

    /// The flat vertex stream of the model: one vertex per index, in index
    /// order, ready to be grouped into triangles.
    pub fn get_vertex_array(&self) -> (r: Vec<Vertex>)
        requires
            self.wf(),
        ensures
            r@ == self.vertex_stream(),
            forall|k: int| 0 <= k < r@.len() ==> (#[trigger] r@[k]).in_range(),
    {
        let mut out: Vec<Vertex> = Vec::new();
        let mut i: usize = 0;
        while i < self.indices.len()
            invariant
                self.wf(),
                i <= self.indices@.len(),
                out@ == self.vertex_stream().take(i as int),
            decreases self.indices@.len() - i,
        {
            let v = self.vertices[self.indices[i] as usize];
            out.push(v);
            assert(self.vertex_stream().take(i + 1) =~= self.vertex_stream().take(i as int).push(v));
            i = i + 1;
        }
        assert(self.vertex_stream().take(i as int) =~= self.vertex_stream());
        out
    }

    /// The texture that was found for the model, if any.
    pub fn get_texture(&self) -> (r: &Option<Texture>)
        ensures
            *r == self.texture,
    {
        &self.texture
    }

    /// The model's materials.
    pub fn get_materials(&self) -> (r: &Vec<Material>)
        ensures
            r@ == self.materials@,
    {
        &self.materials
    }
}

} // verus!
