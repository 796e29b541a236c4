use orbit_raster::fixed::ONE;
use orbit_raster::matrix::{Vector2, Vector3};
use orbit_raster::moons::Moon;
use orbit_raster::obj::{material_color, Material, MeshError, Obj, RawModel, DEFAULT_AMBIENT, DEFAULT_SHININESS};
use orbit_raster::rings::{generate_flat_ring, generate_torus_ring};
use orbit_raster::shading::{body_kind, BodyKind};
use orbit_raster::texture::{mix_vec3, Texture, TextureError};

fn two_pixel_texture() -> Texture {
    Texture { width: 2, height: 1, data: vec![255, 0, 0, 255, 0, 0, 255, 255] }
}

fn grey(v: i64) -> Vector3 {
    Vector3::new(v, v, v)
}

fn white_diffuse_material() -> Material {
    Material::resolve("rock".to_string(), Some(grey(ONE / 2)), None, None, None, None)
}

fn small_model() -> RawModel {
    RawModel {
        positions: vec![0, 0, 0, 2 * ONE, 0, 0, 0, 4 * ONE, 0],
        normals: vec![0, ONE, 0, 0, ONE, 0, 0, ONE, 0],
        texcoords: vec![],
        indices: vec![0, 1, 2, 2, 1, 0],
        material_id: Some(0),
    }
}

#[test]
fn sample_picks_nearest_pixel() {
    let t = two_pixel_texture();
    assert_eq!(t.sample(0, 0), Vector3::new(ONE, 0, 0));
    assert_eq!(t.sample(3 * ONE / 4, 0), Vector3::new(0, 0, ONE));
    assert_eq!(t.sample(ONE + ONE / 4, 0), Vector3::new(ONE, 0, 0));
    assert_eq!(t.sample(-ONE / 4, 0), Vector3::new(ONE, 0, 0));
}

#[test]
fn sample_past_data_is_white() {
    let t = Texture { width: 2, height: 1, data: vec![10, 20, 30, 255] };
    assert_eq!(t.sample(3 * ONE / 4, 0), Vector3::new(ONE, ONE, ONE));
    assert_eq!(t.sample(0, 0), Vector3::new(10 * ONE / 255, 20 * ONE / 255, 30 * ONE / 255));
}

#[test]
fn bilinear_blends_neighbours() {
    let t = two_pixel_texture();
    assert_eq!(t.sample_bilinear(ONE / 2, 0), Vector3::new(ONE / 2, 0, ONE / 2));
    assert_eq!(t.sample_bilinear(ONE / 4, 0), Vector3::new(ONE, 0, 0));
}

#[test]
fn mix_is_linear() {
    let r = mix_vec3(Vector3::new(0, ONE, 0), Vector3::new(ONE, 0, ONE / 2), ONE / 4);
    assert_eq!(r, Vector3::new(ONE / 4, 3 * ONE / 4, ONE / 8));
}

#[test]
fn decode_rejects_garbage() {
    let r = Texture::decode(&[1, 2, 3, 4, 5]);
    assert_eq!(r.err(), Some(TextureError::Decode));
}

#[test]
fn decode_reads_png() {
    let raw = vec![255u8, 0, 0, 255, 0, 128, 255, 255];
    let img = image::RgbaImage::from_raw(2, 1, raw.clone()).unwrap();
    let mut bytes: Vec<u8> = Vec::new();
    image::DynamicImage::ImageRgba8(img)
        .write_to(&mut std::io::Cursor::new(&mut bytes), image::ImageFormat::Png)
        .unwrap();
    let t = Texture::decode(&bytes).unwrap();
    assert_eq!((t.width, t.height), (2, 1));
    assert_eq!(t.data, raw);
    assert_eq!(t.sample(3 * ONE / 4, 0), Vector3::new(0, 128 * ONE / 255, ONE));
}

#[test]
fn material_defaults() {
    let m = Material::resolve("plain".to_string(), None, None, None, None, Some("rock.png".to_string()));
    assert_eq!(m.ambient, grey(DEFAULT_AMBIENT));
    assert_eq!(m.diffuse, grey(ONE));
    assert_eq!(m.specular, grey(ONE));
    assert_eq!(m.shininess, DEFAULT_SHININESS);
    assert_eq!(m.shininess, 32 * ONE);
    assert_eq!(m.name, "plain");
    assert_eq!(m.texture_path.as_deref(), Some("rock.png"));
}

#[test]
fn white_diffuse_falls_back_to_ambient() {
    let mats = vec![
        white_diffuse_material(),
        Material::resolve("blue".to_string(), Some(grey(ONE / 2)), Some(Vector3::new(0, 0, ONE)), None, None, None),
        Material::resolve("almost".to_string(), Some(grey(7)), Some(grey(ONE - 600)), None, None, None),
    ];
    assert_eq!(material_color(Some(0), &mats), grey(ONE / 2));
    assert_eq!(material_color(Some(1), &mats), Vector3::new(0, 0, ONE));
    assert_eq!(material_color(Some(2), &mats), grey(7));
    assert_eq!(material_color(Some(3), &mats), grey(ONE));
    assert_eq!(material_color(None, &mats), grey(ONE));
}

#[test]
fn model_is_centred_scaled_and_flipped() {
    let obj = Obj::from_models(&vec![small_model()], vec![white_diffuse_material()], None).unwrap();
    let p: Vec<Vector3> = obj.vertices.iter().map(|v| v.position).collect();
    assert_eq!(p[0], Vector3::new(-ONE / 2, ONE, 0));
    assert_eq!(p[1], Vector3::new(ONE / 2, ONE, 0));
    assert_eq!(p[2], Vector3::new(-ONE / 2, -ONE, 0));
    assert_eq!(obj.vertices[0].normal, Vector3::new(0, -ONE, 0));
    assert_eq!(obj.vertices[0].transformed_position, p[0]);
    assert_eq!(obj.vertices[0].color, grey(ONE / 2));
    assert_eq!(obj.vertices[0].tex_coords, Vector2::new(0, 0));
    assert_eq!(obj.mesh_materials, vec![Some(0)]);
    assert_eq!(obj.get_materials().len(), 1);
    assert!(obj.get_texture().is_none());
}

#[test]
fn texture_is_blended_into_vertex_colour() {
    let red = Texture { width: 1, height: 1, data: vec![255, 0, 0, 255] };
    let mut m = small_model();
    m.texcoords = vec![0, 0, 0, 0, 0, 0];
    let obj = Obj::from_models(&vec![m], vec![white_diffuse_material()], Some(red)).unwrap();
    let half = ONE / 2;
    let want = Vector3::new((7 * ONE + 3 * half) / 10, (3 * half) / 10, (3 * half) / 10);
    assert_eq!(obj.vertices[2].color, want);
}

#[test]
fn vertex_array_follows_indices() {
    let obj = Obj::from_models(&vec![small_model()], vec![], None).unwrap();
    let vs = obj.get_vertex_array();
    assert_eq!(vs.len(), 6);
    assert_eq!(vs[0], obj.vertices[0]);
    assert_eq!(vs[2], obj.vertices[2]);
    assert_eq!(vs[3], obj.vertices[2]);
    assert_eq!(vs[5], obj.vertices[0]);
    assert_eq!(vs[0].color, grey(ONE));
}

#[test]
fn bad_index_is_refused() {
    let mut m = small_model();
    m.indices.push(3);
    assert_eq!(Obj::from_models(&vec![m], vec![], None).err(), Some(MeshError::Malformed));
}

#[test]
fn short_normals_are_refused() {
    let mut m = small_model();
    m.normals.truncate(6);
    assert_eq!(Obj::from_models(&vec![m], vec![], None).err(), Some(MeshError::Malformed));
}

#[test]
fn flat_model_keeps_its_offsets() {
    let m = RawModel {
        positions: vec![ONE, ONE, ONE, ONE, ONE, ONE],
        normals: vec![],
        texcoords: vec![],
        indices: vec![0, 1],
        material_id: None,
    };
    let obj = Obj::from_models(&vec![m], vec![], None).unwrap();
    assert_eq!(obj.vertices[1].position, Vector3::new(0, 0, 0));
}

#[test]
fn body_tags_select_materials() {
    let kinds: Vec<BodyKind> = (0..9).map(body_kind).collect();
    assert_eq!(
        kinds,
        vec![
            BodyKind::Sun,
            BodyKind::Earth,
            BodyKind::GasGiant,
            BodyKind::Moon,
            BodyKind::Ring,
            BodyKind::Neptune,
            BodyKind::Uranus,
            BodyKind::Venus,
            BodyKind::Unknown,
        ]
    );
    assert_eq!(body_kind(u32::MAX), BodyKind::Unknown);
}

#[test]
fn flat_ring_has_two_triangles_per_segment() {
    let circle = vec![Vector2::new(ONE, 0), Vector2::new(0, ONE)];
    let vs = generate_flat_ring(ONE, 3 * ONE / 2, &circle);
    assert_eq!(vs.len(), 6);
    assert_eq!(vs[0].position, Vector3::new(ONE, 0, 0));
    assert_eq!(vs[1].position, Vector3::new(3 * ONE / 2, 0, 0));
    assert_eq!(vs[2].position, Vector3::new(0, 0, 3 * ONE / 2));
    assert_eq!(vs[3].position, vs[0].position);
    assert_eq!(vs[5].position, Vector3::new(0, 0, ONE));
    assert_eq!(vs[5].tex_coords, Vector2::new(0, ONE));
    assert!(vs.iter().all(|v| v.normal == Vector3::new(0, ONE, 0)));
    assert!(generate_flat_ring(ONE, 2 * ONE, &vec![Vector2::new(ONE, 0)]).is_empty());
}

#[test]
fn torus_ring_grid() {
    let half_turns = vec![Vector2::new(ONE, 0), Vector2::new(-ONE, 0), Vector2::new(ONE, 0)];
    let vs = generate_torus_ring(2 * ONE, ONE / 2, &half_turns, &half_turns);
    assert_eq!(vs.len(), 9);
    assert_eq!(vs[0].position, Vector3::new(5 * ONE / 2, 0, 0));
    assert_eq!(vs[4].position, Vector3::new(-3 * ONE / 2, 0, 0));
    assert_eq!(vs[4].normal, Vector3::new(ONE, 0, 0));
    assert_eq!(vs[4].tex_coords, Vector2::new(ONE / 2, ONE / 2));
    assert_eq!(vs[8].tex_coords, Vector2::new(ONE, ONE));
}

#[test]
fn moon_keeps_parameters() {
    let m = Moon::new("Luna", 8 * ONE, 50 * ONE, ONE / 10, ONE / 20, 3);
    assert_eq!(m.name, "Luna");
    assert_eq!((m.scale, m.orbit_radius, m.orbit_speed, m.rotation_speed, m.planet_type), (8 * ONE, 50 * ONE, ONE / 10, ONE / 20, 3));
}
