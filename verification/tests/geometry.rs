use quake_map::data::{Brush, BrushFace, DegenerateGeometryError, UvAxis};
use quake_map::epsilon;
use quake_map::loader::asset::{BrushMeshInfo, MeshError};
use quake_map::loader::utils::{
    centroid_of, map_to_bevy_space3, map_to_bevy_space4, project, scale, wind,
};
use quake_map::loader::{load_brush, load_map, split_collections, is_empty_texture, MapError};
use quake_map::number::natural::Sign;
use quake_map::number::rational::Rational;
use quake_map::parsing::grammar::{Rule, SyntaxError};
use quake_map::parsing::parse_map;
use quake_map::vector::{Vec2, Vec3};

const TEST_MAP: &str = r#"// Game: Fumohouse
// Format: Valve
// entity 0
{
"mapversion" "220"
"classname" "worldspawn"
"_tb_textures" "textures/map"
// brush 0
{
( -16 -64 -16 ) ( -16 -63 -16 ) ( -16 -64 -15 ) map/grass [ 0 -1 0 0 ] [ 0 0 -1 0 ] 0 1 1
( -64 -16 -16 ) ( -64 -16 -15 ) ( -63 -16 -16 ) map/black [ 1 0 0 0 ] [ 0 0 -1 0 ] 0 1 1
( -64 -64 -16 ) ( -63 -64 -16 ) ( -64 -63 -16 ) map/wall [ -1 0 0 0 ] [ 0 -1 0 0 ] 0 1 1
( 64 64 16 ) ( 64 65 16 ) ( 65 64 16 ) map/accent [ 1 0 0 0 ] [ 0 -1 0 0 ] 0 1 1
( 64 16 16 ) ( 65 16 16 ) ( 64 16 17 ) map/dirt [ -1 0 0 0 ] [ 0 0 -1 0 ] 0 1 1
( 16 64 16 ) ( 16 64 17 ) ( 16 65 16 ) map/wall2 [ 0 1 0 0 ] [ 0 0 -1 0 ] 0 1 1
}
}"#;

fn get_brush() -> Brush {
    parse_map(TEST_MAP).expect("failed to parse").entities.remove(0).brushes.remove(0)
}

fn rat(numerator: i64, denominator: u64) -> Rational {
    Rational::from_ratio(numerator, denominator).unwrap()
}

/// A number of the floating kind as the nearest thousandth.
fn thousandths(x: f64) -> Rational {
    rat((x * 1000.0).round() as i64, 1000)
}

fn vec3(x: f64, y: f64, z: f64) -> Vec3 {
    Vec3::new(thousandths(x), thousandths(y), thousandths(z))
}

fn same_points(a: &[Vec3], b: &[Vec3]) -> bool {
    a.len() == b.len() && a.iter().zip(b).all(|(p, q)| p.equals(q))
}

fn contains_point(list: &[Vec3], p: &Vec3) -> bool {
    list.iter().any(|q| q.equals(p))
}

#[test]
fn brush_test_brush_contains() {
    let brush = get_brush();
    let eps = epsilon();

    assert!(brush.contains(&vec3(0.0, 0.0, 0.0), &eps));
    assert!(brush.contains(&vec3(16.0, 16.0, 16.0), &eps));
    assert!(!brush.contains(&vec3(16.0, 16.0, 16.0 + 0.001 * 2.0), &eps));
}

#[test]
fn loader_test_brush_contains() {
    let brush = get_brush();
    let eps = epsilon();

    assert!(brush.contains(&Vec3::from_i64(0, 0, 0), &eps));
    assert!(brush.contains(&Vec3::from_i64(16, 16, 16), &eps));
    let above = Vec3::new(
        Rational::from_i64(16),
        Rational::from_i64(16),
        Rational::from_i64(16).add(&eps.mul(&Rational::from_i64(2))),
    );
    assert!(!brush.contains(&above, &eps));
    // On the tolerance itself a point still counts as inside.
    let on_edge =
        Vec3::new(Rational::from_i64(16), Rational::from_i64(16), Rational::from_i64(16).add(&eps));
    assert!(brush.contains(&on_edge, &eps));
}

#[test]
fn test_intersect_faces() {
    let brush = get_brush();

    let intersect = brush.faces[0]
        .intersect_faces(&brush.faces[1], &brush.faces[2], &epsilon())
        .expect("failed to find intersect");

    assert!(intersect.abs_diff_eq(&vec3(-16.0, -16.0, -16.0), &epsilon()));
    assert!(intersect.equals(&Vec3::from_i64(-16, -16, -16)));
}

#[test]
fn test_tangent() {
    let brush = get_brush();
    let face = brush.faces.get(0).expect("no face");

    let tangent = face.tangent();
    let w = match tangent.handedness {
        Sign::Negative => Rational::from_i64(-1),
        Sign::Zero => Rational::from_i64(0),
        Sign::Positive => Rational::from_i64(1),
    };

    assert!(face.normal().cross(&face.u().axis).scale(&w).abs_diff_eq(&face.v().axis, &epsilon()));
    assert!(tangent.direction.equals(&face.u().axis));
    // normal (-1, 0, 0), u (0, -1, 0), v (0, 0, -1): (normal x u) . v = -1.
    assert_eq!(tangent.handedness, Sign::Negative);
    let in_scene = map_to_bevy_space4(&tangent);
    assert!(in_scene.direction.equals(&Vec3::from_i64(-1, 0, 0)));
    assert_eq!(in_scene.handedness, Sign::Negative);
    assert!(map_to_bevy_space3(&Vec3::from_i64(1, 2, 3)).equals(&Vec3::from_i64(2, 3, 1)));
}

fn polygon(rad: f32, sides: usize) -> (Vec<Vec3>, Vec3, Vec3) {
    let mut points = Vec::new();

    for i in 0..sides {
        let theta = (std::f32::consts::TAU / (sides as f32)) * (i as f32);

        points.push(vec3((rad * theta.cos()) as f64, (rad * theta.sin()) as f64, 0.0));
    }

    (points, vec3(1.0, 0.0, 0.0), vec3(0.0, 1.0, 0.0))
}

#[test]
fn test_vertex_wind() {
    const RAD: f32 = 5.0;

    let (vertices, u, v) = polygon(RAD, 5);

    let mut wound = vec![
        vertices[1].clone(),
        vertices[0].clone(),
        vertices[2].clone(),
        vertices[4].clone(),
        vertices[3].clone(),
    ];

    wind(&u, &v, &mut wound);
    assert!(same_points(&wound, &vertices));
}

#[test]
fn winding_a_wound_list_changes_nothing() {
    let (vertices, u, v) = polygon(7.0, 9);
    let mut scrambled: Vec<Vec3> = Vec::new();
    for i in [4usize, 8, 0, 3, 7, 1, 5, 2, 6] {
        scrambled.push(vertices[i].clone());
    }
    wind(&u, &v, &mut scrambled);
    let once = scrambled.clone();
    wind(&u, &v, &mut scrambled);
    assert!(same_points(&scrambled, &once));
    assert_eq!(once.len(), 9);
    for p in &vertices {
        assert!(contains_point(&once, p));
    }
}

#[test]
fn winding_breaks_ties_by_distance() {
    let u = Vec3::from_i64(1, 0, 0);
    let v = Vec3::from_i64(0, 1, 0);
    // The centroid is the origin; two points lie in the same direction.
    let mut points = vec![
        Vec3::from_i64(4, 0, 0),
        Vec3::from_i64(-6, -1, 0),
        Vec3::from_i64(2, 0, 0),
        Vec3::from_i64(0, 1, 0),
        Vec3::from_i64(0, 0, 0),
    ];
    wind(&u, &v, &mut points);
    let expected = vec![
        Vec3::from_i64(0, 0, 0),
        Vec3::from_i64(2, 0, 0),
        Vec3::from_i64(4, 0, 0),
        Vec3::from_i64(0, 1, 0),
        Vec3::from_i64(-6, -1, 0),
    ];
    assert!(same_points(&points, &expected));

    let mut empty: Vec<Vec3> = Vec::new();
    wind(&u, &v, &mut empty);
    assert!(empty.is_empty());
    assert!(centroid_of(&empty).is_none());
}

#[test]
fn cube_has_six_faces_of_four_vertices() {
    let brush = get_brush();
    let eps = epsilon();
    assert_eq!(brush.faces.len(), 6);
    assert_eq!(brush.degenerate_faces, 0);
    for i in 0..6 {
        let vertices = brush.face_vertices(i, &eps);
        assert_eq!(vertices.len(), 4);
        for vertex in &vertices {
            // Every vertex is a corner of the cube, lies in the solid and on its face.
            assert!(vertex.x.abs().equals(&Rational::from_i64(16)));
            assert!(vertex.y.abs().equals(&Rational::from_i64(16)));
            assert!(vertex.z.abs().equals(&Rational::from_i64(16)));
            assert!(brush.contains(vertex, &eps));
            assert!(brush.faces[i].excess(vertex).is_zero());
            for face in &brush.faces {
                assert!(face.excess(vertex).le(&eps));
            }
        }
    }
    assert!(brush.contains(&Vec3::from_i64(0, 0, 0), &eps));
    assert!(brush.contains(&Vec3::from_i64(16, 16, 16), &eps));
    assert!(!brush.contains(&vec3(16.0, 16.0, 16.002), &eps));
}

#[test]
fn plane_passes_through_its_three_points() {
    let face = BrushFace::new(
        [vec3(1.5, -2.0, 0.25), vec3(4.0, 0.125, 3.0), vec3(-7.0, 5.0, 2.5)],
        b"tex".to_vec(),
        UvAxis { axis: Vec3::from_i64(1, 0, 0), offset: Rational::from_i64(0) },
        UvAxis { axis: Vec3::from_i64(0, 1, 0), offset: Rational::from_i64(0) },
        Rational::from_i64(0),
        Rational::from_i64(1),
        Rational::from_i64(1),
    )
    .unwrap();
    let (p0, p1, p2) = face.points();
    assert!(face.normal().dot(p0).equals(face.origin_dist()));
    assert!(face.normal().dot(p1).equals(face.origin_dist()));
    assert!(face.normal().dot(p2).equals(face.origin_dist()));
    // normal = (p2 - p0) x (p1 - p0)
    let expected = p2.sub(p0).cross(&p1.sub(p0));
    assert!(face.normal().equals(&expected));
    assert!(face.normal().equals(&Vec3::new(rat(463, 32), Rational::from_i64(29), rat(-569, 16))));
    assert!(face.origin_dist().equals(&rat(-723, 16)));
}

#[test]
fn normal_and_distance_of_a_cube_face() {
    let brush = get_brush();
    // ( -16 -64 -16 ) ( -16 -63 -16 ) ( -16 -64 -15 ): the face at x = -16.
    assert!(brush.faces[0].normal().equals(&Vec3::from_i64(-1, 0, 0)));
    assert!(brush.faces[0].origin_dist().equals(&Rational::from_i64(16)));
    // ( 64 64 16 ) ( 64 65 16 ) ( 65 64 16 ): the face at z = 16.
    assert!(brush.faces[3].normal().equals(&Vec3::from_i64(0, 0, 1)));
    assert!(brush.faces[3].origin_dist().equals(&Rational::from_i64(16)));
    assert_eq!(brush.faces[0].texture(), &b"map/grass".to_vec());
}

fn face_of(points: [Vec3; 3], x_scale: Rational, y_scale: Rational) -> Result<BrushFace, DegenerateGeometryError> {
    BrushFace::new(
        points,
        b"tex".to_vec(),
        UvAxis { axis: Vec3::from_i64(1, 0, 0), offset: Rational::from_i64(3) },
        UvAxis { axis: Vec3::from_i64(0, -1, 0), offset: rat(-1, 2) },
        Rational::from_i64(45),
        x_scale,
        y_scale,
    )
}

#[test]
fn degenerate_faces_are_rejected() {
    let line = [Vec3::from_i64(0, 0, 0), Vec3::from_i64(1, 1, 1), Vec3::from_i64(2, 2, 2)];
    assert_eq!(
        face_of(line, Rational::from_i64(1), Rational::from_i64(1)).err(),
        Some(DegenerateGeometryError::CollinearPoints)
    );
    let same = [Vec3::from_i64(5, 5, 5), Vec3::from_i64(5, 5, 5), Vec3::from_i64(5, 5, 5)];
    assert_eq!(
        face_of(same, Rational::from_i64(1), Rational::from_i64(1)).err(),
        Some(DegenerateGeometryError::CollinearPoints)
    );
    let good = [Vec3::from_i64(0, 0, 0), Vec3::from_i64(0, 1, 0), Vec3::from_i64(1, 0, 0)];
    assert!(face_of(good, Rational::from_i64(1), Rational::from_i64(1)).is_ok());
}

#[test]
fn a_face_with_a_scale_of_zero_has_a_plane_and_no_texture_coordinates() {
    let good = [Vec3::from_i64(0, 0, 0), Vec3::from_i64(0, 1, 0), Vec3::from_i64(1, 0, 0)];
    for (x_scale, y_scale) in [(0, 1), (1, 0), (0, 0)] {
        let face =
            face_of(good.clone(), Rational::from_i64(x_scale), Rational::from_i64(y_scale)).unwrap();
        assert!(!face.has_scales());
        assert!(face.normal().equals(&Vec3::from_i64(0, 0, 1)));
        assert!(face.uv(&Vec3::from_i64(1, 2, 3)).is_none());
        let triangle =
            vec![Vec3::from_i64(0, 0, 0), Vec3::from_i64(1, 0, 0), Vec3::from_i64(0, 1, 0)];
        let mut info = BrushMeshInfo::new();
        assert_eq!(info.push_vertices(&face, &triangle), Err(DegenerateGeometryError::ZeroScale));
        assert!(info.vertices.is_empty());
        assert!(info.indices.is_empty());
        let two = vec![Vec3::from_i64(0, 0, 0), Vec3::from_i64(1, 0, 0)];
        assert_eq!(info.push_vertices(&face, &two), Err(DegenerateGeometryError::TooFewVertices));
    }
    assert!(face_of(good, Rational::from_i64(1), Rational::from_i64(1)).unwrap().has_scales());
}

#[test]
fn a_scale_of_zero_leaves_the_solid_as_it_is() {
    // The top of the cube has a scale of zero.
    let text = TEST_MAP.replace("map/accent [ 1 0 0 0 ] [ 0 -1 0 0 ] 0 1 1", "map/accent [ 1 0 0 0 ] [ 0 -1 0 0 ] 0 0 1");
    assert_ne!(text, TEST_MAP);
    let map = parse_map(&text).unwrap();
    let brush = &map.entities[0].brushes[0];
    assert_eq!(brush.faces.len(), 6);
    assert_eq!(brush.degenerate_faces, 0);
    let eps = epsilon();
    assert!(brush.contains(&Vec3::from_i64(16, 16, 16), &eps));
    assert!(!brush.contains(&Vec3::from_i64(0, 0, 17), &eps));
    for i in 0..6 {
        assert_eq!(brush.face_vertices(i, &eps).len(), 4);
    }
    let geometry = load_brush(brush, &eps);
    assert_eq!(geometry.skipped, vec![3]);
    assert_eq!(geometry.all_vertices.len(), 24);
    assert_eq!(geometry.meshes.len(), 5);
    for sub in &geometry.meshes {
        assert_ne!(sub.texture, b"map/accent".to_vec());
        assert_eq!(sub.info.vertices.len(), 4);
        assert_eq!(sub.info.indices.len(), 6);
    }
}

#[test]
fn parallel_planes_do_not_meet() {
    let brush = get_brush();
    let eps = epsilon();
    // The faces at x = -16 and x = 16 are parallel.
    assert!(brush.faces[0].intersect_faces(&brush.faces[5], &brush.faces[2], &eps).is_none());
    assert!(brush.faces[0].intersect_faces(&brush.faces[0], &brush.faces[2], &eps).is_none());
    // A determinant below the tolerance counts as parallel.
    let large = Rational::from_i64(2);
    assert!(brush.faces[0].intersect_faces(&brush.faces[1], &brush.faces[2], &large).is_none());
    let corner = brush.faces[3].intersect_faces(&brush.faces[4], &brush.faces[5], &eps).unwrap();
    assert!(corner.equals(&Vec3::from_i64(16, 16, 16)));
}

#[test]
fn texture_coordinates_follow_axis_scale_and_offset() {
    let good = [Vec3::from_i64(0, 0, 0), Vec3::from_i64(0, 1, 0), Vec3::from_i64(1, 0, 0)];
    let face = face_of(good, Rational::from_i64(2), rat(1, 4)).unwrap();
    // u = (1,0,0)·v / 2 + 3, v = (0,-1,0)·v / (1/4) - 1/2; the rotation takes no part.
    let uv = face.uv(&Vec3::from_i64(10, 3, 99)).unwrap();
    assert!(uv.equals(&Vec2::new(Rational::from_i64(8), rat(-25, 2))));
}

#[test]
fn fan_triangulation_and_buffers() {
    let brush = get_brush();
    let eps = epsilon();
    let face = &brush.faces[3];
    let mut polygon = brush.face_vertices(3, &eps);
    wind(&face.u().axis, &face.v().axis, &mut polygon);

    let mut info = BrushMeshInfo::new();
    assert!(info.push_vertices(face, &polygon).is_ok());
    assert_eq!(info.vertices.len(), 4);
    assert_eq!(info.normals.len(), 4);
    assert_eq!(info.uvs.len(), 4);
    assert_eq!(info.tangents.len(), 4);
    assert_eq!(info.indices, vec![0, 1, 2, 0, 2, 3]);
    assert!(info.push_vertices(face, &polygon).is_ok());
    assert_eq!(info.indices, vec![0, 1, 2, 0, 2, 3, 4, 5, 6, 4, 6, 7]);
    assert!(info.normals[5].equals(&Vec3::from_i64(0, 0, 1)));

    let two = vec![polygon[0].clone(), polygon[1].clone()];
    assert_eq!(info.push_vertices(face, &two), Err(DegenerateGeometryError::TooFewVertices));
    assert_eq!(info.vertices.len(), 8);
    assert_eq!(info.indices.len(), 12);

    let pentagon = vec![
        Vec3::from_i64(0, 0, 16),
        Vec3::from_i64(1, 0, 16),
        Vec3::from_i64(2, 1, 16),
        Vec3::from_i64(1, 2, 16),
        Vec3::from_i64(0, 1, 16),
    ];
    let mut other = BrushMeshInfo::new();
    assert!(other.push_vertices(face, &pentagon).is_ok());
    assert_eq!(other.indices, vec![0, 1, 2, 0, 2, 3, 0, 3, 4]);
}

#[test]
fn cube_geometry() {
    let brush = get_brush();
    let eps = epsilon();
    // The face at x = -16 has the four corners of the cube on that side.
    let corners = brush.face_vertices(0, &eps);
    assert_eq!(corners.len(), 4);
    for (y, z) in [(-16, -16), (-16, 16), (16, -16), (16, 16)] {
        assert!(contains_point(&corners, &Vec3::from_i64(-16, y, z)));
    }
    let geometry = load_brush(&brush, &eps);
    assert_eq!(geometry.all_vertices.len(), 24);
    assert!(geometry.skipped.is_empty());
    assert_eq!(geometry.meshes.len(), 6);
    let names: [&[u8]; 6] =
        [b"map/grass", b"map/black", b"map/wall", b"map/accent", b"map/dirt", b"map/wall2"];
    for (i, sub) in geometry.meshes.iter().enumerate() {
        assert_eq!(sub.texture, names[i].to_vec());
        assert_eq!(sub.info.vertices.len(), 4);
        assert_eq!(sub.info.indices, vec![0, 1, 2, 0, 2, 3]);
        for vertex in &sub.info.vertices {
            assert!(brush.faces[i].excess(vertex).is_zero());
            assert!(contains_point(&geometry.all_vertices, vertex));
        }
    }
}

#[test]
fn mesh_for_a_scene() {
    let brush = get_brush();
    let eps = epsilon();
    let geometry = load_brush(&brush, &eps);
    assert_eq!(geometry.meshes.len(), 6);
    assert_eq!(geometry.all_vertices.len(), 24);
    assert!(geometry.skipped.is_empty());
    let centroid = geometry.centroid().unwrap();
    assert!(centroid.equals(&Vec3::from_i64(0, 0, 0)));
    assert!(geometry.translation().unwrap().equals(&Vec3::from_i64(0, 0, 0)));

    let first = &geometry.meshes[0];
    assert_eq!(first.texture, b"map/grass".to_vec());
    let mesh = first.info.to_mesh(&centroid, 64, 32).unwrap();
    assert_eq!(mesh.indices, vec![0, 1, 2, 0, 2, 3]);
    assert_eq!(mesh.positions.len(), 4);
    for (i, position) in mesh.positions.iter().enumerate() {
        // Scaled by 1/64, with the axes in the order y, z, x.
        let source = &first.info.vertices[i];
        let quarter = scale();
        assert!(position.x.equals(&source.y.mul(&quarter)));
        assert!(position.y.equals(&source.z.mul(&quarter)));
        assert!(position.z.equals(&source.x.mul(&quarter)));
        assert!(position.z.equals(&rat(-1, 4)));
        assert!(mesh.uvs[i].x.equals(&first.info.uvs[i].x.div(&Rational::from_i64(64)).unwrap()));
        assert!(mesh.uvs[i].y.equals(&first.info.uvs[i].y.div(&Rational::from_i64(32)).unwrap()));
        // The normal (-1, 0, 0) in scene axes.
        assert!(mesh.normals[i].equals(&Vec3::from_i64(0, 0, -1)));
    }
    assert_eq!(first.info.to_mesh(&centroid, 0, 32).err(), Some(MeshError::EmptyTexture));
    assert_eq!(first.info.to_mesh(&centroid, 64, 0).err(), Some(MeshError::EmptyTexture));

    let hull = geometry.hull_vertices();
    assert_eq!(hull.len(), 24);
    for (i, vertex) in hull.iter().enumerate() {
        let source = &geometry.all_vertices[i];
        assert!(vertex.x.equals(&source.y.mul(&scale())));
    }
}

#[test]
fn faces_without_area_are_left_out() {
    // Two planes only: no three planes meet, so no face has a vertex.
    let text = "{ \"classname\" \"worldspawn\" {
        ( -16 -64 -16 ) ( -16 -63 -16 ) ( -16 -64 -15 ) a [ 0 -1 0 0 ] [ 0 0 -1 0 ] 0 1 1
        ( 16 64 16 ) ( 16 64 17 ) ( 16 65 16 ) b [ 0 1 0 0 ] [ 0 0 -1 0 ] 0 1 1
    } }";
    let map = parse_map(text).unwrap();
    let geometry = load_brush(&map.entities[0].brushes[0], &epsilon());
    assert!(geometry.meshes.is_empty());
    assert!(geometry.all_vertices.is_empty());
    assert_eq!(geometry.skipped, vec![0, 1]);
    assert!(geometry.centroid().is_none());
    assert!(geometry.hull_vertices().is_empty());
}

#[test]
fn faces_of_one_texture_share_buffers() {
    let text = TEST_MAP.replace("map/black", "map/grass").replace("map/wall2", "map/grass");
    let map = parse_map(&text).unwrap();
    let geometry = load_brush(&map.entities[0].brushes[0], &epsilon());
    let names: Vec<Vec<u8>> = geometry.meshes.iter().map(|m| m.texture.clone()).collect();
    assert_eq!(
        names,
        vec![
            b"map/grass".to_vec(),
            b"map/wall".to_vec(),
            b"map/accent".to_vec(),
            b"map/dirt".to_vec()
        ]
    );
    assert_eq!(geometry.meshes[0].info.vertices.len(), 12);
    assert_eq!(geometry.meshes[0].info.indices.len(), 18);
    assert_eq!(geometry.meshes[1].info.vertices.len(), 4);
}

#[test]
fn loading_a_level_from_bytes() {
    let loaded = load_map(TEST_MAP.as_bytes(), &epsilon()).unwrap();
    assert_eq!(loaded.map.entities.len(), 1);
    assert_eq!(loaded.texture_collections, Some(vec![b"textures/map".to_vec()]));
    assert_eq!(loaded.geometry.len(), 1);
    assert_eq!(loaded.geometry[0].len(), 1);
    assert_eq!(loaded.geometry[0][0].meshes.len(), 6);

    assert_eq!(load_map(&[0x7b, 0xff, 0x7d], &epsilon()).err(), Some(MapError::Utf8Error));
    assert_eq!(
        load_map(b"{ \"classname\" \"worldspawn\" ", &epsilon()).err(),
        Some(MapError::ParseError(SyntaxError { rule: Rule::Entity, position: 27 }))
    );
    assert_eq!(
        load_map(b"{ \"classname\" \"light\" }", &epsilon()).err(),
        Some(MapError::MissingWorldspawn)
    );
    let plain = load_map("{ \"classname\" \"worldspawn\" \"name\" \"caf\u{e9}\" }".as_bytes(), &epsilon())
        .unwrap();
    assert_eq!(plain.texture_collections, None);
    assert_eq!(plain.map.entities[0].properties.get(b"name"), Some(&"caf\u{e9}".as_bytes().to_vec()));
}

#[test]
fn texture_lists_and_names() {
    assert_eq!(
        split_collections(&b"a;bc;;d".to_vec()),
        vec![b"a".to_vec(), b"bc".to_vec(), b"".to_vec(), b"d".to_vec()]
    );
    assert_eq!(split_collections(&b"".to_vec()), vec![b"".to_vec()]);
    assert_eq!(split_collections(&b"x;".to_vec()), vec![b"x".to_vec(), b"".to_vec()]);
    assert!(is_empty_texture(&b"__TB_empty".to_vec()));
    assert!(!is_empty_texture(&b"__TB_empt".to_vec()));
    assert!(!is_empty_texture(&b"map/grass".to_vec()));
}

#[test]
fn the_usual_tolerance_is_a_thousandth() {
    assert!(epsilon().equals(&rat(1, 1000)));
}

#[test]
fn projection_onto_axes() {
    let p = project(&Vec3::from_i64(1, 0, 0), &Vec3::from_i64(0, 2, 0), &Vec3::from_i64(3, 4, 5));
    assert!(p.equals(&Vec2::new(Rational::from_i64(3), Rational::from_i64(8))));
}

#[test]
fn an_index_beyond_32_bits_is_refused() {
    let mut info = BrushMeshInfo::new();
    info.indices.push(7);
    info.indices.push(u32::MAX as usize);
    let mesh = info.to_mesh(&Vec3::from_i64(0, 0, 0), 1, 1).unwrap();
    assert_eq!(mesh.indices, vec![7, u32::MAX]);
    info.indices.push(u32::MAX as usize + 1);
    assert_eq!(info.to_mesh(&Vec3::from_i64(0, 0, 0), 1, 1).err(), Some(MeshError::IndexTooLarge));
}
