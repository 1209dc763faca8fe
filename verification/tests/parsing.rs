use raytracer::model::{add_line_context, ErrorKind, Material, MaterialLib};
use raytracer::reader::{
    get_index, material_lib_names, read_indices_pairs, read_materials, read_scene,
};

fn toks(elements: &[&str]) -> Vec<Vec<u8>> {
    elements.iter().map(|e| e.as_bytes().to_vec()).collect()
}

fn scene(content: &str) -> raytracer::model::Scene {
    read_scene(content.as_bytes(), &Vec::new()).unwrap()
}

fn scene_err(content: &str) -> raytracer::model::SceneError {
    read_scene(content.as_bytes(), &Vec::new()).unwrap_err()
}

#[test]
fn get_index_is_one_based() {
    assert_eq!(get_index(1, 3), Some(0));
    assert_eq!(get_index(3, 3), Some(2));
    assert_eq!(get_index(4, 3), None);
    assert_eq!(get_index(0, 3), None);
}

#[test]
fn negative_indices_count_back_from_the_end() {
    assert_eq!(get_index(-1, 3), Some(2));
    assert_eq!(get_index(-3, 3), Some(0));
    assert_eq!(get_index(-4, 3), None);
    assert_eq!(get_index(i64::MIN, 3), None);
}

#[test]
fn indices_pairs_take_first_and_last_parts() {
    let pairs = read_indices_pairs(&toks(&["1/2/3", "4", "5/6", "7//8"])).unwrap();
    assert_eq!(pairs, vec![(1, 3), (4, 0), (5, 6), (7, 8)]);
}

#[test]
fn malformed_indices_are_rejected() {
    assert_eq!(read_indices_pairs(&toks(&["a"])), Err(ErrorKind::BadIndex));
    assert_eq!(read_indices_pairs(&toks(&["1/"])), Err(ErrorKind::BadIndex));
    assert_eq!(read_indices_pairs(&toks(&["/2"])), Err(ErrorKind::BadIndex));
    assert_eq!(read_indices_pairs(&toks(&["1", "2.5"])), Err(ErrorKind::BadIndex));
}

#[test]
fn a_triangle_parses() {
    let s = scene("v 0 0 0\nv 1 0 0\nv 0 1 0\nf 1 2 3\n");
    assert_eq!(s.vertices.len(), 3);
    assert_eq!(s.vertices[1].x, b"1".to_vec());
    assert_eq!(s.vertices[1].y, b"0".to_vec());
    assert_eq!(s.faces.len(), 1);
    assert_eq!(s.faces[0].vertex_indices, vec![0, 1, 2]);
    assert!(s.faces[0].normal_indices.is_none());
    assert_eq!(s.pseudo_objects.len(), 1);
    let po = &s.pseudo_objects[0];
    assert_eq!(
        (po.first_vertex_idx, po.second_vertex_idx, po.third_vertex_idx),
        (0, 1, 2)
    );
    // the default material is bound before any usemtl
    assert_eq!(po.material.name, Vec::<u8>::new());
    assert_eq!(po.material.refraction_index, b"1".to_vec());
    assert_eq!(po.material.albedo.x, b"1".to_vec());
    assert_eq!(po.material.albedo.y, b"0".to_vec());
    assert!(s.sky_path.is_none());
    assert!(s.lights.is_empty());
}

#[test]
fn a_quad_fans_into_two_triangles() {
    let s = scene("v 0 0 0\nv 1 0 0\nv 1 1 0\nv 0 1 0\nf 1 2 3 4\n");
    assert_eq!(s.pseudo_objects.len(), 2);
    let a = &s.pseudo_objects[0];
    let b = &s.pseudo_objects[1];
    assert_eq!((a.first_vertex_idx, a.second_vertex_idx, a.third_vertex_idx), (0, 1, 2));
    assert_eq!((b.first_vertex_idx, b.second_vertex_idx, b.third_vertex_idx), (0, 2, 3));
}

#[test]
fn negative_face_indices_resolve_against_the_current_count() {
    let s = scene("v 0 0 0\nv 1 0 0\nv 0 1 0\nf -3 -2 -1\n");
    let po = &s.pseudo_objects[0];
    assert_eq!(
        (po.first_vertex_idx, po.second_vertex_idx, po.third_vertex_idx),
        (0, 1, 2)
    );
}

#[test]
fn face_normals_resolve_when_all_are_given() {
    let s = scene("v 0 0 0\nv 1 0 0\nv 0 1 0\nvn 0 0 1\nf 1//1 2//1 3//1\n");
    assert_eq!(s.normals.len(), 1);
    assert_eq!(s.faces[0].normal_indices, Some(vec![0, 0, 0]));
}

#[test]
fn mixed_normals_are_rejected() {
    let e = scene_err("v 0 0 0\nv 1 0 0\nv 0 1 0\nvn 0 0 1\nf 1//1 2 3//1\n");
    assert_eq!(e.kind, ErrorKind::MixedNormals);
    assert_eq!(e.line, 5);
    assert!(e.lib.is_none());
}

#[test]
fn out_of_range_references_are_rejected() {
    let e = scene_err("v 0 0 0\nv 1 0 0\nf 1 2 3\n");
    assert_eq!(e.kind, ErrorKind::IndexOutOfRange);
    assert_eq!(e.line, 3);
    let e = scene_err("v 0 0 0\nv 1 0 0\nv 0 1 0\nf 1//1 2//1 3//1\n");
    assert_eq!(e.kind, ErrorKind::IndexOutOfRange);
}

#[test]
fn short_faces_are_rejected() {
    let e = scene_err("v 0 0 0\nv 1 0 0\nf 1 2\n");
    assert_eq!(e.kind, ErrorKind::FaceArity);
}

#[test]
fn vertex_arity_and_syntax_are_checked() {
    let e = scene_err("v 1 2\n");
    assert_eq!((e.kind, e.line), (ErrorKind::PointArity, 1));
    let e = scene_err("v 0 0 0\nvn 1 2 x\n");
    assert_eq!((e.kind, e.line), (ErrorKind::MalformedNumber, 2));
}

#[test]
fn unknown_keys_are_rejected_with_their_line() {
    let e = scene_err("v 0 0 0\n\nwhat 1 2\n");
    assert_eq!(e, add_line_context(ErrorKind::UnknownObjKey, 3));
}

#[test]
fn comments_groups_and_textures_are_ignored() {
    let s = scene("# a comment\ng name\ns off\nvt 0 0\nv 0 0 0\n");
    assert_eq!(s.vertices.len(), 1);
}

#[test]
fn carriage_returns_are_stripped() {
    let s = scene("v 0 0 0\r\nv 1 0 0\r\nv 0 1 0\r\nf 1 2 3\r\n");
    assert_eq!(s.pseudo_objects.len(), 1);
    let e = scene_err("v 0 0 0\r\nbad\r\n");
    assert_eq!((e.kind, e.line), (ErrorKind::UnknownObjKey, 2));
}

#[test]
fn lights_take_position_then_intensity() {
    let s = scene("P 1 2 3 4 5 6\n");
    assert_eq!(s.lights.len(), 1);
    assert_eq!(s.lights[0].position.x, b"1".to_vec());
    assert_eq!(s.lights[0].position.z, b"3".to_vec());
    assert_eq!(s.lights[0].intensity.x, b"4".to_vec());
    assert_eq!(s.lights[0].intensity.z, b"6".to_vec());
    let e = scene_err("P 1 2 3\n");
    assert_eq!(e.kind, ErrorKind::LightArity);
}

#[test]
fn sky_declares_the_texture_path() {
    let s = scene("Sky 1024 768 sky.png\n");
    assert_eq!(s.sky_path, Some(b"sky.png".to_vec()));
}

#[test]
fn material_lib_names_are_collected() {
    let names = material_lib_names(b"v 0 0 0\nmtllib a.mtl\nmtllib b.mtl\n");
    assert_eq!(names, vec![b"a.mtl".to_vec(), b"b.mtl".to_vec()]);
}

fn mtl_fixture() -> Vec<Material> {
    let content = b"newmtl red\nKa 1 0 0\nKd 0.8 0 0\nNs 10\nNi 1.5\nal 0.5 0.5 0.5\n# note\nillum 2\nnewmtl blue\nKs 0 0 1\nKe 0 0 0.25\n";
    read_materials(content).unwrap()
}

#[test]
fn materials_parse_into_blocks() {
    let mats = mtl_fixture();
    assert_eq!(mats.len(), 2);
    assert_eq!(mats[0].name, b"red".to_vec());
    assert_eq!(mats[0].ambient_color.x, b"1".to_vec());
    assert_eq!(mats[0].diffuse_color.x, b"0.8".to_vec());
    assert_eq!(mats[0].specular_exponent, b"10".to_vec());
    assert_eq!(mats[0].refraction_index, b"1.5".to_vec());
    assert_eq!(mats[0].albedo.y, b"0.5".to_vec());
    assert_eq!(mats[1].name, b"blue".to_vec());
    assert_eq!(mats[1].specular_color.z, b"1".to_vec());
    assert_eq!(mats[1].intensity.z, b"0.25".to_vec());
    // fields never set keep their defaults
    assert_eq!(mats[1].refraction_index, b"1".to_vec());
}

#[test]
fn material_errors_name_their_line() {
    assert_eq!(
        read_materials(b"newmtl red\nKa 1 0\n"),
        Err((ErrorKind::PointArity, 2))
    );
    assert_eq!(
        read_materials(b"newmtl red\nNs ten\n"),
        Err((ErrorKind::MalformedNumber, 2))
    );
    assert_eq!(read_materials(b"shiny 1\n"), Err((ErrorKind::UnknownMtlKey, 1)));
}

#[test]
fn usemtl_binds_the_declared_material() {
    let libs = vec![MaterialLib {
        name: b"scene.mtl".to_vec(),
        content: b"newmtl red\nKa 1 0 0\n".to_vec(),
    }];
    let content = b"mtllib scene.mtl\nusemtl red\nv 0 0 0\nv 1 0 0\nv 0 1 0\nf 1 2 3\n";
    let s = read_scene(content, &libs).unwrap();
    assert_eq!(s.pseudo_objects[0].material.name, b"red".to_vec());
    assert_eq!(s.pseudo_objects[0].material.ambient_color.x, b"1".to_vec());
}

#[test]
fn a_later_block_replaces_an_earlier_one_of_the_same_name() {
    let libs = vec![MaterialLib {
        name: b"m.mtl".to_vec(),
        content: b"newmtl red\nKa 1 0 0\nnewmtl red\nKa 0 1 0\n".to_vec(),
    }];
    let content = b"mtllib m.mtl\nusemtl red\nv 0 0 0\nv 1 0 0\nv 0 1 0\nf 1 2 3\n";
    let s = read_scene(content, &libs).unwrap();
    assert_eq!(s.pseudo_objects[0].material.ambient_color.y, b"1".to_vec());
}

#[test]
fn unknown_materials_are_rejected() {
    let e = scene_err("usemtl red\n");
    assert_eq!((e.kind, e.line), (ErrorKind::UnknownMaterial, 1));
}

#[test]
fn a_missing_library_is_rejected() {
    let e = scene_err("mtllib gone.mtl\n");
    assert_eq!((e.kind, e.line), (ErrorKind::MissingMaterialLib, 1));
}

#[test]
fn errors_inside_a_library_carry_both_lines() {
    let libs = vec![MaterialLib {
        name: b"m.mtl".to_vec(),
        content: b"newmtl red\nbroken\n".to_vec(),
    }];
    let e = read_scene(b"v 0 0 0\nmtllib m.mtl\n", &libs).unwrap_err();
    assert_eq!(e.kind, ErrorKind::UnknownMtlKey);
    assert_eq!(e.line, 2);
    assert_eq!(e.lib, Some((b"m.mtl".to_vec(), 2)));
}

#[test]
fn a_full_scene_parses_end_to_end() {
    let libs = vec![MaterialLib {
        name: b"world.mtl".to_vec(),
        content: b"newmtl mirror\nKs 1 1 1\nNi 1.33\n".to_vec(),
    }];
    let content = b"# a small world\n\
        mtllib world.mtl\n\
        v 0 0 0\n\
        v 1 0 0\n\
        v 1 1 0\n\
        v 0 1 0\n\
        vn 0 0 1\n\
        vt 0 0\n\
        g walls\n\
        s off\n\
        usemtl mirror\n\
        f 1/1/1 2/1/1 3/1/1 -1/1/1\n\
        P 0 5 0 1 1 1\n\
        Sky 256 192 clouds.png\n";
    let s = read_scene(content, &libs).unwrap();
    assert_eq!(s.vertices.len(), 4);
    assert_eq!(s.normals.len(), 1);
    assert_eq!(s.faces.len(), 1);
    assert_eq!(s.faces[0].vertex_indices, vec![0, 1, 2, 3]);
    assert_eq!(s.faces[0].normal_indices, Some(vec![0, 0, 0, 0]));
    assert_eq!(s.pseudo_objects.len(), 2);
    for po in &s.pseudo_objects {
        assert_eq!(po.material.name, b"mirror".to_vec());
        assert_eq!(po.material.specular_color.x, b"1".to_vec());
        assert_eq!(po.material.refraction_index, b"1.33".to_vec());
    }
    assert_eq!(s.lights.len(), 1);
    assert_eq!(s.sky_path, Some(b"clouds.png".to_vec()));
}

#[test]
fn an_empty_scene_parses_to_nothing() {
    let s = scene("");
    assert!(s.vertices.is_empty());
    assert!(s.faces.is_empty());
    assert!(s.pseudo_objects.is_empty());
}
