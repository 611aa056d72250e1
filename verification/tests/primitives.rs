use objmesh::faces::{face, face_index};
use objmesh::lexical::{
    comment, empty_line, filename, ignore_line, ignore_lines, is_name_char, is_space, line_end,
    line_ending, name, space, spaces,
};
use objmesh::model::{FaceCorner, Record, Vector3};
use objmesh::number::{digit, float, float_result, index, recognize_float};
use objmesh::sections::{
    material_file, object_name, polygon_group, smooth_shading, str_to_bool, texture_coordinates,
    usemtl, vertex, vertex_list, vertex_normal, vertex_normal_list,
};

fn chars(s: &str) -> Vec<char> {
    s.chars().collect()
}

fn text(c: &[char]) -> String {
    c.iter().collect()
}

fn xyz(v: Vector3) -> (f32, f32, f32) {
    (f32::from_bits(v.x), f32::from_bits(v.y), f32::from_bits(v.z))
}

fn present<T: std::fmt::Debug>(record: Record<T>) -> (usize, T) {
    match record {
        Record::Present { len, value } => (len, value),
        other => panic!("no record: {:?}", other),
    }
}

#[test]
fn it_works() {
    assert_eq!(2 + 2, 4);
}

#[test]
fn test_parse_name() {
    let input = chars("cube\n");
    let n = name(&input).unwrap();
    assert_eq!(text(&input[n..]), "\n");
    assert_eq!(text(&input[..n]), "cube");
}

#[test]
fn test_parse_object_name() {
    let input = chars("o cube\n");
    let (len, value) = present(object_name(&input));
    assert_eq!(text(&input[len..]), "");
    assert_eq!(value, "cube");
}

#[test]
fn test_parse_vertex() {
    let input = chars("v 1.000000 1.000000 -1.000000\n");
    let (len, v) = present(vertex(&input));
    assert_eq!(text(&input[len..]), "");
    let (x, y, z) = xyz(v);
    assert_eq!(x, 1.0);
    assert_eq!(y, 1.0);
    assert_eq!(z, -1.0);
}

#[test]
fn test_parse_vertex_with_comment() {
    let input = chars("v 1.000000 1.000000 -1.000000 #Vertex 1\n");
    let (len, v) = present(vertex(&input));
    assert_eq!(text(&input[len..]), "");
    let (x, y, z) = xyz(v);
    assert_eq!(x, 1.0);
    assert_eq!(y, 1.0);
    assert_eq!(z, -1.0);
}

#[test]
fn test_parse_vertex_with_leading_whitespace() {
    let input = chars("   v 1.000000 1.000000 -1.000000 #Vertex 1\n");
    let (len, v) = present(vertex(&input));
    assert_eq!(text(&input[len..]), "");
    let (x, y, z) = xyz(v);
    assert_eq!(x, 1.0);
    assert_eq!(y, 1.0);
    assert_eq!(z, -1.0);
}

#[test]
fn test_parse_vertex_with_integer_dimension() {
    let input = chars("v 1.000000 1 -1.000000\n");
    let (len, v) = present(vertex(&input));
    assert_eq!(text(&input[len..]), "");
    let (x, y, z) = xyz(v);
    assert_eq!(x, 1.0);
    assert_eq!(y, 1.0);
    assert_eq!(z, -1.0);
}

#[test]
fn test_parse_vertex_crlf() {
    let input = chars("v 1.000000 1.000000 -1.000000\r\n");
    let (len, v) = present(vertex(&input));
    assert_eq!(text(&input[len..]), "");
    let (x, y, z) = xyz(v);
    assert_eq!(x, 1.0);
    assert_eq!(y, 1.0);
    assert_eq!(z, -1.0);
}

fn check_three_vertices(source: &str, expected_remainder: &str) {
    let input = chars(source);
    match vertex_list(&input) {
        Ok((len, vertices)) => {
            assert_eq!(text(&input[len..]), expected_remainder);
            assert_eq!(vertices.len(), 3);
            assert_eq!(f32::from_bits(vertices[0].x), 1.0);
            assert_eq!(f32::from_bits(vertices[0].y), 1.0);
            assert_eq!(f32::from_bits(vertices[0].z), -1.0);
            assert_eq!(f32::from_bits(vertices[1].x), 1.0);
            assert_eq!(f32::from_bits(vertices[1].y), -1.0);
            assert_eq!(f32::from_bits(vertices[1].z), -1.0);
            assert_eq!(f32::from_bits(vertices[2].x), 1.0);
            assert_eq!(f32::from_bits(vertices[2].y), 1.0);
            assert_eq!(f32::from_bits(vertices[2].z), 1.0);
        }
        Err(at) => panic!("malformed record at {}", at),
    }
}

#[test]
fn test_parse_vertex_list() {
    check_three_vertices(
        "v 1.000000 1.000000 -1.000000\nv 1.000000 -1.000000 -1.000000\nv 1.000000 1.000000 1.000000\n",
        "",
    );
}

#[test]
fn test_parse_vertex_list_crlf() {
    check_three_vertices(
        "v 1.000000 1.000000 -1.000000\r\nv 1.000000 -1.000000 -1.000000\r\nv 1.000000 1.000000 1.000000\r\n",
        "",
    );
}

#[test]
fn test_parse_vertex_list_with_following_texture_coordinates() {
    check_three_vertices(
        "v 1.000000 1.000000 -1.000000\nv 1.000000 -1.000000 -1.000000\nv 1.000000 1.000000 1.000000\nvt 0.333134 0.000200\n",
        "vt 0.333134 0.000200\n",
    );
}

#[test]
fn test_parse_vertex_list_with_following_texture_coordinates_crlf() {
    check_three_vertices(
        "v 1.000000 1.000000 -1.000000\r\nv 1.000000 -1.000000 -1.000000\r\nv 1.000000 1.000000 1.000000\r\nvt 0.333134 0.000200\r\n",
        "vt 0.333134 0.000200\r\n",
    );
}

#[test]
fn test_parse_comment() {
    let input = chars("#this is a comment\n");
    let (len, words) = comment(&input).unwrap();
    assert_eq!(text(&input[len..]), "");
    assert_eq!(text(&input[1..1 + words]), "this is a comment");
}

#[test]
fn test_parse_comment_crlf() {
    let input = chars("#this is a comment\r\nNext Line");
    let (len, words) = comment(&input).unwrap();
    assert_eq!(text(&input[len..]), "Next Line");
    assert_eq!(text(&input[1..1 + words]), "this is a comment");
}

#[test]
fn test_parse_spaces() {
    let input = chars("   spaces  ");
    let n = spaces(&input).unwrap();
    assert_eq!(text(&input[n..]), "spaces  ");
    assert_eq!(text(&input[..n]), "   ");
}

#[test]
fn test_parse_texture_coordinates() {
    let input = chars("vt 0.333134 0.000200\n");
    let (len, v) = present(texture_coordinates(&input));
    assert_eq!(text(&input[len..]), "");
    let (x, y, z) = xyz(v);
    assert_eq!(x, 0.333134);
    assert_eq!(y, 0.000200);
    assert_eq!(z, 0.0);
}

#[test]
fn test_parse_texture_coordinates_with_three_dimensions() {
    let input = chars("vt 0.333134 0.000200 0.000\n");
    let (len, v) = present(texture_coordinates(&input));
    assert_eq!(text(&input[len..]), "");
    let (x, y, z) = xyz(v);
    assert_eq!(x, 0.333134);
    assert_eq!(y, 0.000200);
    assert_eq!(z, 0.0);
}

#[test]
fn test_parse_texture_coordinates_multiple_leading_spaces() {
    let input = chars("vt   0.333134 0.000200\n");
    let (len, v) = present(texture_coordinates(&input));
    assert_eq!(text(&input[len..]), "");
    let (x, y, z) = xyz(v);
    assert_eq!(x, 0.333134);
    assert_eq!(y, 0.000200);
    assert_eq!(z, 0.0);
}

#[test]
fn test_parse_vertex_normal() {
    let input = chars("vn 0.0000 1.0000 0.0000\n");
    let (len, v) = present(vertex_normal(&input));
    assert_eq!(text(&input[len..]), "");
    let (x, y, z) = xyz(v);
    assert_eq!(x, 0.0);
    assert_eq!(y, 1.0);
    assert_eq!(z, 0.0);
}

#[test]
fn test_parse_vertex_normal_list() {
    let input = chars("vn 0.0000 1.0000 0.0000\nvn 0.0000 0.0000 1.0000\nvn -1.0000 0.0000 0.0000\n");
    match vertex_normal_list(&input) {
        Ok((len, vertex_normals)) => {
            assert_eq!(text(&input[len..]), "");
            assert_eq!(vertex_normals.len(), 3);
            assert_eq!(f32::from_bits(vertex_normals[0].x), 0.0);
            assert_eq!(f32::from_bits(vertex_normals[0].y), 1.0);
            assert_eq!(f32::from_bits(vertex_normals[0].z), 0.0);
            assert_eq!(f32::from_bits(vertex_normals[1].x), 0.0);
            assert_eq!(f32::from_bits(vertex_normals[1].y), 0.0);
            assert_eq!(f32::from_bits(vertex_normals[1].z), 1.0);
            assert_eq!(f32::from_bits(vertex_normals[2].x), -1.0);
            assert_eq!(f32::from_bits(vertex_normals[2].y), 0.0);
            assert_eq!(f32::from_bits(vertex_normals[2].z), 0.0);
        }
        Err(at) => panic!("malformed record at {}", at),
    }
}

#[test]
fn test_parse_face_index() {
    let input = chars("1/16/10005 ");
    let (len, corner) = face_index(&input).unwrap();
    assert_eq!(text(&input[len..]), " ");
    assert_eq!(
        corner,
        FaceCorner { vertex_index: 1, texcoord_index: Some(16), normal_index: 10005 }
    );
}

#[test]
fn test_parse_face() {
    let input = chars("f 5/1/1 3/2/1 1/3/1\n");
    let (len, face) = present(face(&input));
    assert_eq!(text(&input[len..]), "");
    assert_eq!(face.corners.map(|c| c.vertex_index), [5, 3, 1]);
    assert_eq!(face.corners.map(|c| c.texcoord_index), [Some(1), Some(2), Some(3)]);
    assert_eq!(face.corners.map(|c| c.normal_index), [1, 1, 1]);
}

#[test]
fn test_parse_face_missing_texture_coordinates() {
    let input = chars("f 5//1 3//1 1//1\n");
    let (len, face) = present(face(&input));
    assert_eq!(text(&input[len..]), "");
    assert_eq!(face.corners.map(|c| c.vertex_index), [5, 3, 1]);
    assert_eq!(face.corners.map(|c| c.texcoord_index), [None, None, None]);
    assert_eq!(face.corners.map(|c| c.normal_index), [1, 1, 1]);
}

#[test]
fn test_parse_usemtl() {
    let input = chars("usemtl Material\n");
    let (len, value) = present(usemtl(&input));
    assert_eq!(text(&input[len..]), "");
    assert_eq!(value, "Material");
}

#[test]
fn test_parse_material_file() {
    let input = chars("mtllib cube_uv.mtl\n");
    let (len, value) = present(material_file(&input));
    assert_eq!(text(&input[len..]), "");
    assert_eq!(value, "cube_uv.mtl");
}

#[test]
fn test_parse_smooth_shading() {
    let input = chars("s off\n");
    assert_eq!(smooth_shading(&input), Record::Present { len: 6, value: false });

    let input = chars("s on\n");
    assert_eq!(smooth_shading(&input), Record::Present { len: 5, value: true });
}

#[test]
fn test_parse_polygon_group() {
    let input = chars("g group1\n");
    let (len, value) = present(polygon_group(&input));
    assert_eq!(text(&input[len..]), "");
    assert_eq!(value, "group1");
}

#[test]
fn smoothing_flag_words() {
    assert_eq!(smooth_shading(&chars("s on\n")), Record::Present { len: 5, value: true });
    assert_eq!(smooth_shading(&chars("s 1\n")), Record::Present { len: 4, value: true });
    assert_eq!(smooth_shading(&chars("s off\n")), Record::Present { len: 6, value: false });
    assert_eq!(smooth_shading(&chars("s 0\n")), Record::Present { len: 4, value: false });
    assert_eq!(smooth_shading(&chars("s maybe\n")), Record::Malformed { at: 0 });
    assert_eq!(smooth_shading(&chars("s on.\n")), Record::Malformed { at: 0 });
    assert_eq!(smooth_shading(&chars("s 1 # smooth\r\n")), Record::Present { len: 14, value: true });
    assert_eq!(smooth_shading(&chars("sx on\n")), Record::Absent);
}

#[test]
fn str_to_bool_words() {
    assert_eq!(str_to_bool(&chars("on")), Some(true));
    assert_eq!(str_to_bool(&chars("1")), Some(true));
    assert_eq!(str_to_bool(&chars("off")), Some(false));
    assert_eq!(str_to_bool(&chars("0")), Some(false));
    assert_eq!(str_to_bool(&chars("")), None);
    assert_eq!(str_to_bool(&chars("of")), None);
    assert_eq!(str_to_bool(&chars("ON")), None);
}

#[test]
fn character_classes() {
    assert!(is_space(' '));
    assert!(!is_space('\t'));
    for c in ['a', 'Z', '0', '9', '.', '_'] {
        assert!(is_name_char(c));
    }
    for c in [' ', '-', '/', '#', '\n', '\r'] {
        assert!(!is_name_char(c));
    }
}

#[test]
fn letters_outside_ascii_are_name_characters() {
    assert!(is_name_char('\u{e9}'));
    assert!(is_name_char('\u{3a9}'));
    assert!(!is_name_char('\u{20ac}'));
    let input = chars("o caf\u{e9}\n");
    let (len, value) = present(object_name(&input));
    assert_eq!(len, 7);
    assert_eq!(value, "caf\u{e9}");
}

#[test]
fn single_space_and_runs() {
    assert_eq!(space(&chars(" x")), Some(1));
    assert_eq!(space(&chars("  x")), Some(1));
    assert_eq!(space(&chars("x ")), None);
    assert_eq!(space(&chars("")), None);
    assert_eq!(spaces(&chars("x")), None);
    assert_eq!(spaces(&chars("")), None);
    assert_eq!(name(&chars("")), None);
    assert_eq!(name(&chars(" a")), None);
    assert_eq!(name(&chars("a.b_c9 d")), Some(6));
    assert_eq!(filename(&chars("cube_uv.mtl\n")), Some(11));
    assert_eq!(filename(&chars("/tmp/cube.mtl")), None);
}

#[test]
fn line_terminators() {
    assert_eq!(line_ending(&chars("\nx")), Some(1));
    assert_eq!(line_ending(&chars("\r\nx")), Some(2));
    assert_eq!(line_ending(&chars("\rx")), None);
    assert_eq!(line_ending(&chars("\r")), None);
    assert_eq!(line_ending(&chars("")), None);
    assert_eq!(line_ending(&chars("x\n")), None);
}

#[test]
fn comment_lines() {
    assert_eq!(comment(&chars("#\n")), Some((2, 0)));
    assert_eq!(comment(&chars("# a b\r\nrest")), Some((7, 4)));
    assert_eq!(comment(&chars("# no terminator")), None);
    assert_eq!(comment(&chars("#a\rb\n")), None);
    assert_eq!(comment(&chars(" #a\n")), None);
    assert_eq!(comment(&chars("")), None);
}

#[test]
fn blank_and_ignorable_lines() {
    assert_eq!(empty_line(&chars("\n")), Some(1));
    assert_eq!(empty_line(&chars("   \r\nv")), Some(5));
    assert_eq!(empty_line(&chars("   v\n")), None);
    assert_eq!(empty_line(&chars("   ")), None);
    assert_eq!(ignore_line(&chars("  \n# c\n")), Some(3));
    assert_eq!(ignore_line(&chars("# c\n\n")), Some(4));
    assert_eq!(ignore_line(&chars("v 1 2 3\n")), None);
    assert_eq!(ignore_lines(&chars("# a\n\n  \r\n#b\nv 1 2 3\n# c\n")), 12);
    assert_eq!(ignore_lines(&chars("v 1 2 3\n")), 0);
    assert_eq!(ignore_lines(&chars("")), 0);
}

#[test]
fn ends_of_lines() {
    assert_eq!(line_end(&chars("\n")), Some(1));
    assert_eq!(line_end(&chars("  \r\nx")), Some(4));
    assert_eq!(line_end(&chars("  # c\nx")), Some(6));
    assert_eq!(line_end(&chars("#c\r\n")), Some(4));
    assert_eq!(line_end(&chars("  x\n")), None);
    assert_eq!(line_end(&chars("  ")), None);
    assert_eq!(line_end(&chars("")), None);
}

#[test]
fn float_literals() {
    for (source, len) in [
        ("1", 1),
        ("-1", 2),
        ("+1.5", 4),
        ("1.", 2),
        (".5", 2),
        ("1.5e3", 5),
        ("1.5E-3x", 6),
        ("1e", 1),
        ("1e+", 1),
        ("1.5.2", 3),
        ("12 34", 2),
        (".", 0),
        ("-", 0),
        ("e5", 0),
        ("", 0),
        ("abc", 0),
    ] {
        assert_eq!(recognize_float(&chars(source)), len, "{:?}", source);
    }
}

#[test]
fn float_values() {
    assert_eq!(float(&chars("0.5 ")), Some((3, 0.5f32.to_bits())));
    assert_eq!(float(&chars("-2.25\n")), Some((5, (-2.25f32).to_bits())));
    assert_eq!(float(&chars("1e2")), Some((3, 100.0f32.to_bits())));
    assert_eq!(float(&chars("0.333134")), Some((8, 0.333134f32.to_bits())));
    assert_eq!(float(&chars("7")), Some((1, 7.0f32.to_bits())));
    assert_eq!(float(&chars("1.e2")), Some((4, 100.0f32.to_bits())));
    assert_eq!(float(&chars("+.5E1,")), Some((5, 5.0f32.to_bits())));
    assert_eq!(float(&chars("x")), None);
    assert_eq!(float(&chars("")), None);
}

#[test]
fn float_results() {
    assert_eq!(float_result(3, Some((0, 17))), Some((3, 17)));
    assert_eq!(float_result(3, Some((1, 17))), None);
    assert_eq!(float_result(3, None), None);
    assert_eq!(float_result(0, Some((0, 17))), None);
}

#[test]
fn indices() {
    assert_eq!(digit(&chars("123/")), Some(3));
    assert_eq!(digit(&chars("/")), None);
    assert_eq!(index(&chars("10005 ")), Some((5, 10005)));
    assert_eq!(index(&chars("007")), Some((3, 7)));
    assert_eq!(index(&chars("0")), Some((1, 0)));
    assert_eq!(index(&chars("")), None);
    assert_eq!(index(&chars("-1")), None);
    assert_eq!(index(&chars("42")), Some((2, 42)));
}

#[test]
fn an_index_too_large_is_the_largest() {
    let max = usize::MAX.to_string();
    assert_eq!(index(&chars(&max)), Some((max.len(), usize::MAX)));
    let mut more = max.clone();
    more.push('0');
    assert_eq!(index(&chars(&more)), Some((more.len(), usize::MAX)));
    assert_eq!(
        index(&chars("99999999999999999999999999999999999999999/")),
        Some((41, usize::MAX))
    );
    let below = (usize::MAX - 1).to_string();
    assert_eq!(index(&chars(&below)), Some((below.len(), usize::MAX - 1)));
}

#[test]
fn corners_need_both_slashes() {
    assert!(face_index(&chars("1")).is_none());
    assert!(face_index(&chars("1/2")).is_none());
    assert!(face_index(&chars("1/2/")).is_none());
    assert!(face_index(&chars("/2/3")).is_none());
    assert!(face_index(&chars("1 /2/3")).is_none());
    assert_eq!(
        face_index(&chars("1//3")),
        Some((4, FaceCorner { vertex_index: 1, texcoord_index: None, normal_index: 3 }))
    );
}

#[test]
fn faces_have_three_corners_one_space_apart() {
    assert_eq!(face(&chars("f 1//1 2//1\n")), Record::Malformed { at: 0 });
    assert_eq!(face(&chars("f 1//1 2//1 3//1 4//1\n")), Record::Malformed { at: 0 });
    assert_eq!(face(&chars("f 1//1  2//1 3//1\n")), Record::Malformed { at: 0 });
    assert_eq!(face(&chars("\n  f 1//1 2//1\n")), Record::Malformed { at: 3 });
    assert_eq!(face(&chars("g 1//1 2//1 3//1\n")), Record::Absent);
    assert_eq!(face(&chars("")), Record::Absent);
    let (len, _) = present(face(&chars("# c\n\nf   1//1 2//1 3//1   # done\r\nf")));
    assert_eq!(len, 34);
}

#[test]
fn records_absent_and_malformed() {
    assert_eq!(object_name(&chars("v 1 2 3\n")), Record::Absent);
    assert_eq!(object_name(&chars("")), Record::Absent);
    assert_eq!(object_name(&chars("object cube\n")), Record::Absent);
    assert_eq!(object_name(&chars("o \n")), Record::Malformed { at: 0 });
    assert_eq!(object_name(&chars("# c\n o cube")), Record::Malformed { at: 5 });
    assert_eq!(object_name(&chars("o two words\n")), Record::Malformed { at: 0 });
    assert_eq!(material_file(&chars("mtllib \n")), Record::Malformed { at: 0 });
    assert_eq!(usemtl(&chars("usemtl -\n")), Record::Malformed { at: 0 });
    assert_eq!(polygon_group(&chars("g\n")), Record::Absent);
    assert_eq!(vertex(&chars("vt 1 2\n")), Record::Absent);
    assert_eq!(vertex(&chars("v 1 2\n")), Record::Malformed { at: 0 });
    assert_eq!(vertex(&chars("v 1 2 3 4\n")), Record::Malformed { at: 0 });
    assert_eq!(vertex(&chars("v 1 2 3")), Record::Malformed { at: 0 });
    assert_eq!(vertex_normal(&chars("vn 1 2 x\n")), Record::Malformed { at: 0 });
    assert_eq!(texture_coordinates(&chars("vt 1\n")), Record::Malformed { at: 0 });
    assert_eq!(texture_coordinates(&chars("vt 0.1 0.20.3\n")), Record::Malformed { at: 0 });
}

#[test]
fn a_third_texture_component_is_dropped() {
    let (len, v) = present(texture_coordinates(&chars("vt 0.25 0.5   0.75  \n")));
    assert_eq!(len, 21);
    assert_eq!(xyz(v), (0.25, 0.5, 0.0));
    assert_eq!(v.z, 0);
}

#[test]
fn a_list_stops_at_the_first_other_record() {
    let input = chars("v 1 2 3\n# between\n\nv 4 5 6\n\n# after\nvt 0 0\n");
    let (len, vertices) = vertex_list(&input).unwrap();
    assert_eq!(vertices.len(), 2);
    assert_eq!(xyz(vertices[1]), (4.0, 5.0, 6.0));
    assert_eq!(text(&input[len..]), "\n# after\nvt 0 0\n");
    assert_eq!(vertex_list(&chars("vt 0 0\n")).unwrap(), (0, vec![]));
    assert_eq!(vertex_list(&chars("v 1 2 3\nv 1 2\n")), Err(8));
}
