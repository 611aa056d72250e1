use objmesh::mesh::{assemble, resolve};
use objmesh::model::{Face, FaceCorner, ParseError, Section, Vector3, Vertex};
use objmesh::obj::{discard_comments, parse_chars, parse_obj_file, to_chars};
use objmesh::sections::text_of;
use objmesh::Model;

const CUBE_UV: &str = "# Unit cube with texture coordinates
# eight positions, twelve triangles
mtllib cube_uv.mtl
o Cube
v -1.000000 1.000000 -1.000000
v 1.000000 1.000000 -1.000000
v 1.000000 1.000000 1.000000
v -1.000000 1.000000 1.000000
v -1.000000 -1.000000 -1.000000
v 1.000000 -1.000000 -1.000000
v 1.000000 -1.000000 1.000000
v -1.000000 -1.000000 1.000000
vt 0.000000 0.000000
vt 1.000000 0.000000
vt 1.000000 1.000000
vt 0.000000 1.000000
vn 0.0000 1.0000 0.0000
vn 0.0000 0.0000 1.0000
vn 1.0000 0.0000 0.0000
vn 0.0000 0.0000 -1.0000
vn -1.0000 0.0000 0.0000
vn 0.0000 -1.0000 0.0000
usemtl Material
s off
f 1/1/1 4/2/1 3/3/1
f 1/1/1 3/3/1 2/4/1
f 4/1/2 8/2/2 7/3/2
f 4/1/2 7/3/2 3/4/2
f 3/1/3 7/2/3 6/3/3
f 3/1/3 6/3/3 2/4/3
f 2/1/4 6/2/4 5/3/4
f 2/1/4 5/3/4 1/4/4
f 1/1/5 5/2/5 8/3/5
f 1/1/5 8/3/5 4/4/5
f 5/1/6 8/2/6 7/3/6
f 5/1/6 7/3/6 6/4/6
";

const CUBE_STRIPPED: &str = "v -1.000000 1.000000 -1.000000
v 1.000000 1.000000 -1.000000
v 1.000000 1.000000 1.000000
v -1.000000 1.000000 1.000000
v -1.000000 -1.000000 -1.000000
v 1.000000 -1.000000 -1.000000
v 1.000000 -1.000000 1.000000
v -1.000000 -1.000000 1.000000
vt 0.000000 0.000000
vt 1.000000 0.000000
vt 1.000000 1.000000
vt 0.000000 1.000000
vn 0.0000 1.0000 0.0000
vn 0.0000 0.0000 1.0000
vn 1.0000 0.0000 0.0000
vn 0.0000 0.0000 -1.0000
vn -1.0000 0.0000 0.0000
vn 0.0000 -1.0000 0.0000
s off
f 1/1/1 4/2/1 3/3/1
f 1/1/1 3/3/1 2/4/1
f 4/1/2 8/2/2 7/3/2
f 4/1/2 7/3/2 3/4/2
f 3/1/3 7/2/3 6/3/3
f 3/1/3 6/3/3 2/4/3
f 2/1/4 6/2/4 5/3/4
f 2/1/4 5/3/4 1/4/4
f 1/1/5 5/2/5 8/3/5
f 1/1/5 8/3/5 4/4/5
f 5/1/6 8/2/6 7/3/6
f 5/1/6 7/3/6 6/4/6
";

const CUBE_COMMENTED: &str = "# Unit cube

# The positions, top first
v -1.000000 1.000000 -1.000000 # top, back left
v 1.000000 1.000000 -1.000000
v 1.000000 1.000000 1.000000
# the last corner of the top
v -1.000000 1.000000 1.000000

# and the bottom
v -1.000000 -1.000000 -1.000000
v 1.000000 -1.000000 -1.000000 #bottom
v 1.000000 -1.000000 1.000000
v -1.000000 -1.000000 1.000000
# Texture coordinates
vt 0.000000 0.000000
vt 1.000000 0.000000
# half way
vt 1.000000 1.000000
vt 0.000000 1.000000
# Normals
vn 0.0000 1.0000 0.0000
vn 0.0000 0.0000 1.0000
vn 1.0000 0.0000 0.0000
vn 0.0000 0.0000 -1.0000
vn -1.0000 0.0000 0.0000
vn 0.0000 -1.0000 0.0000
# No smoothing
s off
# Faces
f 1/1/1 4/2/1 3/3/1
f 1/1/1 3/3/1 2/4/1 # top done
f 4/1/2 8/2/2 7/3/2
f 4/1/2 7/3/2 3/4/2

# sides
f 3/1/3 7/2/3 6/3/3
f 3/1/3 6/3/3 2/4/3
f 2/1/4 6/2/4 5/3/4
f 2/1/4 5/3/4 1/4/4
f 1/1/5 5/2/5 8/3/5
f 1/1/5 8/3/5 4/4/5
# bottom
f 5/1/6 8/2/6 7/3/6
f 5/1/6 7/3/6 6/4/6
# end
";

const CUBE_POLYGON_GROUPS: &str = "# Unit cube with one polygon group
mtllib cube_uv.mtl
o Cube
v -1.000000 1.000000 -1.000000
v 1.000000 1.000000 -1.000000
v 1.000000 1.000000 1.000000
v -1.000000 1.000000 1.000000
v -1.000000 -1.000000 -1.000000
v 1.000000 -1.000000 -1.000000
v 1.000000 -1.000000 1.000000
v -1.000000 -1.000000 1.000000
vt 0.000000 0.000000
vt 1.000000 0.000000
vt 1.000000 1.000000
vt 0.000000 1.000000
vn 0.0000 1.0000 0.0000
vn 0.0000 0.0000 1.0000
vn 1.0000 0.0000 0.0000
vn 0.0000 0.0000 -1.0000
vn -1.0000 0.0000 0.0000
vn 0.0000 -1.0000 0.0000
usemtl Material
g Cube_Faces
s off
f 1/1/1 4/2/1 3/3/1
f 1/1/1 3/3/1 2/4/1
f 4/1/2 8/2/2 7/3/2
f 4/1/2 7/3/2 3/4/2
f 3/1/3 7/2/3 6/3/3
f 3/1/3 6/3/3 2/4/3
f 2/1/4 6/2/4 5/3/4
f 2/1/4 5/3/4 1/4/4
f 1/1/5 5/2/5 8/3/5
f 1/1/5 8/3/5 4/4/5
f 5/1/6 8/2/6 7/3/6
f 5/1/6 7/3/6 6/4/6
";

fn chars(s: &str) -> Vec<char> {
    s.chars().collect()
}

fn xyz(v: Vector3) -> (f32, f32, f32) {
    (f32::from_bits(v.x), f32::from_bits(v.y), f32::from_bits(v.z))
}

fn vector(x: f32, y: f32, z: f32) -> Vector3 {
    Vector3 { x: x.to_bits(), y: y.to_bits(), z: z.to_bits() }
}

fn parse(source: &str) -> Model {
    match parse_obj_file(source) {
        Ok(model) => model,
        Err(e) => panic!("no model: {:?}", e),
    }
}

fn syntax(section: Section, offset: usize) -> ParseError {
    ParseError::Syntax { section, offset }
}

fn error_of(source: &str) -> ParseError {
    match parse_obj_file(source) {
        Ok(_) => panic!("a model from {:?}", source),
        Err(e) => e,
    }
}

fn check_cube(model: &Model) {
    assert_eq!(model.vertices.len(), 12 * 3);
    assert_eq!(f32::from_bits(model.vertices[0].p.x), -1.0);
    assert_eq!(f32::from_bits(model.vertices[0].p.y), 1.0);
    assert_eq!(f32::from_bits(model.vertices[0].p.z), -1.0);
    assert_eq!(f32::from_bits(model.vertices[6].p.x), -1.0);
    assert_eq!(f32::from_bits(model.vertices[6].p.y), 1.0);
    assert_eq!(f32::from_bits(model.vertices[6].p.z), 1.0);
    assert_eq!(f32::from_bits(model.vertices[35].p.x), 1.0);
    assert_eq!(f32::from_bits(model.vertices[35].p.y), -1.0);
    assert_eq!(f32::from_bits(model.vertices[35].p.z), -1.0);

    assert_eq!(model.triangles.len(), 12 * 3);
    assert_eq!(model.triangles[0], 0);
    assert_eq!(model.triangles[1], 1);
    assert_eq!(model.triangles[2], 2);
    assert_eq!(model.triangles[35], 35);
}

#[test]
fn test_parse_obj_file() {
    let model = parse(CUBE_UV);
    assert_eq!(model.name, "Cube");
    check_cube(&model);
}

#[test]
fn test_parse_obj_file_stripped() {
    let model = parse(CUBE_STRIPPED);
    assert_eq!(model.name, "Object");
    check_cube(&model);
}

#[test]
fn test_parse_obj_file_commented() {
    let model = parse(CUBE_COMMENTED);
    assert_eq!(model.name, "Object");
    check_cube(&model);
}

#[test]
fn test_parse_obj_file_polygon_groups() {
    let model = parse(CUBE_POLYGON_GROUPS);
    assert_eq!(model.name, "Cube");
    check_cube(&model);
}

#[test]
fn the_cube_variants_give_the_same_buffers() {
    let cube = parse(CUBE_UV);
    for source in [CUBE_STRIPPED, CUBE_COMMENTED, CUBE_POLYGON_GROUPS] {
        let other = parse(source);
        assert_eq!(other.vertices, cube.vertices);
        assert_eq!(other.triangles, cube.triangles);
    }
    assert_eq!(cube.vertices[1].uv, vector(1.0, 0.0, 0.0));
    assert_eq!(cube.vertices[5].uv, vector(0.0, 1.0, 0.0));
}

#[test]
fn every_corner_is_a_vertex_of_its_own() {
    let model = parse("v 0 0 0\nv 1 0 0\nv 0 1 0\nf 1//1 2//1 3//1\nf 3//1 2//1 1//1\nf 1//1 1//1 1//1\n");
    assert_eq!(model.vertices.len(), 9);
    assert_eq!(model.triangles, (0..9).collect::<Vec<usize>>());
    assert_eq!(model.vertices[8].p, model.vertices[0].p);
    assert_eq!(xyz(model.vertices[3].p), (0.0, 1.0, 0.0));
}

#[test]
fn a_text_without_an_object_name_is_named_object() {
    assert_eq!(parse("").name, "Object");
    assert_eq!(parse("v 1 2 3\n").name, "Object");
    assert_eq!(parse("mtllib a.mtl\nv 1 2 3\n").name, "Object");
    assert_eq!(parse("mtllib a.mtl\no Thing\nv 1 2 3\n").name, "Thing");
    assert_eq!(parse("o b_1.x\n").name, "b_1.x");
}

#[test]
fn leading_blank_and_comment_lines_change_nothing() {
    let source = "o A\nv 0 0 0\nv 1 0 0\nv 0 1 0\nvt 0.5 0.5\nf 1/1/1 2/1/1 3/1/1\n";
    let plain = parse(source);
    for lead in ["\n", "# one\n", "   \n#two\r\n\r\n", "#\n#\n#\n   \n"] {
        let led = parse(&format!("{}{}", lead, source));
        assert_eq!(led.name, plain.name);
        assert_eq!(led.vertices, plain.vertices);
        assert_eq!(led.triangles, plain.triangles);
    }
}

#[test]
fn line_feed_and_carriage_return_line_feed_parse_alike() {
    for source in [CUBE_UV, CUBE_STRIPPED, CUBE_COMMENTED, CUBE_POLYGON_GROUPS] {
        let unix = parse(source);
        let dos = parse(&source.replace('\n', "\r\n"));
        assert_eq!(dos.name, unix.name);
        assert_eq!(dos.vertices, unix.vertices);
        assert_eq!(dos.triangles, unix.triangles);
    }
    let mixed = parse("o M\r\nv 0 0 0\nv 1 0 0\r\nv 0 1 0\nf 1//1 2//1 3//1\r\n");
    assert_eq!(mixed.name, "M");
    assert_eq!(mixed.vertices.len(), 3);
}

#[test]
fn a_corner_without_texture_coordinate_gets_the_zero_vector() {
    let model = parse("v 0 0 0\nv 1 0 0\nv 0 1 0\nvt 0.5 0.25\nf 1//1 2/1/1 3//1\n");
    assert_eq!(model.vertices[0].uv, Vector3 { x: 0, y: 0, z: 0 });
    assert_eq!(xyz(model.vertices[0].uv), (0.0, 0.0, 0.0));
    assert_eq!(xyz(model.vertices[1].uv), (0.5, 0.25, 0.0));
    assert_eq!(model.vertices[2].uv, Vector3::zero());
}

#[test]
fn components_may_be_integer_literals() {
    let model = parse("v 1 1 -1\nf 1//1 1//1 1//1\n");
    assert_eq!(xyz(model.vertices[0].p), (1.0, 1.0, -1.0));
}

#[test]
fn smoothing_flags_in_a_text() {
    let body = "v 0 0 0\n";
    let faces = "f 1//1 1//1 1//1\n";
    for flag in ["on", "1", "off", "0"] {
        let model = parse(&format!("{}s {}\n{}", body, flag, faces));
        assert_eq!(model.vertices.len(), 3);
    }
    assert_eq!(
        error_of(&format!("{}s maybe\n{}", body, faces)),
        syntax(Section::SmoothingFlag, 8)
    );
}

#[test]
fn each_section_reports_its_malformed_record() {
    assert_eq!(error_of("mtllib \n"), syntax(Section::MaterialReference, 0));
    assert_eq!(error_of("# c\nmtllib a b\n"), syntax(Section::MaterialReference, 4));
    assert_eq!(error_of("o \n"), syntax(Section::ObjectName, 0));
    assert_eq!(error_of("mtllib m\n\n  o a b\n"), syntax(Section::ObjectName, 12));
    assert_eq!(error_of("v 1 2\n"), syntax(Section::VertexList, 0));
    assert_eq!(error_of("o a\nv 1 2 3\nv 1 2 3 4\n"), syntax(Section::VertexList, 12));
    assert_eq!(error_of("v 1 2 3\nvt 1\n"), syntax(Section::TexcoordList, 8));
    assert_eq!(error_of("vn 1 2\n"), syntax(Section::NormalList, 0));
    assert_eq!(error_of("usemtl \n"), syntax(Section::MaterialUse, 0));
    assert_eq!(error_of("g \n"), syntax(Section::PolygonGroup, 0));
    assert_eq!(error_of("s 2\n"), syntax(Section::SmoothingFlag, 0));
    assert_eq!(error_of("v 1 2 3\nf 1//1 1//1\n"), syntax(Section::FaceList, 8));
    assert_eq!(error_of("v 1 2 3\nf 1//1 1//1 1//1 1//1\n"), syntax(Section::FaceList, 8));
    assert_eq!(
        error_of("v 1 2 3\nf 1//1 1//1 1//1\nf 1 1 1\n"),
        syntax(Section::FaceList, 25)
    );
}

#[test]
fn indices_out_of_range_are_reported() {
    let positions = "v 0 0 0\nv 1 0 0\nvt 0 0\n";
    let bad = |face: usize, corner: usize| ParseError::IndexOutOfRange { face, corner };
    assert_eq!(error_of(&format!("{}f 0//1 1//1 1//1\n", positions)), bad(0, 0));
    assert_eq!(error_of(&format!("{}f 1//1 3//1 1//1\n", positions)), bad(0, 1));
    assert_eq!(error_of(&format!("{}f 1//1 2//1 1/2/1\n", positions)), bad(0, 2));
    assert_eq!(error_of(&format!("{}f 1//1 2//1 1/0/1\n", positions)), bad(0, 2));
    assert_eq!(
        error_of(&format!("{}f 1/1/1 2/1/1 1/1/1\nf 2//0 9//0 0//0\n", positions)),
        bad(1, 1)
    );
    assert_eq!(
        error_of(&format!("{}f 1//1 2//1 99999999999999999999999999//1\n", positions)),
        bad(0, 2)
    );
    assert_eq!(parse(&format!("{}f 1/1/0 2/1/0 1/1/7\n", positions)).vertices.len(), 3);
}

#[test]
fn what_follows_the_faces_is_not_read() {
    let model = parse("o A\nv 0 0 0\nf 1//1 1//1 1//1\no B\nv 1 1 1\nf 2//1 2//1 2//1\n");
    assert_eq!(model.name, "A");
    assert_eq!(model.vertices.len(), 3);
    assert_eq!(parse("v 0 0 0\n  # indented\nv 1 1 1\nf 2//1 2//1 2//1\n").vertices.len(), 0);
}

#[test]
fn an_empty_text_is_an_empty_mesh() {
    let model = parse("");
    assert_eq!(model.name, "Object");
    assert!(model.vertices.is_empty());
    assert!(model.triangles.is_empty());
    let model = parse("# nothing\n\n");
    assert!(model.vertices.is_empty());
}

#[test]
fn parsing_characters_is_parsing_the_text() {
    let from_text = parse(CUBE_UV);
    let from_chars = parse_chars(&chars(CUBE_UV)).unwrap();
    assert_eq!(from_chars.name, from_text.name);
    assert_eq!(from_chars.vertices, from_text.vertices);
    assert_eq!(from_chars.triangles, from_text.triangles);
    assert_eq!(to_chars("a\u{e9}\n"), vec!['a', '\u{e9}', '\n']);
    assert_eq!(text_of(&['o', '\u{3a9}']), "o\u{3a9}");
}

#[test]
fn leading_lines_are_discarded() {
    let input = chars("# a\n\n   \nmtllib x\n");
    let rest: String = discard_comments(&input).iter().collect();
    assert_eq!(rest, "mtllib x\n");
    let input = chars("  v 1 2 3\n");
    assert_eq!(discard_comments(&input).len(), input.len());
}

#[test]
fn assembling_by_hand() {
    let positions = vec![vector(1.0, 2.0, 3.0), vector(4.0, 5.0, 6.0)];
    let texcoords = vec![vector(0.5, 0.5, 0.0)];
    let corner = |v: usize, t: Option<usize>| FaceCorner {
        vertex_index: v,
        texcoord_index: t,
        normal_index: 1,
    };
    let faces = vec![Face { corners: [corner(2, None), corner(1, Some(1)), corner(2, Some(1))] }];
    let (vertices, triangles) = assemble(&positions, &texcoords, &faces).unwrap();
    assert_eq!(
        vertices,
        vec![
            Vertex { p: positions[1], uv: Vector3::zero() },
            Vertex { p: positions[0], uv: texcoords[0] },
            Vertex { p: positions[1], uv: texcoords[0] },
        ]
    );
    assert_eq!(triangles, vec![0, 1, 2]);
    assert_eq!(assemble(&positions, &texcoords, &vec![]).unwrap(), (vec![], vec![]));
    assert_eq!(resolve(corner(3, None), &positions, &texcoords), None);
    assert_eq!(resolve(corner(0, None), &positions, &texcoords), None);
    assert_eq!(resolve(corner(1, Some(2)), &positions, &texcoords), None);
    assert_eq!(
        resolve(corner(1, None), &positions, &texcoords),
        Some(Vertex { p: positions[0], uv: Vector3 { x: 0, y: 0, z: 0 } })
    );
    assert_eq!(Vector3::new(1, 2, 3), Vector3 { x: 1, y: 2, z: 3 });
}
