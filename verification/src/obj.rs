//! The pipeline: the sections in their fixed order, then mesh assembly.

use crate::faces::{face_list, face_list_spec};
use crate::lexical::{ignore_lines, ignore_lines_len, tail};
use crate::mesh::{assemble, mesh_spec};
use crate::model::{
    Face, Failure, Found, Model, ModelView, ParseError, Record, Section, Vector3,
};
use crate::sections::{
    material_file, named_record_spec, object_name, polygon_group, smooth_shading, smoothing_spec,
    texture_coordinate_list, usemtl, vector_list_spec, vertex_list, vertex_normal_list, VectorKind,
};
use vstd::prelude::*;
use vstd::std_specs::iter::IteratorSpec;

verus! {

/// The name of a model whose text names no object.
pub open spec fn default_name() -> Seq<char> {
    "Object"@
}

/// The error of a record of `section` that begins `offset` characters into
/// the text and breaks off against its grammar.
pub open spec fn syntax_error(section: Section, offset: nat) -> Failure {
    Failure::Syntax { section, offset }
}

/// The result of reading what stands `n` characters into a text, seen from
/// the start of that text: the place of a syntax error moves by `n`.
pub open spec fn later<T>(res: Result<T, Failure>, n: nat) -> Result<T, Failure> {
    match res {
        Err(Failure::Syntax { section, offset }) => Err(
            Failure::Syntax { section, offset: offset + n },
        ),
        other => other,
    }
}

/// What the sections of a text hold, as far as the mesh needs it.
pub struct Sections {
    pub name: String,
    pub positions: Vec<Vector3>,
    pub texcoords: Vec<Vector3>,
    pub faces: Vec<Face>,
}

/// What a [`Sections`] holds.
pub struct SectionsView {
    pub name: Seq<char>,
    pub positions: Seq<Vector3>,
    pub texcoords: Seq<Vector3>,
    pub faces: Seq<Face>,
}

impl View for Sections {
    type V = SectionsView;

    open spec fn view(&self) -> SectionsView {
        SectionsView {
            name: self.name@,
            positions: self.positions@,
            texcoords: self.texcoords@,
            faces: self.faces@,
        }
    }
}

/// The last section: the face list.
#[verifier::opaque]
pub open spec fn from_faces(
    r: Seq<char>,
    name: Seq<char>,
    positions: Seq<Vector3>,
    texcoords: Seq<Vector3>,
) -> Result<SectionsView, Failure> {
    match face_list_spec(r) {
        Err(at) => Err(syntax_error(Section::FaceList, at)),
        Ok((_, faces)) => Ok(SectionsView { name, positions, texcoords, faces }),
    }
}

/// The pipeline from the smoothing flag on.
#[verifier::opaque]
pub open spec fn from_smoothing(
    r: Seq<char>,
    name: Seq<char>,
    positions: Seq<Vector3>,
    texcoords: Seq<Vector3>,
) -> Result<SectionsView, Failure> {
    match smoothing_spec(r) {
        Found::Malformed { at } => Err(syntax_error(Section::SmoothingFlag, at)),
        Found::Present { len, .. } => later(
            from_faces(r.skip(len as int), name, positions, texcoords),
            len,
        ),
        Found::Absent => from_faces(r, name, positions, texcoords),
    }
}

/// The pipeline from the polygon group on.
#[verifier::opaque]
pub open spec fn from_group(
    r: Seq<char>,
    name: Seq<char>,
    positions: Seq<Vector3>,
    texcoords: Seq<Vector3>,
) -> Result<SectionsView, Failure> {
    match named_record_spec(r, "g"@) {
        Found::Malformed { at } => Err(syntax_error(Section::PolygonGroup, at)),
        Found::Present { len, .. } => later(
            from_smoothing(r.skip(len as int), name, positions, texcoords),
            len,
        ),
        Found::Absent => from_smoothing(r, name, positions, texcoords),
    }
}

/// The pipeline from the material use on.
#[verifier::opaque]
pub open spec fn from_material_use(
    r: Seq<char>,
    name: Seq<char>,
    positions: Seq<Vector3>,
    texcoords: Seq<Vector3>,
) -> Result<SectionsView, Failure> {
    match named_record_spec(r, "usemtl"@) {
        Found::Malformed { at } => Err(syntax_error(Section::MaterialUse, at)),
        Found::Present { len, .. } => later(
            from_group(r.skip(len as int), name, positions, texcoords),
            len,
        ),
        Found::Absent => from_group(r, name, positions, texcoords),
    }
}

/// The pipeline from the normal list on. The normals are read and dropped.
#[verifier::opaque]
pub open spec fn from_normals(
    r: Seq<char>,
    name: Seq<char>,
    positions: Seq<Vector3>,
    texcoords: Seq<Vector3>,
) -> Result<SectionsView, Failure> {
    match vector_list_spec(VectorKind::Normal, r) {
        Err(at) => Err(syntax_error(Section::NormalList, at)),
        Ok((len, _)) => later(
            from_material_use(r.skip(len as int), name, positions, texcoords),
            len,
        ),
    }
}

/// The pipeline from the texture-coordinate list on.
#[verifier::opaque]
pub open spec fn from_texcoords(r: Seq<char>, name: Seq<char>, positions: Seq<Vector3>) -> Result<
    SectionsView,
    Failure,
> {
    match vector_list_spec(VectorKind::Texcoord, r) {
        Err(at) => Err(syntax_error(Section::TexcoordList, at)),
        Ok((len, texcoords)) => later(
            from_normals(r.skip(len as int), name, positions, texcoords),
            len,
        ),
    }
}

/// The pipeline from the vertex list on.
#[verifier::opaque]
pub open spec fn from_positions(r: Seq<char>, name: Seq<char>) -> Result<SectionsView, Failure> {
    match vector_list_spec(VectorKind::Position, r) {
        Err(at) => Err(syntax_error(Section::VertexList, at)),
        Ok((len, positions)) => later(from_texcoords(r.skip(len as int), name, positions), len),
    }
}

/// The pipeline from the object name on. A text that names no object yields
/// the default name.
#[verifier::opaque]
pub open spec fn from_object(r: Seq<char>) -> Result<SectionsView, Failure> {
    match named_record_spec(r, "o"@) {
        Found::Malformed { at } => Err(syntax_error(Section::ObjectName, at)),
        Found::Present { len, value } => later(from_positions(r.skip(len as int), value), len),
        Found::Absent => from_positions(r, default_name()),
    }
}

/// The pipeline from the material reference on. The file name is dropped.
#[verifier::opaque]
pub open spec fn from_material(r: Seq<char>) -> Result<SectionsView, Failure> {
    match named_record_spec(r, "mtllib"@) {
        Found::Malformed { at } => Err(syntax_error(Section::MaterialReference, at)),
        Found::Present { len, .. } => later(from_object(r.skip(len as int)), len),
        Found::Absent => from_object(r),
    }
}

/// What the sections of a text hold: the leading ignorable lines are dropped,
/// then the sections are read in their order.
pub open spec fn sections_spec(text: Seq<char>) -> Result<SectionsView, Failure> {
    let lead = ignore_lines_len(text);
    later(from_material(text.skip(lead as int)), lead)
}

/// The mesh that is assembled from the sections of a text.
pub open spec fn model_spec(sections: SectionsView) -> Result<ModelView, Failure> {
    match mesh_spec(sections.positions, sections.texcoords, sections.faces) {
        Ok((vertices, triangles)) => Ok(ModelView { name: sections.name, vertices, triangles }),
        Err(e) => Err(e),
    }
}

/// What a text parses to: the mesh assembled from its sections, or the first
/// error met on the way.
pub open spec fn parse_spec(text: Seq<char>) -> Result<ModelView, Failure> {
    match sections_spec(text) {
        Ok(sections) => model_spec(sections),
        Err(e) => Err(e),
    }
}

/// Whether the pipeline's result is the one that the grammar gives.
pub open spec fn sections_match(
    res: Result<Sections, ParseError>,
    expected: Result<SectionsView, Failure>,
) -> bool {
    match res {
        Ok(sections) => expected == Ok::<SectionsView, Failure>(sections@),
        Err(e) => expected == Err::<SectionsView, Failure>(e@),
    }
}

/// Whether a parse result is the one that the grammar gives.
pub open spec fn parse_matches(res: Result<Model, ParseError>, expected: Result<ModelView, Failure>)
    -> bool {
    match res {
        Ok(model) => expected == Ok::<ModelView, Failure>(model@),
        Err(e) => expected == Err::<ModelView, Failure>(e@),
    }
}

/// Drops the leading comment lines and blank lines, and returns the rest.
pub fn discard_comments(data: &[char]) -> (rest: &[char])
    ensures
        rest@ == data@.skip(ignore_lines_len(data@) as int),
        rest@.len() + ignore_lines_len(data@) == data@.len(),
{
    let n = ignore_lines(data);
    tail(data, n)
}

/// Copies the characters of a string slice into a vector.
pub fn to_chars(text: &str) -> (chars: Vec<char>)
    ensures
        chars@ == text@,
{
    let mut chars: Vec<char> = Vec::new();
    let mut iter = text.chars();
    loop
        invariant
            chars@ + iter.remaining() == text@,
            iter.obeys_prophetic_iter_laws(),
            iter.decrease() is Some,
        decreases iter.decrease()->0,
    {
        match iter.next() {
            Some(c) => {
                chars.push(c);
            },
            None => {
                return chars;
            },
        }
    }
}

/// The error of a malformed record that begins `at` characters into the text
/// behind the first `base` characters.
fn syntax(section: Section, base: usize, at: usize) -> (e: ParseError)
    requires
        base + at <= usize::MAX,
    ensures
        e@ == syntax_error(section, (base + at) as nat),
{
    ParseError::Syntax { section, offset: base + at }
}

/// Reads the face list, the last section.
fn read_from_faces(
    rest: &[char],
    base: usize,
    name: String,
    positions: Vec<Vector3>,
    texcoords: Vec<Vector3>,
) -> (res: Result<Sections, ParseError>)
    requires
        base + rest@.len() <= usize::MAX,
    ensures
        sections_match(res, later(from_faces(rest@, name@, positions@, texcoords@), base as nat)),
{
    reveal(from_faces);
    match face_list(rest) {
        Err(at) => Err(syntax(Section::FaceList, base, at)),
        Ok((_, faces)) => Ok(Sections { name, positions, texcoords, faces }),
    }
}

/// Reads the smoothing flag and what follows it.
fn read_from_smoothing(
    rest: &[char],
    base: usize,
    name: String,
    positions: Vec<Vector3>,
    texcoords: Vec<Vector3>,
) -> (res: Result<Sections, ParseError>)
    requires
        base + rest@.len() <= usize::MAX,
    ensures
        sections_match(res, later(from_smoothing(rest@, name@, positions@, texcoords@), base as nat)),
{
    reveal(from_smoothing);
    match smooth_shading(rest) {
        Record::Malformed { at } => Err(syntax(Section::SmoothingFlag, base, at)),
        Record::Present { len, .. } => read_from_faces(
            tail(rest, len),
            base + len,
            name,
            positions,
            texcoords,
        ),
        Record::Absent => read_from_faces(rest, base, name, positions, texcoords),
    }
}

/// Reads the polygon group and what follows it.
fn read_from_group(
    rest: &[char],
    base: usize,
    name: String,
    positions: Vec<Vector3>,
    texcoords: Vec<Vector3>,
) -> (res: Result<Sections, ParseError>)
    requires
        base + rest@.len() <= usize::MAX,
    ensures
        sections_match(res, later(from_group(rest@, name@, positions@, texcoords@), base as nat)),
{
    reveal(from_group);
    match polygon_group(rest) {
        Record::Malformed { at } => Err(syntax(Section::PolygonGroup, base, at)),
        Record::Present { len, .. } => read_from_smoothing(
            tail(rest, len),
            base + len,
            name,
            positions,
            texcoords,
        ),
        Record::Absent => read_from_smoothing(rest, base, name, positions, texcoords),
    }
}

/// Reads the material use and what follows it.
fn read_from_material_use(
    rest: &[char],
    base: usize,
    name: String,
    positions: Vec<Vector3>,
    texcoords: Vec<Vector3>,
) -> (res: Result<Sections, ParseError>)
    requires
        base + rest@.len() <= usize::MAX,
    ensures
        sections_match(res, later(from_material_use(rest@, name@, positions@, texcoords@), base as nat)),
{
    reveal(from_material_use);
    match usemtl(rest) {
        Record::Malformed { at } => Err(syntax(Section::MaterialUse, base, at)),
        Record::Present { len, .. } => read_from_group(
            tail(rest, len),
            base + len,
            name,
            positions,
            texcoords,
        ),
        Record::Absent => read_from_group(rest, base, name, positions, texcoords),
    }
}

/// Reads the normal list, drops it, and reads what follows it.
fn read_from_normals(
    rest: &[char],
    base: usize,
    name: String,
    positions: Vec<Vector3>,
    texcoords: Vec<Vector3>,
) -> (res: Result<Sections, ParseError>)
    requires
        base + rest@.len() <= usize::MAX,
    ensures
        sections_match(res, later(from_normals(rest@, name@, positions@, texcoords@), base as nat)),
{
    reveal(from_normals);
    match vertex_normal_list(rest) {
        Err(at) => Err(syntax(Section::NormalList, base, at)),
        Ok((len, _)) => read_from_material_use(
            tail(rest, len),
            base + len,
            name,
            positions,
            texcoords,
        ),
    }
}

/// Reads the texture-coordinate list and what follows it.
fn read_from_texcoords(rest: &[char], base: usize, name: String, positions: Vec<Vector3>) -> (res:
    Result<Sections, ParseError>)
    requires
        base + rest@.len() <= usize::MAX,
    ensures
        sections_match(res, later(from_texcoords(rest@, name@, positions@), base as nat)),
{
    reveal(from_texcoords);
    match texture_coordinate_list(rest) {
        Err(at) => Err(syntax(Section::TexcoordList, base, at)),
        Ok((len, texcoords)) => read_from_normals(
            tail(rest, len),
            base + len,
            name,
            positions,
            texcoords,
        ),
    }
}

/// Reads the vertex list and what follows it.
fn read_from_positions(rest: &[char], base: usize, name: String) -> (res: Result<
    Sections,
    ParseError,
>)
    requires
        base + rest@.len() <= usize::MAX,
    ensures
        sections_match(res, later(from_positions(rest@, name@), base as nat)),
{
    reveal(from_positions);
    match vertex_list(rest) {
        Err(at) => Err(syntax(Section::VertexList, base, at)),
        Ok((len, positions)) => read_from_texcoords(tail(rest, len), base + len, name, positions),
    }
}

/// Reads the object name, or takes the default name, and reads what follows.
fn read_from_object(rest: &[char], base: usize) -> (res: Result<Sections, ParseError>)
    requires
        base + rest@.len() <= usize::MAX,
    ensures
        sections_match(res, later(from_object(rest@), base as nat)),
{
    reveal(from_object);
    match object_name(rest) {
        Record::Malformed { at } => Err(syntax(Section::ObjectName, base, at)),
        Record::Present { len, value } => read_from_positions(tail(rest, len), base + len, value),
        Record::Absent => read_from_positions(rest, base, "Object".to_owned()),
    }
}

/// Reads the material reference, drops it, and reads what follows it.
fn read_from_material(rest: &[char], base: usize) -> (res: Result<Sections, ParseError>)
    requires
        base + rest@.len() <= usize::MAX,
    ensures
        sections_match(res, later(from_material(rest@), base as nat)),
{
    reveal(from_material);
    match material_file(rest) {
        Record::Malformed { at } => Err(syntax(Section::MaterialReference, base, at)),
        Record::Present { len, .. } => read_from_object(tail(rest, len), base + len),
        Record::Absent => read_from_object(rest, base),
    }
}

/// Reads the sections of an OBJ text in their order.
pub fn read_sections(input: &[char]) -> (res: Result<Sections, ParseError>)
    ensures
        sections_match(res, sections_spec(input@)),
{
    let rest = discard_comments(input);
    read_from_material(rest, input.len() - rest.len())
}

/// Assembles the mesh from what the sections hold.
pub fn build_model(sections: Sections) -> (res: Result<Model, ParseError>)
    ensures
        parse_matches(res, model_spec(sections@)),
        res matches Ok(model) ==> model@.well_formed() && model@.vertices.len() == 3
            * sections@.faces.len(),
{
    match assemble(&sections.positions, &sections.texcoords, &sections.faces) {
        Ok((vertices, triangles)) => Ok(Model { name: sections.name, vertices, triangles }),
        Err(e) => Err(e),
    }
}

/// Parses the characters of an OBJ text into a mesh.
pub fn parse_chars(input: &[char]) -> (res: Result<Model, ParseError>)
    ensures
        parse_matches(res, parse_spec(input@)),
        res matches Ok(model) ==> model@.well_formed() && (sections_spec(input@) matches Ok(
            sections,
        ) && model@.vertices.len() == 3 * sections.faces.len()),
{
    match read_sections(input) {
        Ok(sections) => build_model(sections),
        Err(e) => Err(e),
    }
}

/// Parses an OBJ text into a mesh.
///
/// The result is `Ok` exactly where every record that the text begins follows
/// its grammar and every face corner refers to a position, and where it names
/// one a texture coordinate, that was read before it. The mesh then holds
/// three vertices for each face, and its index list counts them up from zero.
pub fn parse_obj_file(data: &str) -> (res: Result<Model, ParseError>)
    ensures
        parse_matches(res, parse_spec(data@)),
        res matches Ok(model) ==> model@.well_formed() && (sections_spec(data@) matches Ok(
            sections,
        ) && model@.vertices.len() == 3 * sections.faces.len()),
{
    let chars = to_chars(data);
    parse_chars(chars.as_slice())
}

} // verus!
