//! The mesh that a parse produces, and the records it is assembled from.

use vstd::prelude::*;

verus! {

/// A vector of three single-precision components, each held as the bit pattern
/// of its IEEE 754 binary32 value.
#[derive(Clone, Copy, Debug, PartialEq, Eq, Structural)]
pub struct Vector3 {
    pub x: u32,
    pub y: u32,
    pub z: u32,
}

impl Vector3 {
    /// The vector whose three components are positive zero.
    pub open spec fn spec_zero() -> Vector3 {
        Vector3 { x: 0, y: 0, z: 0 }
    }

    /// Builds a vector from three component bit patterns.
    pub fn new(x: u32, y: u32, z: u32) -> (v: Vector3)
        ensures
            v == (Vector3 { x, y, z }),
    {
        Vector3 { x, y, z }
    }

    /// The zero vector.
    #[verifier::when_used_as_spec(spec_zero)]
    pub fn zero() -> (v: Vector3)
        ensures
            v == Vector3::spec_zero(),
    {
        Vector3 { x: 0, y: 0, z: 0 }
    }
}

/// One vertex of the output mesh: a position and a texture coordinate.
#[derive(Clone, Copy, Debug, PartialEq, Eq, Structural)]
pub struct Vertex {
    pub p: Vector3,
    pub uv: Vector3,
}

/// A triangle mesh: a flat vertex buffer and the index list over it.
pub struct Model {
    pub name: String,
    pub vertices: Vec<Vertex>,
    pub triangles: Vec<usize>,
}

/// What a [`Model`] holds.
pub struct ModelView {
    pub name: Seq<char>,
    pub vertices: Seq<Vertex>,
    pub triangles: Seq<nat>,
}

/// The numbers that a list of indices holds.
pub open spec fn index_list(indices: Seq<usize>) -> Seq<nat> {
    Seq::new(indices.len(), |k: int| indices[k] as nat)
}

impl View for Model {
    type V = ModelView;

    open spec fn view(&self) -> ModelView {
        ModelView {
            name: self.name@,
            vertices: self.vertices@,
            triangles: index_list(self.triangles@),
        }
    }
}

impl ModelView {
    /// Every three consecutive indices form one triangle, and no vertex is
    /// shared: the index list counts the vertices up from zero.
    pub open spec fn well_formed(self) -> bool {
        &&& self.triangles.len() == self.vertices.len()
        &&& self.vertices.len() % 3 == 0
        &&& forall|i: int| 0 <= i < self.triangles.len() ==> #[trigger] self.triangles[i] == i
    }
}

} // verus!

verus! {

impl View for Vector3 {
    type V = Vector3;

    open spec fn view(&self) -> Vector3 {
        *self
    }
}

/// One corner of a face: 1-based indices into the positions, the texture
/// coordinates and the normals read before it.
#[derive(Clone, Copy, Debug, PartialEq, Eq)]
pub struct FaceCorner {
    pub vertex_index: usize,
    pub texcoord_index: Option<usize>,
    pub normal_index: usize,
}

/// A triangular face: three corners in source order.
#[derive(Clone, Copy, Debug, PartialEq, Eq)]
pub struct Face {
    pub corners: [FaceCorner; 3],
}

impl View for Face {
    type V = Face;

    open spec fn view(&self) -> Face {
        *self
    }
}

/// The sections of the grammar, in the order in which they are read.
#[derive(Clone, Copy, Debug, PartialEq, Eq, Structural)]
pub enum Section {
    /// The blank lines and comment lines before the first record. Reading
    /// them cannot fail: what is no such line is left for the next section.
    LeadingComments,
    /// The material reference, `mtllib`.
    MaterialReference,
    /// The object name, `o`.
    ObjectName,
    /// The vertex positions, `v`.
    VertexList,
    /// The texture coordinates, `vt`.
    TexcoordList,
    /// The vertex normals, `vn`.
    NormalList,
    /// The material use, `usemtl`.
    MaterialUse,
    /// The polygon group, `g`.
    PolygonGroup,
    /// The smoothing flag, `s`.
    SmoothingFlag,
    /// The faces, `f`.
    FaceList,
}

/// Why a text yields no mesh.
#[derive(Clone, Copy, Debug, PartialEq, Eq, Structural)]
pub enum ParseError {
    /// A record of `section` begins `offset` characters into the text and
    /// does not follow the section's grammar.
    Syntax { section: Section, offset: usize },
    /// A corner (0 to 2) of a face (counted from 0) refers to a position or
    /// a texture coordinate that was not read.
    IndexOutOfRange { face: usize, corner: usize },
}

/// What a [`ParseError`] holds.
pub enum Failure {
    /// A malformed record of `section`, `offset` characters into the text.
    Syntax { section: Section, offset: nat },
    /// An index out of range in a corner of a face.
    IndexOutOfRange { face: nat, corner: nat },
}

impl View for ParseError {
    type V = Failure;

    open spec fn view(&self) -> Failure {
        match *self {
            ParseError::Syntax { section, offset } => Failure::Syntax {
                section,
                offset: offset as nat,
            },
            ParseError::IndexOutOfRange { face, corner } => Failure::IndexOutOfRange {
                face: face as nat,
                corner: corner as nat,
            },
        }
    }
}

/// What the grammar finds where a record may stand.
pub enum Found<V> {
    /// No record of the kind begins here.
    Absent,
    /// A record of `len` characters, leading ignorable lines included.
    Present { len: nat, value: V },
    /// A record of the kind begins `at` characters into the text and breaks
    /// off against its grammar.
    Malformed { at: nat },
}

/// What a record parser reports; its view is a [`Found`].
#[derive(Debug, PartialEq, Eq)]
pub enum Record<T> {
    /// No record of the kind begins here; the text is left as it is.
    Absent,
    /// A record of `len` characters, leading ignorable lines included.
    Present { len: usize, value: T },
    /// A record of the kind begins `at` characters into the text and breaks
    /// off against its grammar.
    Malformed { at: usize },
}

impl<T: View> View for Record<T> {
    type V = Found<T::V>;

    open spec fn view(&self) -> Found<T::V> {
        match *self {
            Record::Absent => Found::Absent,
            Record::Present { len, value } => Found::Present { len: len as nat, value: value@ },
            Record::Malformed { at } => Found::Malformed { at: at as nat },
        }
    }
}

} // verus!
