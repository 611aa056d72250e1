//! Wavefront OBJ text to a flat triangle mesh.
//!
//! Every parser reads from the front of the remaining text and states its
//! result over a specification of the grammar; the mesh is then assembled
//! with one vertex for each corner of each face.

pub mod faces;
pub mod laws;
pub mod lexical;
pub mod line_endings;
pub mod mesh;
pub mod model;
pub mod number;
pub mod obj;
pub mod sections;

pub use model::{Model, ParseError, Vertex};
pub use obj::parse_obj_file;
