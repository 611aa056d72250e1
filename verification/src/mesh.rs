//! Mesh assembly: every face corner becomes a vertex of its own.

use crate::model::{index_list, Face, FaceCorner, Failure, ParseError, Vector3, Vertex};
use vstd::prelude::*;

verus! {

/// Whether the indices of a corner refer to a position and, where it has one,
/// a texture coordinate among those that were read.
pub open spec fn corner_ok(c: FaceCorner, positions: nat, texcoords: nat) -> bool {
    &&& 1 <= c.vertex_index <= positions
    &&& match c.texcoord_index {
        Some(t) => 1 <= t <= texcoords,
        None => true,
    }
}

/// The vertex that a corner resolves to: its position, and its texture
/// coordinate or the zero vector where it names none.
pub open spec fn corner_vertex(
    c: FaceCorner,
    positions: Seq<Vector3>,
    texcoords: Seq<Vector3>,
) -> Vertex {
    Vertex {
        p: positions[c.vertex_index - 1],
        uv: match c.texcoord_index {
            Some(t) => texcoords[t - 1],
            None => Vector3::zero(),
        },
    }
}

/// The corner with number `k` over all faces, three to a face.
pub open spec fn corner_at(faces: Seq<Face>, k: int) -> FaceCorner {
    faces[k / 3].corners[k % 3]
}

/// Whether corner `k` is the first whose indices are out of range.
pub open spec fn first_bad_corner(
    faces: Seq<Face>,
    positions: nat,
    texcoords: nat,
    k: int,
) -> bool {
    &&& 0 <= k < 3 * faces.len()
    &&& !corner_ok(corner_at(faces, k), positions, texcoords)
    &&& forall|j: int| 0 <= j < k ==> corner_ok(#[trigger] corner_at(faces, j), positions, texcoords)
}

/// Whether the indices of all corners are in range.
pub open spec fn all_corners_ok(faces: Seq<Face>, positions: nat, texcoords: nat) -> bool {
    forall|k: int|
        0 <= k < 3 * faces.len() ==> corner_ok(#[trigger] corner_at(faces, k), positions, texcoords)
}

/// The vertex buffer and the index list of a mesh, or the first corner whose
/// indices are out of range.
pub open spec fn mesh_spec(positions: Seq<Vector3>, texcoords: Seq<Vector3>, faces: Seq<Face>)
    -> Result<(Seq<Vertex>, Seq<nat>), Failure> {
    if all_corners_ok(faces, positions.len(), texcoords.len()) {
        Ok(
            (
                Seq::new(
                    3 * faces.len(),
                    |k: int| corner_vertex(corner_at(faces, k), positions, texcoords),
                ),
                Seq::new(3 * faces.len(), |k: int| k as nat),
            ),
        )
    } else {
        let k = choose|k: int| first_bad_corner(faces, positions.len(), texcoords.len(), k);
        Err(Failure::IndexOutOfRange { face: (k / 3) as nat, corner: (k % 3) as nat })
    }
}

/// Resolves one corner, or reports that an index of it is out of range.
pub fn resolve(corner: FaceCorner, positions: &Vec<Vector3>, texcoords: &Vec<Vector3>) -> (res:
    Option<Vertex>)
    ensures
        res is Some <==> corner_ok(corner, positions@.len(), texcoords@.len()),
        res matches Some(v) ==> v == corner_vertex(corner, positions@, texcoords@),
{
    if corner.vertex_index < 1 || corner.vertex_index > positions.len() {
        return None;
    }
    let p = positions[corner.vertex_index - 1];
    let uv = match corner.texcoord_index {
        Some(t) => {
            if t < 1 || t > texcoords.len() {
                return None;
            }
            texcoords[t - 1]
        },
        None => Vector3::zero(),
    };
    Some(Vertex { p, uv })
}

/// Builds the vertex buffer and the index list: one new vertex for every
/// corner of every face, in source order, and the index list that counts them
/// up from zero.
pub fn assemble(positions: &Vec<Vector3>, texcoords: &Vec<Vector3>, faces: &Vec<Face>) -> (res:
    Result<(Vec<Vertex>, Vec<usize>), ParseError>)
    ensures
        match res {
            Ok((vertices, triangles)) => mesh_spec(positions@, texcoords@, faces@) == Ok::<
                (Seq<Vertex>, Seq<nat>),
                Failure,
            >((vertices@, index_list(triangles@))),
            Err(e) => mesh_spec(positions@, texcoords@, faces@) == Err::<
                (Seq<Vertex>, Seq<nat>),
                Failure,
            >(e@),
        },
        res matches Ok((vertices, triangles)) ==> {
            &&& vertices@.len() == 3 * faces@.len()
            &&& triangles@.len() == 3 * faces@.len()
            &&& forall|i: int| 0 <= i < triangles@.len() ==> #[trigger] triangles@[i] == i
        },
{
    let mut vertices: Vec<Vertex> = Vec::new();
    let mut triangles: Vec<usize> = Vec::new();
    let mut f: usize = 0;
    while f < faces.len()
        invariant
            f <= faces@.len(),
            vertices@.len() == 3 * f,
            triangles@.len() == 3 * f,
            forall|k: int|
                0 <= k < 3 * f ==> corner_ok(
                    #[trigger] corner_at(faces@, k),
                    positions@.len(),
                    texcoords@.len(),
                ),
            forall|k: int|
                0 <= k < 3 * f ==> #[trigger] vertices@[k] == corner_vertex(
                    corner_at(faces@, k),
                    positions@,
                    texcoords@,
                ),
            forall|k: int| 0 <= k < 3 * f ==> #[trigger] triangles@[k] == k,
        decreases faces@.len() - f,
    {
        let face = faces[f];
        let mut c: usize = 0;
        while c < 3
            invariant
                f < faces@.len(),
                face == faces@[f as int],
                c <= 3,
                vertices@.len() == 3 * f + c,
                triangles@.len() == 3 * f + c,
                forall|k: int|
                    0 <= k < 3 * f + c ==> corner_ok(
                        #[trigger] corner_at(faces@, k),
                        positions@.len(),
                        texcoords@.len(),
                    ),
                forall|k: int|
                    0 <= k < 3 * f + c ==> #[trigger] vertices@[k] == corner_vertex(
                        corner_at(faces@, k),
                        positions@,
                        texcoords@,
                    ),
                forall|k: int| 0 <= k < 3 * f + c ==> #[trigger] triangles@[k] == k,
            decreases 3 - c,
        {
            let corner = face.corners[c];
            proof {
                assert((3 * f + c) / 3 == f && (3 * f + c) % 3 == c);
                assert(corner == corner_at(faces@, 3 * f + c));
            }
            match resolve(corner, positions, texcoords) {
                Some(v) => {
                    triangles.push(vertices.len());
                    vertices.push(v);
                },
                None => {
                    proof {
                        let n = positions@.len();
                        let m = texcoords@.len();
                        let k = 3 * f + c;
                        assert(first_bad_corner(faces@, n, m, k));
                        assert(!all_corners_ok(faces@, n, m));
                        let w = choose|w: int| first_bad_corner(faces@, n, m, w);
                        assert(first_bad_corner(faces@, n, m, w));
                        assert(w == k);
                    }
                    return Err(ParseError::IndexOutOfRange { face: f, corner: c });
                },
            }
            c += 1;
        }
        f += 1;
    }
    proof {
        let expected = mesh_spec(positions@, texcoords@, faces@);
        assert(all_corners_ok(faces@, positions@.len(), texcoords@.len()));
        assert(expected->Ok_0.0 =~= vertices@);
        assert(expected->Ok_0.1 =~= index_list(triangles@));
    }
    Ok((vertices, triangles))
}

} // verus!
