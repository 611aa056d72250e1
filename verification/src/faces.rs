//! Face records: three corners, each a triple of 1-based indices.

use crate::lexical::{
    at_keyword, lead_len, line_end, line_end_len, skip_lead, space, spaces_len,
    starts_with_keyword, tail, take_run, CharClass,
};
use crate::model::{Face, FaceCorner, Found, Record};
use crate::number::{index, index_spec};
use crate::sections::{extend, framed, list_matches};
use vstd::prelude::*;
use vstd::string::StrSliceExecFns;

verus! {

/// Whether the character at place `i` of `r` is `c`.
pub open spec fn has_char(r: Seq<char>, i: nat, c: char) -> bool {
    i < r.len() && r[i as int] == c
}

/// A face corner: a vertex index, `/`, an optional texture-coordinate index,
/// `/`, and a normal index.
#[verifier::opaque]
pub open spec fn corner_spec(r: Seq<char>) -> Option<(nat, FaceCorner)> {
    match index_spec(r) {
        Some((a, v)) if has_char(r, a, '/') => {
            let texcoord = index_spec(r.skip(a + 1 as int));
            let b = match texcoord {
                Some((b, _)) => b,
                None => 0,
            };
            match index_spec(r.skip(a + b + 2 as int)) {
                Some((c, n)) if has_char(r, a + 1 + b, '/') => Some(
                    (
                        a + b + c + 2,
                        FaceCorner {
                            vertex_index: v,
                            texcoord_index: match texcoord {
                                Some((_, t)) => Some(t),
                                None => None,
                            },
                            normal_index: n,
                        },
                    ),
                ),
                _ => None,
            }
        },
        _ => None,
    }
}

/// Three corners with one space between each two, and the end of the line.
#[verifier::opaque]
pub open spec fn corners_spec(r: Seq<char>) -> Option<(nat, Face)> {
    match corner_spec(r) {
        Some((a, c1)) if has_char(r, a, ' ') => match corner_spec(r.skip(a + 1 as int)) {
            Some((b, c2)) if has_char(r, a + 1 + b, ' ') => match corner_spec(
                r.skip(a + b + 2 as int),
            ) {
                Some((c, c3)) => {
                    let e = line_end_len(r.skip(a + b + c + 2 as int));
                    if e > 0 {
                        Some((a + b + c + 2 + e, Face { corners: [c1, c2, c3] }))
                    } else {
                        None
                    }
                },
                None => None,
            },
            _ => None,
        },
        _ => None,
    }
}

/// A face record from its keyword on: the keyword, spaces and three corners.
pub open spec fn face_body(t: Seq<char>, keyword: Seq<char>) -> Option<(nat, Face)> {
    let s = keyword.len() + spaces_len(t.skip(keyword.len() as int));
    match corners_spec(t.skip(s as int)) {
        Some((n, f)) => Some((s + n, f)),
        None => None,
    }
}

/// A face record where it may stand.
pub open spec fn face_spec(r: Seq<char>) -> Found<Face> {
    let k = lead_len(r);
    let t = r.skip(k as int);
    framed(k, at_keyword(t, "f"@), face_body(t, "f"@))
}

/// A list of face records: as many as stand one behind the other. `Ok` holds
/// the length of the list and its faces; `Err` holds the place of the first
/// record that breaks off against its grammar.
pub open spec fn face_list_spec(r: Seq<char>) -> Result<(nat, Seq<Face>), nat>
    decreases r.len(),
{
    match face_spec(r) {
        Found::Present { len, value } if 0 < len <= r.len() => extend(
            len,
            seq![value],
            face_list_spec(r.skip(len as int)),
        ),
        Found::Malformed { at } => Err(at),
        _ => Ok((0, Seq::empty())),
    }
}

/// Reads a face corner.
pub fn face_index(input: &[char]) -> (res: Option<(usize, FaceCorner)>)
    ensures
        res is Some <==> corner_spec(input@) is Some,
        res matches Some((n, c)) ==> corner_spec(input@) == Some((n as nat, c)) && 0 < n
            <= input@.len(),
{
    reveal(corner_spec);
    let (a, v) = match index(input) {
        Some(found) => found,
        None => {
            return None;
        },
    };
    if !(a < input.len() && input[a] == '/') {
        return None;
    }
    let (b, texcoord): (usize, Option<usize>) = match index(tail(input, a + 1)) {
        Some((b, t)) => (b, Some(t)),
        None => (0, None),
    };
    if !(a + 1 + b < input.len() && input[a + 1 + b] == '/') {
        return None;
    }
    match index(tail(input, a + b + 2)) {
        Some((c, n)) => Some(
            (a + b + c + 2, FaceCorner { vertex_index: v, texcoord_index: texcoord, normal_index: n }),
        ),
        None => None,
    }
}

/// Reads three corners and the end of the line.
pub fn corners(input: &[char]) -> (res: Option<(usize, Face)>)
    ensures
        res is Some <==> corners_spec(input@) is Some,
        res matches Some((n, f)) ==> corners_spec(input@) == Some((n as nat, f)) && 0 < n
            <= input@.len(),
{
    reveal(corners_spec);
    let (a, c1) = match face_index(input) {
        Some(found) => found,
        None => {
            return None;
        },
    };
    if space(tail(input, a)).is_none() {
        return None;
    }
    let (b, c2) = match face_index(tail(input, a + 1)) {
        Some(found) => found,
        None => {
            return None;
        },
    };
    if space(tail(input, a + 1 + b)).is_none() {
        return None;
    }
    let (c, c3) = match face_index(tail(input, a + b + 2)) {
        Some(found) => found,
        None => {
            return None;
        },
    };
    match line_end(tail(input, a + b + c + 2)) {
        Some(e) => Some((a + b + c + 2 + e, Face { corners: [c1, c2, c3] })),
        None => None,
    }
}

/// Reads a face: `f` and three corners.
pub fn face(input: &[char]) -> (res: Record<Face>)
    ensures
        res@ == face_spec(input@),
        res matches Record::Present { len, .. } ==> 0 < len <= input@.len(),
        res matches Record::Malformed { at } ==> at < input@.len(),
{
    let k = skip_lead(input);
    let t = tail(input, k);
    if !starts_with_keyword(t, "f") {
        return Record::Absent;
    }
    let kw = "f".unicode_len();
    let s = kw + take_run(CharClass::Space, tail(t, kw));
    match corners(tail(t, s)) {
        Some((n, f)) => Record::Present { len: k + s + n, value: f },
        None => Record::Malformed { at: k },
    }
}

/// Reads a list of faces.
pub fn face_list(input: &[char]) -> (res: Result<(usize, Vec<Face>), usize>)
    ensures
        list_matches(res, face_list_spec(input@)),
        res matches Ok((n, _)) ==> n <= input@.len(),
        res matches Err(at) ==> at < input@.len(),
{
    let mut items: Vec<Face> = Vec::new();
    let mut done: usize = 0;
    let mut rest = tail(input, 0);
    proof {
        assert(rest@ =~= input@);
        match face_list_spec(input@) {
            Ok((n, vs)) => {
                assert(Seq::<Face>::empty() + vs =~= vs);
            },
            Err(_) => {},
        }
    }
    loop
        invariant
            done + rest@.len() == input@.len(),
            input@.len() <= usize::MAX,
            face_list_spec(input@) == extend(done as nat, items@, face_list_spec(rest@)),
        decreases rest@.len(),
    {
        match face(rest) {
            Record::Present { len, value } => {
                proof {
                    let after = face_list_spec(rest@.skip(len as int));
                    match after {
                        Ok((n, vs)) => {
                            assert(items@.push(value) + vs =~= items@ + (seq![value] + vs));
                        },
                        Err(_) => {},
                    }
                }
                items.push(value);
                done += len;
                rest = tail(rest, len);
            },
            Record::Malformed { at } => {
                return Err(done + at);
            },
            Record::Absent => {
                proof {
                    assert(items@ + Seq::<Face>::empty() =~= items@);
                }
                return Ok((done, items));
            },
        }
    }
}

} // verus!
