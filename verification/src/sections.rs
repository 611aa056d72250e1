//! Section parsers: one per kind of record, each preceded by any number of
//! ignorable lines and optional spaces.

use crate::lexical::{
    at_keyword, lead_len, line_end, line_end_len, name_len, run_len, skip_lead, spaces_len,
    starts_with_keyword, tail, take_run, CharClass,
};
use crate::model::{Found, Record, Vector3};
use crate::number::{float, float_spec};
use vstd::prelude::*;
use vstd::slice::slice_subrange;
use vstd::string::StrSliceExecFns;

verus! {

/// Std's `String::push` appends one character.
pub assume_specification[ String::push ](s: &mut String, c: char)
    ensures
        final(s)@ == old(s)@.push(c),
;

/// Frames what a record's grammar found behind its keyword: `lead` is the
/// length of what precedes the keyword, `present` whether the keyword stands
/// there, and `body` the record from the keyword on.
pub open spec fn framed<V>(lead: nat, present: bool, body: Option<(nat, V)>) -> Found<V> {
    if !present {
        Found::Absent
    } else {
        match body {
            Some((n, v)) => Found::Present { len: lead + n, value: v },
            None => Found::Malformed { at: lead },
        }
    }
}

/// A record that holds one identifier, from its keyword on: the keyword,
/// spaces, the identifier and the end of the line.
pub open spec fn named_body(t: Seq<char>, keyword: Seq<char>) -> Option<(nat, Seq<char>)> {
    let a = keyword.len() + spaces_len(t.skip(keyword.len() as int));
    let n = name_len(t.skip(a as int));
    let e = line_end_len(t.skip(a + n as int));
    if n > 0 && e > 0 {
        Some((a + n + e, t.skip(a as int).take(n as int)))
    } else {
        None
    }
}

/// A record that holds one identifier, where it may stand.
pub open spec fn named_record_spec(r: Seq<char>, keyword: Seq<char>) -> Found<Seq<char>> {
    let k = lead_len(r);
    let t = r.skip(k as int);
    framed(k, at_keyword(t, keyword), named_body(t, keyword))
}

/// Copies characters into a string.
pub fn text_of(chars: &[char]) -> (s: String)
    ensures
        s@ == chars@,
{
    let mut s = String::new();
    let mut i: usize = 0;
    while i < chars.len()
        invariant
            i <= chars.len(),
            s@ == chars@.take(i as int),
        decreases chars.len() - i,
    {
        s.push(chars[i]);
        proof {
            assert(chars@.take(i as int).push(chars@[i as int]) =~= chars@.take(i + 1));
        }
        i += 1;
    }
    proof {
        assert(chars@.take(chars@.len() as int) =~= chars@);
    }
    s
}

/// Reads a record that holds one identifier under the given keyword.
pub fn named_record(input: &[char], keyword: &str) -> (res: Record<String>)
    ensures
        res@ == named_record_spec(input@, keyword@),
        res matches Record::Present { len, .. } ==> 0 < len <= input@.len(),
        res matches Record::Malformed { at } ==> at < input@.len(),
{
    let k = skip_lead(input);
    let t = tail(input, k);
    if !starts_with_keyword(t, keyword) {
        return Record::Absent;
    }
    let w = keyword.unicode_len();
    let a = w + take_run(CharClass::Space, tail(t, w));
    let rest = tail(t, a);
    let n = take_run(CharClass::Name, rest);
    if n == 0 {
        return Record::Malformed { at: k };
    }
    match line_end(tail(t, a + n)) {
        Some(e) => Record::Present {
            len: k + a + n + e,
            value: text_of(slice_subrange(rest, 0, n)),
        },
        None => Record::Malformed { at: k },
    }
}

/// Reads a material reference: `mtllib`, a file name, the end of the line.
pub fn material_file(input: &[char]) -> (res: Record<String>)
    ensures
        res@ == named_record_spec(input@, "mtllib"@),
        res matches Record::Present { len, .. } ==> 0 < len <= input@.len(),
        res matches Record::Malformed { at } ==> at < input@.len(),
{
    named_record(input, "mtllib")
}

/// Reads an object name: `o`, an identifier, the end of the line.
pub fn object_name(input: &[char]) -> (res: Record<String>)
    ensures
        res@ == named_record_spec(input@, "o"@),
        res matches Record::Present { len, .. } ==> 0 < len <= input@.len(),
        res matches Record::Malformed { at } ==> at < input@.len(),
{
    named_record(input, "o")
}

/// Reads a material use: `usemtl`, an identifier, the end of the line.
pub fn usemtl(input: &[char]) -> (res: Record<String>)
    ensures
        res@ == named_record_spec(input@, "usemtl"@),
        res matches Record::Present { len, .. } ==> 0 < len <= input@.len(),
        res matches Record::Malformed { at } ==> at < input@.len(),
{
    named_record(input, "usemtl")
}

/// Reads a polygon group: `g`, an identifier, the end of the line.
pub fn polygon_group(input: &[char]) -> (res: Record<String>)
    ensures
        res@ == named_record_spec(input@, "g"@),
        res matches Record::Present { len, .. } ==> 0 < len <= input@.len(),
        res matches Record::Malformed { at } ==> at < input@.len(),
{
    named_record(input, "g")
}

/// The three kinds of record that hold a vector.
#[derive(Clone, Copy, Debug, PartialEq, Eq, Structural)]
pub enum VectorKind {
    /// A vertex position, `v`.
    Position,
    /// A texture coordinate, `vt`.
    Texcoord,
    /// A vertex normal, `vn`.
    Normal,
}

/// The keyword of a kind of vector record.
pub open spec fn vector_keyword(kind: VectorKind) -> Seq<char> {
    match kind {
        VectorKind::Position => "v"@,
        VectorKind::Texcoord => "vt"@,
        VectorKind::Normal => "vn"@,
    }
}

/// One component of a vector record: one or more spaces, then a
/// floating-point literal.
pub open spec fn component_spec(r: Seq<char>) -> Option<(nat, u32)> {
    let s = spaces_len(r);
    match float_spec(r.skip(s as int)) {
        Some((n, b)) if s > 0 => Some((s + n, b)),
        _ => None,
    }
}

/// What follows the keyword of a position or a normal: three components and
/// the end of the line.
#[verifier::opaque]
pub open spec fn triple_spec(r: Seq<char>) -> Option<(nat, Vector3)> {
    match component_spec(r) {
        Some((a, x)) => match component_spec(r.skip(a as int)) {
            Some((b, y)) => match component_spec(r.skip(a + b as int)) {
                Some((c, z)) => {
                    let e = line_end_len(r.skip(a + b + c as int));
                    if e > 0 {
                        Some((a + b + c + e, Vector3 { x, y, z }))
                    } else {
                        None
                    }
                },
                None => None,
            },
            None => None,
        },
        None => None,
    }
}

/// What follows the keyword of a texture coordinate: two components, an
/// optional third that is read and dropped, and the end of the line. The
/// third component of the result is zero.
#[verifier::opaque]
pub open spec fn pair_spec(r: Seq<char>) -> Option<(nat, Vector3)> {
    match component_spec(r) {
        Some((a, x)) => match component_spec(r.skip(a as int)) {
            Some((b, y)) => {
                let c = match component_spec(r.skip(a + b as int)) {
                    Some((c, _)) => c,
                    None => 0,
                };
                let e = line_end_len(r.skip(a + b + c as int));
                if e > 0 {
                    Some((a + b + c + e, Vector3 { x, y, z: 0 }))
                } else {
                    None
                }
            },
            None => None,
        },
        None => None,
    }
}

/// A vector record from its keyword on.
pub open spec fn vector_body(kind: VectorKind, t: Seq<char>) -> Option<(nat, Vector3)> {
    let w = vector_keyword(kind).len();
    let rest = t.skip(w as int);
    let body = match kind {
        VectorKind::Texcoord => pair_spec(rest),
        _ => triple_spec(rest),
    };
    match body {
        Some((n, v)) => Some((w + n, v)),
        None => None,
    }
}

/// A vector record where it may stand.
pub open spec fn vector_spec(kind: VectorKind, r: Seq<char>) -> Found<Vector3> {
    let k = lead_len(r);
    let t = r.skip(k as int);
    framed(k, at_keyword(t, vector_keyword(kind)), vector_body(kind, t))
}

/// Joins a count of characters and a list read before with the result of
/// reading the rest of a list.
pub open spec fn extend<V>(len: nat, head: Seq<V>, rest: Result<(nat, Seq<V>), nat>) -> Result<
    (nat, Seq<V>),
    nat,
> {
    match rest {
        Ok((n, vs)) => Ok((len + n, head + vs)),
        Err(at) => Err(len + at),
    }
}

/// A list of vector records: as many as stand one behind the other. `Ok`
/// holds the length of the list and its vectors; `Err` holds the place of
/// the first record that breaks off against its grammar.
pub open spec fn vector_list_spec(kind: VectorKind, r: Seq<char>) -> Result<(nat, Seq<Vector3>), nat>
    decreases r.len(),
{
    match vector_spec(kind, r) {
        Found::Present { len, value } if 0 < len <= r.len() => extend(
            len,
            seq![value],
            vector_list_spec(kind, r.skip(len as int)),
        ),
        Found::Malformed { at } => Err(at),
        _ => Ok((0, Seq::empty())),
    }
}

/// Whether a list parser's result is the one that the grammar gives.
pub open spec fn list_matches<T>(
    res: Result<(usize, Vec<T>), usize>,
    expected: Result<(nat, Seq<T>), nat>,
) -> bool {
    match res {
        Ok((n, items)) => expected == Ok::<(nat, Seq<T>), nat>((n as nat, items@)),
        Err(at) => expected == Err::<(nat, Seq<T>), nat>(at as nat),
    }
}

/// Reads one component of a vector record.
pub fn component(input: &[char]) -> (res: Option<(usize, u32)>)
    ensures
        res is Some <==> component_spec(input@) is Some,
        res matches Some((n, b)) ==> component_spec(input@) == Some((n as nat, b)) && 0 < n
            <= input@.len(),
{
    let s = take_run(CharClass::Space, input);
    if s == 0 {
        return None;
    }
    match float(tail(input, s)) {
        Some((n, b)) => Some((s + n, b)),
        None => None,
    }
}

/// Reads three components and the end of the line.
pub fn triple(input: &[char]) -> (res: Option<(usize, Vector3)>)
    ensures
        res is Some <==> triple_spec(input@) is Some,
        res matches Some((n, v)) ==> triple_spec(input@) == Some((n as nat, v)) && 0 < n
            <= input@.len(),
{
    reveal(triple_spec);
    reveal(pair_spec);
    let (a, x) = match component(input) {
        Some(c) => c,
        None => {
            return None;
        },
    };
    let (b, y) = match component(tail(input, a)) {
        Some(c) => c,
        None => {
            return None;
        },
    };
    let (c, z) = match component(tail(input, a + b)) {
        Some(c) => c,
        None => {
            return None;
        },
    };
    match line_end(tail(input, a + b + c)) {
        Some(e) => Some((a + b + c + e, Vector3::new(x, y, z))),
        None => None,
    }
}

/// Reads two components, an optional third and the end of the line.
pub fn pair(input: &[char]) -> (res: Option<(usize, Vector3)>)
    ensures
        res is Some <==> pair_spec(input@) is Some,
        res matches Some((n, v)) ==> pair_spec(input@) == Some((n as nat, v)) && 0 < n
            <= input@.len(),
{
    reveal(triple_spec);
    reveal(pair_spec);
    let (a, x) = match component(input) {
        Some(c) => c,
        None => {
            return None;
        },
    };
    let (b, y) = match component(tail(input, a)) {
        Some(c) => c,
        None => {
            return None;
        },
    };
    let c: usize = match component(tail(input, a + b)) {
        Some((c, _)) => c,
        None => 0,
    };
    match line_end(tail(input, a + b + c)) {
        Some(e) => Some((a + b + c + e, Vector3::new(x, y, 0))),
        None => None,
    }
}

/// The keyword of a kind of vector record.
pub fn keyword_of(kind: VectorKind) -> (keyword: &'static str)
    ensures
        keyword@ == vector_keyword(kind),
{
    match kind {
        VectorKind::Position => "v",
        VectorKind::Texcoord => "vt",
        VectorKind::Normal => "vn",
    }
}

/// Reads one vector record of the given kind.
pub fn vector_record(kind: VectorKind, input: &[char]) -> (res: Record<Vector3>)
    ensures
        res@ == vector_spec(kind, input@),
        res matches Record::Present { len, .. } ==> 0 < len <= input@.len(),
        res matches Record::Malformed { at } ==> at < input@.len(),
{
    let k = skip_lead(input);
    let t = tail(input, k);
    let keyword = keyword_of(kind);
    if !starts_with_keyword(t, keyword) {
        return Record::Absent;
    }
    let w = keyword.unicode_len();
    let rest = tail(t, w);
    let body = match kind {
        VectorKind::Texcoord => pair(rest),
        _ => triple(rest),
    };
    match body {
        Some((n, v)) => Record::Present { len: k + w + n, value: v },
        None => Record::Malformed { at: k },
    }
}

/// Reads a list of vector records of the given kind.
pub fn vector_list(kind: VectorKind, input: &[char]) -> (res: Result<(usize, Vec<Vector3>), usize>)
    ensures
        list_matches(res, vector_list_spec(kind, input@)),
        res matches Ok((n, _)) ==> n <= input@.len(),
        res matches Err(at) ==> at < input@.len(),
{
    let mut items: Vec<Vector3> = Vec::new();
    let mut done: usize = 0;
    let mut rest = tail(input, 0);
    proof {
        assert(rest@ =~= input@);
        assert(items@ + Seq::<Vector3>::empty() =~= Seq::<Vector3>::empty());
        match vector_list_spec(kind, input@) {
            Ok((n, vs)) => {
                assert(Seq::<Vector3>::empty() + vs =~= vs);
            },
            Err(_) => {},
        }
    }
    loop
        invariant
            done + rest@.len() == input@.len(),
            input@.len() <= usize::MAX,
            vector_list_spec(kind, input@) == extend(
                done as nat,
                items@,
                vector_list_spec(kind, rest@),
            ),
        decreases rest@.len(),
    {
        match vector_record(kind, rest) {
            Record::Present { len, value } => {
                proof {
                    let after = vector_list_spec(kind, rest@.skip(len as int));
                    match after {
                        Ok((n, vs)) => {
                            assert(items@.push(value) + vs =~= items@ + (seq![value] + vs));
                        },
                        Err(_) => {},
                    }
                }
                items.push(value);
                done += len;
                rest = tail(rest, len);
            },
            Record::Malformed { at } => {
                return Err(done + at);
            },
            Record::Absent => {
                proof {
                    assert(items@ + Seq::<Vector3>::empty() =~= items@);
                }
                return Ok((done, items));
            },
        }
    }
}

/// Reads a vertex position: `v` and three components.
pub fn vertex(input: &[char]) -> (res: Record<Vector3>)
    ensures
        res@ == vector_spec(VectorKind::Position, input@),
{
    vector_record(VectorKind::Position, input)
}

/// Reads a list of vertex positions.
pub fn vertex_list(input: &[char]) -> (res: Result<(usize, Vec<Vector3>), usize>)
    ensures
        list_matches(res, vector_list_spec(VectorKind::Position, input@)),
        res matches Ok((n, _)) ==> n <= input@.len(),
        res matches Err(at) ==> at < input@.len(),
{
    vector_list(VectorKind::Position, input)
}

/// Reads a texture coordinate: `vt` and two or three components.
pub fn texture_coordinates(input: &[char]) -> (res: Record<Vector3>)
    ensures
        res@ == vector_spec(VectorKind::Texcoord, input@),
{
    vector_record(VectorKind::Texcoord, input)
}

/// Reads a list of texture coordinates.
pub fn texture_coordinate_list(input: &[char]) -> (res: Result<(usize, Vec<Vector3>), usize>)
    ensures
        list_matches(res, vector_list_spec(VectorKind::Texcoord, input@)),
        res matches Ok((n, _)) ==> n <= input@.len(),
        res matches Err(at) ==> at < input@.len(),
{
    vector_list(VectorKind::Texcoord, input)
}

/// Reads a vertex normal: `vn` and three components.
pub fn vertex_normal(input: &[char]) -> (res: Record<Vector3>)
    ensures
        res@ == vector_spec(VectorKind::Normal, input@),
{
    vector_record(VectorKind::Normal, input)
}

/// Reads a list of vertex normals.
pub fn vertex_normal_list(input: &[char]) -> (res: Result<(usize, Vec<Vector3>), usize>)
    ensures
        list_matches(res, vector_list_spec(VectorKind::Normal, input@)),
        res matches Ok((n, _)) ==> n <= input@.len(),
        res matches Err(at) ==> at < input@.len(),
{
    vector_list(VectorKind::Normal, input)
}

/// The flag that a word of a smoothing record stands for: `on` and `1` for
/// true, `off` and `0` for false.
pub open spec fn flag_of_word(word: Seq<char>) -> Option<bool> {
    if word =~= seq!['o', 'n'] || word =~= seq!['1'] {
        Some(true)
    } else if word =~= seq!['o', 'f', 'f'] || word =~= seq!['0'] {
        Some(false)
    } else {
        None
    }
}

/// A smoothing record from its keyword on: the keyword, spaces, a word that
/// stands for a flag and the end of the line.
pub open spec fn smoothing_body(t: Seq<char>, keyword: Seq<char>) -> Option<(nat, bool)> {
    let a = keyword.len() + spaces_len(t.skip(keyword.len() as int));
    let w = run_len(CharClass::Word, t.skip(a as int));
    let e = line_end_len(t.skip(a + w as int));
    match flag_of_word(t.skip(a as int).take(w as int)) {
        Some(flag) if e > 0 => Some((a + w + e, flag)),
        _ => None,
    }
}

/// A smoothing record where it may stand.
pub open spec fn smoothing_spec(r: Seq<char>) -> Found<bool> {
    let k = lead_len(r);
    let t = r.skip(k as int);
    framed(k, at_keyword(t, "s"@), smoothing_body(t, "s"@))
}

/// Reads the flag that a word stands for.
pub fn str_to_bool(word: &[char]) -> (res: Option<bool>)
    ensures
        res == flag_of_word(word@),
{
    let n = word.len();
    if (n == 2 && word[0] == 'o' && word[1] == 'n') || (n == 1 && word[0] == '1') {
        Some(true)
    } else if (n == 3 && word[0] == 'o' && word[1] == 'f' && word[2] == 'f') || (n == 1 && word[0]
        == '0') {
        Some(false)
    } else {
        proof {
            assert(seq!['o', 'n'][0] == 'o' && seq!['o', 'n'][1] == 'n');
            assert(seq!['o', 'f', 'f'][0] == 'o' && seq!['o', 'f', 'f'][1] == 'f' && seq![
                'o',
                'f',
                'f',
            ][2] == 'f');
            assert(seq!['1'][0] == '1' && seq!['0'][0] == '0');
        }
        None
    }
}

/// Reads a smoothing flag: `s`, one of `on`, `off`, `1`, `0`, the end of the
/// line.
pub fn smooth_shading(input: &[char]) -> (res: Record<bool>)
    ensures
        res@ == smoothing_spec(input@),
        res matches Record::Present { len, .. } ==> 0 < len <= input@.len(),
        res matches Record::Malformed { at } ==> at < input@.len(),
{
    let k = skip_lead(input);
    let t = tail(input, k);
    if !starts_with_keyword(t, "s") {
        return Record::Absent;
    }
    let kw = "s".unicode_len();
    let a = kw + take_run(CharClass::Space, tail(t, kw));
    let rest = tail(t, a);
    let w = take_run(CharClass::Word, rest);
    let flag = match str_to_bool(slice_subrange(rest, 0, w)) {
        Some(flag) => flag,
        None => {
            return Record::Malformed { at: k };
        },
    };
    match line_end(tail(t, a + w)) {
        Some(e) => Record::Present { len: k + a + w + e, value: flag },
        None => Record::Malformed { at: k },
    }
}

} // verus!
