//! Laws of the parser, stated over its specification.

use crate::faces::{corner_spec, has_char};
use crate::lexical::{
    at_keyword, comment_text_len, empty_line_len, ignore_line_len, ignore_lines_len, in_class,
    lead_len, lemma_ignore_lines_len_bound, lemma_run_len_bound, line_ending_len, run_len,
    spaces_len, CharClass,
};
use crate::mesh::{corner_at, mesh_spec};
use crate::model::{Face, Failure, Found, Vector3};
use crate::number::{digits_len, float_literal_len, sign_len};
use crate::obj::{
    default_name, from_faces, from_group, from_material, from_material_use, from_normals,
    from_object, from_positions, from_smoothing, from_texcoords, later, parse_spec, sections_spec,
};
use crate::sections::{flag_of_word, named_record_spec, smoothing_spec};
use vstd::prelude::*;

verus! {

/// The vertex buffer and the index list of a mesh are three times as long as
/// the face list, and the index list counts the vertices up from zero.
pub proof fn lemma_mesh_shape(positions: Seq<Vector3>, texcoords: Seq<Vector3>, faces: Seq<Face>)
    ensures
        mesh_spec(positions, texcoords, faces) matches Ok((vertices, triangles)) ==> {
            &&& vertices.len() == 3 * faces.len()
            &&& triangles.len() == 3 * faces.len()
            &&& forall|i: int| 0 <= i < triangles.len() ==> #[trigger] triangles[i] == i
        },
{
}

/// A text that parses yields three vertices and three indices for each face
/// that its face list holds, and each index is its own place in the list.
pub proof fn lemma_parse_shape(text: Seq<char>)
    ensures
        parse_spec(text) matches Ok(model) ==> {
            &&& sections_spec(text) matches Ok(sections) && model.vertices.len() == 3
                * sections.faces.len()
            &&& model.triangles.len() == model.vertices.len()
            &&& forall|i: int| 0 <= i < model.triangles.len() ==> #[trigger] model.triangles[i] == i
        },
{
    if let Ok(sections) = sections_spec(text) {
        lemma_mesh_shape(sections.positions, sections.texcoords, sections.faces);
    }
}

/// A corner that names no texture coordinate becomes a vertex whose texture
/// coordinate is the zero vector.
pub proof fn lemma_missing_texcoord_is_zero(
    positions: Seq<Vector3>,
    texcoords: Seq<Vector3>,
    faces: Seq<Face>,
    k: int,
)
    requires
        0 <= k < 3 * faces.len(),
        corner_at(faces, k).texcoord_index is None,
    ensures
        mesh_spec(positions, texcoords, faces) matches Ok((vertices, _)) ==> vertices[k].uv
            == Vector3::zero(),
{
}

/// A corner written with nothing between its two slashes names no texture
/// coordinate.
pub proof fn lemma_empty_slot_names_no_texcoord(r: Seq<char>)
    requires
        has_char(r, digits_len(r), '/'),
        has_char(r, digits_len(r) + 1, '/'),
    ensures
        corner_spec(r) matches Some((_, corner)) ==> corner.texcoord_index is None,
{
    reveal(corner_spec);
    let a = digits_len(r);
    let rest = r.skip(a + 1 as int);
    assert(rest[0] == '/');
    assert(!in_class(CharClass::Digit, rest[0]));
    assert(digits_len(rest) == 0);
}

/// A component needs no decimal point: digits, with or without a sign before
/// them, that neither `.` nor `e` nor `E` follows are a floating-point literal
/// as they stand.
pub proof fn lemma_integer_literal(r: Seq<char>)
    requires
        digits_len(r.skip(sign_len(r) as int)) > 0,
        ({
            let n = sign_len(r) + digits_len(r.skip(sign_len(r) as int));
            !has_char(r, n, '.') && !has_char(r, n, 'e') && !has_char(r, n, 'E')
        }),
    ensures
        float_literal_len(r) == sign_len(r) + digits_len(r.skip(sign_len(r) as int)),
{
    let g = sign_len(r);
    let body = r.skip(g as int);
    let d = digits_len(body);
    lemma_run_len_bound(CharClass::Digit, body);
    if body.len() > d {
        assert(body[d as int] == r[g + d as int]);
        assert(r.skip(g + d as int)[0] == r[g + d as int]);
    }
}

/// A smoothing record whose word is none of `on`, `off`, `1` and `0` is
/// malformed.
pub proof fn lemma_unknown_flag_is_malformed(r: Seq<char>)
    requires
        at_keyword(r.skip(lead_len(r) as int), "s"@),
        ({
            let t = r.skip(lead_len(r) as int);
            let a = "s"@.len() + spaces_len(t.skip("s"@.len() as int));
            let w = run_len(CharClass::Word, t.skip(a as int));
            flag_of_word(t.skip(a as int).take(w as int)) is None
        }),
    ensures
        smoothing_spec(r) == (Found::Malformed::<bool> { at: lead_len(r) }),
{
}

/// Whether the first `n` characters of `r` are whole ignorable lines.
pub open spec fn ignorable_prefix(r: Seq<char>, n: nat) -> bool
    decreases n,
{
    n == 0 || ({
        let l = ignore_line_len(r);
        0 < l <= n && l <= r.len() && ignorable_prefix(r.skip(l as int), (n - l) as nat)
    })
}

/// Behind a prefix of whole ignorable lines, the run of ignorable lines goes
/// on as it does from the start.
pub proof fn lemma_ignore_lines_behind_prefix(r: Seq<char>, n: nat)
    requires
        ignorable_prefix(r, n),
    ensures
        n <= r.len(),
        ignore_lines_len(r) == n + ignore_lines_len(r.skip(n as int)),
    decreases n,
{
    if n == 0 {
        assert(r.skip(0) =~= r);
    } else {
        let l = ignore_line_len(r);
        lemma_ignore_lines_behind_prefix(r.skip(l as int), (n - l) as nat);
        assert(r.skip(l as int).skip(n - l) =~= r.skip(n as int));
    }
}

/// Moving a result by `a` and then by `b` moves it by `a + b`.
pub proof fn lemma_later_twice<T>(res: Result<T, Failure>, a: nat, b: nat)
    ensures
        later(later(res, a), b) == later(res, a + b),
{
}

/// Leading blank lines and comment lines never affect the model: a text
/// parses as what is left of it behind any number of leading ignorable lines
/// does. The place of a syntax error is counted from the start of each text.
pub proof fn lemma_leading_lines_are_ignored(text: Seq<char>, n: nat)
    requires
        ignorable_prefix(text, n),
    ensures
        parse_spec(text) == later(parse_spec(text.skip(n as int)), n),
{
    lemma_ignore_lines_behind_prefix(text, n);
    let rest = text.skip(n as int);
    let g = ignore_lines_len(rest);
    lemma_ignore_lines_len_bound(rest);
    assert(text.skip(n + g as int) =~= rest.skip(g as int));
    lemma_later_twice(from_material(rest.skip(g as int)), g, n);
}

/// The name of the object that a text names, where the pipeline looks for it:
/// behind the leading ignorable lines and the material reference.
pub open spec fn object_record(text: Seq<char>) -> Found<Seq<char>> {
    let r = text.skip(ignore_lines_len(text) as int);
    match named_record_spec(r, "mtllib"@) {
        Found::Present { len, .. } => named_record_spec(r.skip(len as int), "o"@),
        _ => named_record_spec(r, "o"@),
    }
}

/// The sections that are read behind the object name keep the name.
pub proof fn lemma_name_is_kept(r: Seq<char>, name: Seq<char>)
    ensures
        from_positions(r, name) matches Ok(sections) ==> sections.name == name,
{
    reveal(from_positions);
    reveal(from_texcoords);
    reveal(from_normals);
    reveal(from_material_use);
    reveal(from_group);
    reveal(from_smoothing);
    reveal(from_faces);
}

/// A text that names no object parses to a model with the default name, and
/// one that names an object to a model with that name.
pub proof fn lemma_model_name(text: Seq<char>)
    ensures
        parse_spec(text) matches Ok(model) ==> model.name == (match object_record(text) {
            Found::Present { value, .. } => value,
            _ => default_name(),
        }),
{
    reveal(from_material);
    reveal(from_object);
    let r = text.skip(ignore_lines_len(text) as int);
    let o = match named_record_spec(r, "mtllib"@) {
        Found::Present { len, .. } => r.skip(len as int),
        _ => r,
    };
    match named_record_spec(o, "o"@) {
        Found::Present { len, value } => {
            lemma_name_is_kept(o.skip(len as int), value);
        },
        _ => {
            lemma_name_is_kept(o, default_name());
        },
    }
}

/// A run that ends before the end of a text is the same run in any longer
/// text.
pub proof fn lemma_run_in_longer_text(class: CharClass, p: Seq<char>, q: Seq<char>)
    requires
        run_len(class, p) < p.len(),
    ensures
        run_len(class, p + q) == run_len(class, p),
    decreases p.len(),
{
    assert((p + q)[0] == p[0]);
    if in_class(class, p[0]) {
        assert((p + q).skip(1) =~= p.skip(1) + q);
        lemma_run_in_longer_text(class, p.skip(1), q);
    }
}

/// A line terminator at the front of a text is the same terminator at the
/// front of any longer text.
pub proof fn lemma_line_ending_in_longer_text(p: Seq<char>, q: Seq<char>)
    requires
        line_ending_len(p) > 0,
    ensures
        line_ending_len(p + q) == line_ending_len(p),
{
    assert((p + q)[0] == p[0]);
    if p[0] != '\n' {
        assert((p + q)[1] == p[1]);
    }
}

/// An ignorable line at the front of a text is the same line at the front of
/// any longer text.
pub proof fn lemma_ignore_line_in_longer_text(p: Seq<char>, q: Seq<char>)
    requires
        ignore_line_len(p) > 0,
    ensures
        ignore_line_len(p + q) == ignore_line_len(p),
{
    let s = spaces_len(p);
    lemma_run_len_bound(CharClass::Space, p);
    if empty_line_len(p) > 0 {
        lemma_run_in_longer_text(CharClass::Space, p, q);
        assert((p + q).skip(s as int) =~= p.skip(s as int) + q);
        lemma_line_ending_in_longer_text(p.skip(s as int), q);
    } else {
        assert(p[0] == '#');
        assert((p + q)[0] == '#');
        assert(spaces_len(p + q) == 0);
        assert((p + q).skip(0) =~= p + q);
        assert(empty_line_len(p + q) == 0);
        let t = comment_text_len(p);
        lemma_run_len_bound(CharClass::LineText, p.skip(1));
        assert((p + q).skip(1) =~= p.skip(1) + q);
        lemma_run_in_longer_text(CharClass::LineText, p.skip(1), q);
        assert((p + q).skip(1 + t as int) =~= p.skip(1 + t as int) + q);
        lemma_line_ending_in_longer_text(p.skip(1 + t as int), q);
    }
}

/// Whole ignorable lines at the front of a text are whole ignorable lines at
/// the front of any longer text.
pub proof fn lemma_prefix_in_longer_text(p: Seq<char>, q: Seq<char>, n: nat)
    requires
        ignorable_prefix(p, n),
    ensures
        ignorable_prefix(p + q, n),
    decreases n,
{
    if n > 0 {
        let l = ignore_line_len(p);
        lemma_ignore_line_in_longer_text(p, q);
        lemma_prefix_in_longer_text(p.skip(l as int), q, (n - l) as nat);
        assert((p + q).skip(l as int) =~= p.skip(l as int) + q);
    }
}

/// Blank lines and comment lines put before a text never affect the model:
/// where `lines` is made of whole ignorable lines, `lines + text` parses as
/// `text` does. The place of a syntax error is counted from the start of each
/// text.
pub proof fn lemma_lines_before_a_text(lines: Seq<char>, text: Seq<char>)
    requires
        ignorable_prefix(lines, lines.len()),
    ensures
        parse_spec(lines + text) == later(parse_spec(text), lines.len()),
{
    lemma_prefix_in_longer_text(lines, text, lines.len());
    lemma_leading_lines_are_ignored(lines + text, lines.len());
    assert((lines + text).skip(lines.len() as int) =~= text);
}

} // verus!
