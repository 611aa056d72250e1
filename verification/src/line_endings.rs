//! Line feed against carriage return and line feed: a text parses alike with
//! either line terminator.

use crate::faces::{corner_spec, corners_spec, face_body, face_list_spec, face_spec, has_char};
use crate::lexical::{
    at_keyword, comment_len, comment_text_len, empty_line_len, ignore_line_len, ignore_lines_len,
    in_class, lead_len, lemma_run_len_bound, line_end_len, line_ending_len, run_len, spaces_len,
    CharClass,
};
use crate::model::{Failure, Found, Vector3};
use crate::number::{
    digits_len, exponent_len, float_literal_len, float_spec, index_spec, mantissa_len, sign_len,
};
use crate::obj::{
    default_name, from_faces, from_group, from_material, from_material_use, from_normals,
    from_object, from_positions, from_smoothing, from_texcoords, later, parse_spec, sections_spec,
};
use crate::sections::{
    component_spec, framed, named_body, named_record_spec, pair_spec, smoothing_body,
    smoothing_spec, triple_spec, vector_body, vector_keyword, vector_list_spec, vector_spec,
    VectorKind,
};
use vstd::prelude::*;

verus! {

/// The text with every line feed turned into carriage return and line feed.
pub open spec fn crlf(s: Seq<char>) -> Seq<char>
    decreases s.len(),
{
    if s.len() == 0 {
        Seq::empty()
    } else if s[0] == '\n' {
        seq!['\r', '\n'] + crlf(s.skip(1))
    } else {
        seq![s[0]] + crlf(s.skip(1))
    }
}

/// The length of what the first `n` characters of `s` become under [`crlf`].
pub open spec fn stretch(s: Seq<char>, n: nat) -> nat
    decreases n,
{
    if n == 0 || s.len() == 0 {
        0
    } else if s[0] == '\n' {
        2 + stretch(s.skip(1), (n - 1) as nat)
    } else {
        1 + stretch(s.skip(1), (n - 1) as nat)
    }
}

/// Whether a text holds no carriage return.
pub open spec fn cr_free(s: Seq<char>) -> bool {
    forall|i: int| 0 <= i < s.len() ==> s[i] != '\r'
}

/// Whether the first `n` characters of a text hold no line feed.
pub open spec fn plain(s: Seq<char>, n: nat) -> bool {
    n <= s.len() && forall|i: int| 0 <= i < n ==> s[i] != '\n'
}

/// How [`crlf`] begins.
pub proof fn lemma_crlf_head(s: Seq<char>)
    ensures
        s.len() == 0 ==> crlf(s).len() == 0,
        s.len() > 0 && s[0] != '\n' ==> crlf(s).len() >= 1 && crlf(s)[0] == s[0] && crlf(s).skip(1)
            == crlf(s.skip(1)),
        s.len() > 0 && s[0] == '\n' ==> crlf(s).len() >= 2 && crlf(s)[0] == '\r' && crlf(s)[1]
            == '\n' && crlf(s).skip(2) == crlf(s.skip(1)),
{
    if s.len() > 0 {
        if s[0] == '\n' {
            assert(crlf(s).skip(2) =~= crlf(s.skip(1)));
        } else {
            assert(crlf(s).skip(1) =~= crlf(s.skip(1)));
        }
    }
}

/// What is left of a text behind `n` characters becomes what is left of the
/// whole behind as many characters as those `n` have become.
pub proof fn lemma_crlf_skip(s: Seq<char>, n: nat)
    requires
        n <= s.len(),
    ensures
        stretch(s, n) <= crlf(s).len(),
        n <= stretch(s, n),
        crlf(s).skip(stretch(s, n) as int) == crlf(s.skip(n as int)),
        cr_free(s) ==> cr_free(s.skip(n as int)),
    decreases n,
{
    if n == 0 {
        assert(s.skip(0) =~= s);
        assert(crlf(s).skip(0) =~= crlf(s));
    } else {
        lemma_crlf_head(s);
        lemma_crlf_skip(s.skip(1), (n - 1) as nat);
        let h = stretch(s, 1);
        let m = stretch(s.skip(1), (n - 1) as nat);
        assert(stretch(s.skip(1), 0) == 0);
        assert(crlf(s).skip(h as int).skip(m as int) =~= crlf(s).skip(h + m as int));
        assert(s.skip(1).skip(n - 1) =~= s.skip(n as int));
    }
}

/// The first `a + b` characters become what the first `a` and the `b` behind
/// them become.
pub proof fn lemma_stretch_add(s: Seq<char>, a: nat, b: nat)
    requires
        a <= s.len(),
    ensures
        stretch(s, a + b) == stretch(s, a) + stretch(s.skip(a as int), b),
    decreases a,
{
    if a == 0 {
        assert(s.skip(0) =~= s);
    } else {
        lemma_stretch_add(s.skip(1), (a - 1) as nat, b);
        assert(s.skip(1).skip(a - 1) =~= s.skip(a as int));
    }
}

/// Characters without a line feed stay as they are.
pub proof fn lemma_plain(s: Seq<char>, n: nat)
    requires
        plain(s, n),
    ensures
        stretch(s, n) == n,
        n <= crlf(s).len(),
        crlf(s).take(n as int) == s.take(n as int),
    decreases n,
{
    if n == 0 {
        assert(crlf(s).take(0) =~= s.take(0));
    } else {
        lemma_crlf_head(s);
        assert forall|i: int| 0 <= i < n - 1 implies s.skip(1)[i] != '\n' by {
            assert(s.skip(1)[i] == s[i + 1]);
        }
        lemma_plain(s.skip(1), (n - 1) as nat);
        assert forall|i: int| 0 <= i < n implies crlf(s).take(n as int)[i] == s.take(n as int)[i] by {
            if i > 0 {
                assert(crlf(s)[i] == crlf(s).skip(1)[i - 1]);
                assert(crlf(s.skip(1)).take(n - 1)[i - 1] == s.skip(1).take(n - 1)[i - 1]);
            }
        }
        assert(crlf(s).take(n as int) =~= s.take(n as int));
    }
}

/// Whether a class holds neither carriage return nor line feed.
pub open spec fn within_line(class: CharClass) -> bool {
    !in_class(class, '\n') && !in_class(class, '\r')
}

/// Every class of the grammar holds neither carriage return nor line feed.
pub proof fn lemma_classes_within_line(class: CharClass)
    ensures
        within_line(class),
{
}

/// A run is the same run under either line terminator.
pub proof fn lemma_run_crlf(class: CharClass, s: Seq<char>)
    ensures
        run_len(class, crlf(s)) == run_len(class, s),
        plain(s, run_len(class, s)),
    decreases s.len(),
{
    lemma_classes_within_line(class);
    lemma_crlf_head(s);
    if s.len() > 0 && in_class(class, s[0]) {
        lemma_run_crlf(class, s.skip(1));
        let n = run_len(class, s.skip(1));
        assert forall|i: int| 0 <= i < n + 1 implies s[i] != '\n' by {
            if i > 0 {
                assert(s[i] == s.skip(1)[i - 1]);
            }
        }
    }
}

/// The text behind `n` plain characters, under either line terminator.
pub proof fn lemma_plain_skip(s: Seq<char>, n: nat)
    requires
        plain(s, n),
    ensures
        n <= crlf(s).len(),
        crlf(s).skip(n as int) == crlf(s.skip(n as int)),
        forall|i: int| 0 <= i < n ==> crlf(s)[i] == s[i],
        cr_free(s) ==> cr_free(s.skip(n as int)),
{
    lemma_plain(s, n);
    lemma_crlf_skip(s, n);
    assert forall|i: int| 0 <= i < n implies crlf(s)[i] == s[i] by {
        assert(crlf(s).take(n as int)[i] == s.take(n as int)[i]);
    }
}

/// Line feed, and carriage return with line feed, end a line alike.
pub proof fn lemma_line_ending_crlf(s: Seq<char>)
    requires
        cr_free(s),
    ensures
        line_ending_len(crlf(s)) == stretch(s, line_ending_len(s)),
        line_ending_len(s) <= 1,
{
    lemma_crlf_head(s);
    if s.len() > 0 {
        assert(s[0] != '\r');
        assert(stretch(s.skip(1), 0) == 0);
    }
}

/// What holds behind `n` plain characters that `m` more follow.
pub proof fn lemma_plain_then(s: Seq<char>, n: nat, m: nat)
    requires
        plain(s, n),
    ensures
        stretch(s, n + m) == n + stretch(s.skip(n as int), m),
        n <= crlf(s).len(),
        crlf(s).skip(n as int) == crlf(s.skip(n as int)),
        forall|i: int| 0 <= i < n ==> crlf(s)[i] == s[i],
        cr_free(s) ==> cr_free(s.skip(n as int)),
{
    lemma_plain_skip(s, n);
    lemma_plain(s, n);
    lemma_stretch_add(s, n, m);
}

/// What holds behind `a` characters that `m` more follow.
pub proof fn lemma_then(s: Seq<char>, a: nat, m: nat)
    requires
        a <= s.len(),
    ensures
        stretch(s, a + m) == stretch(s, a) + stretch(s.skip(a as int), m),
        stretch(s, a) <= crlf(s).len(),
        crlf(s).skip(stretch(s, a) as int) == crlf(s.skip(a as int)),
        cr_free(s) ==> cr_free(s.skip(a as int)),
{
    lemma_crlf_skip(s, a);
    lemma_stretch_add(s, a, m);
}

/// A run and what is behind it, under either line terminator.
pub proof fn lemma_behind_run(class: CharClass, s: Seq<char>)
    ensures
        run_len(class, crlf(s)) == run_len(class, s),
        plain(s, run_len(class, s)),
        run_len(class, s) <= crlf(s).len(),
        crlf(s).skip(run_len(class, s) as int) == crlf(s.skip(run_len(class, s) as int)),
        crlf(s).take(run_len(class, s) as int) == s.take(run_len(class, s) as int),
        cr_free(s) ==> cr_free(s.skip(run_len(class, s) as int)),
{
    lemma_run_crlf(class, s);
    lemma_plain_skip(s, run_len(class, s));
    lemma_plain(s, run_len(class, s));
}

/// A comment line is the same comment line under either line terminator.
pub proof fn lemma_comment_crlf(s: Seq<char>)
    requires
        cr_free(s),
    ensures
        comment_len(crlf(s)) == stretch(s, comment_len(s)),
        comment_len(s) <= s.len(),
{
    lemma_crlf_head(s);
    if s.len() > 0 && s[0] == '#' {
        let r = s.skip(1);
        let t = comment_text_len(s);
        lemma_behind_run(CharClass::LineText, r);
        assert(crlf(s).skip(1).skip(t as int) =~= crlf(s).skip(1 + t as int));
        assert(r.skip(t as int) =~= s.skip(1 + t as int));
        assert(cr_free(r)) by {
            lemma_plain_skip(s, 1);
        }
        let e = line_ending_len(s.skip(1 + t as int));
        lemma_line_ending_crlf(s.skip(1 + t as int));
        assert(plain(s, 1 + t)) by {
            assert forall|i: int| 0 <= i < 1 + t implies s[i] != '\n' by {
                if i > 0 {
                    assert(s[i] == r[i - 1]);
                }
            }
        }
        if e > 0 {
            lemma_plain_then(s, 1 + t, e);
        } else {
            assert(stretch(s, 0) == 0);
        }
    } else {
        assert(stretch(s, 0) == 0);
    }
}

/// A blank line is the same blank line under either line terminator.
pub proof fn lemma_empty_line_crlf(s: Seq<char>)
    requires
        cr_free(s),
    ensures
        empty_line_len(crlf(s)) == stretch(s, empty_line_len(s)),
        empty_line_len(s) <= s.len(),
{
    let n = spaces_len(s);
    lemma_behind_run(CharClass::Space, s);
    lemma_line_ending_crlf(s.skip(n as int));
    let e = line_ending_len(s.skip(n as int));
    if e > 0 {
        lemma_plain_then(s, n, e);
    } else {
        assert(stretch(s, 0) == 0);
    }
}

/// An ignorable line is the same ignorable line under either line terminator.
pub proof fn lemma_ignore_line_crlf(s: Seq<char>)
    requires
        cr_free(s),
    ensures
        ignore_line_len(crlf(s)) == stretch(s, ignore_line_len(s)),
        ignore_line_len(s) <= s.len(),
        ignore_line_len(s) > 0 <==> ignore_line_len(crlf(s)) > 0,
{
    lemma_empty_line_crlf(s);
    lemma_comment_crlf(s);
    lemma_crlf_skip(s, ignore_line_len(s));
    assert(stretch(s, 0) == 0);
}

/// The leading ignorable lines are the same lines under either line
/// terminator.
pub proof fn lemma_ignore_lines_crlf(s: Seq<char>)
    requires
        cr_free(s),
    ensures
        ignore_lines_len(crlf(s)) == stretch(s, ignore_lines_len(s)),
        ignore_lines_len(s) <= s.len(),
    decreases s.len(),
{
    let n = ignore_line_len(s);
    lemma_ignore_line_crlf(s);
    if n > 0 {
        lemma_crlf_skip(s, n);
        lemma_ignore_lines_crlf(s.skip(n as int));
        lemma_then(s, n, ignore_lines_len(s.skip(n as int)));
    } else {
        assert(stretch(s, 0) == 0);
    }
}

/// The end of a content line is the same under either line terminator.
pub proof fn lemma_line_end_crlf(s: Seq<char>)
    requires
        cr_free(s),
    ensures
        line_end_len(crlf(s)) == stretch(s, line_end_len(s)),
        line_end_len(s) <= s.len(),
        line_end_len(s) > 0 <==> line_end_len(crlf(s)) > 0,
{
    let n = spaces_len(s);
    lemma_behind_run(CharClass::Space, s);
    let t = s.skip(n as int);
    lemma_line_ending_crlf(t);
    lemma_comment_crlf(t);
    let e = line_ending_len(t);
    let c = comment_len(t);
    lemma_crlf_skip(t, e);
    lemma_crlf_skip(t, c);
    if e > 0 {
        lemma_plain_then(s, n, e);
    } else if c > 0 {
        lemma_plain_then(s, n, c);
    }
    assert(stretch(s, 0) == 0);
    assert(stretch(t, 0) == 0);
    lemma_crlf_skip(s, line_end_len(s));
}

/// What precedes a record's keyword is the same under either line
/// terminator.
pub proof fn lemma_lead_crlf(s: Seq<char>)
    requires
        cr_free(s),
    ensures
        lead_len(crlf(s)) == stretch(s, lead_len(s)),
        lead_len(s) <= s.len(),
        crlf(s).skip(lead_len(crlf(s)) as int) == crlf(s.skip(lead_len(s) as int)),
        cr_free(s.skip(lead_len(s) as int)),
{
    let g = ignore_lines_len(s);
    lemma_ignore_lines_crlf(s);
    lemma_crlf_skip(s, g);
    let t = s.skip(g as int);
    lemma_behind_run(CharClass::Space, t);
    let n = spaces_len(t);
    lemma_run_len_bound(CharClass::Space, t);
    lemma_then(s, g, n);
    lemma_plain(t, n);
    lemma_crlf_skip(s, g + n);
}

/// A keyword that holds neither carriage return nor line feed stands at the
/// front of a text under either line terminator, or under neither.
pub proof fn lemma_keyword_crlf(s: Seq<char>, keyword: Seq<char>)
    requires
        forall|j: int| 0 <= j < keyword.len() ==> keyword[j] != '\n' && keyword[j] != '\r',
    ensures
        at_keyword(crlf(s), keyword) == at_keyword(s, keyword),
        at_keyword(s, keyword) ==> plain(s, keyword.len() + 1),
{
    reveal(at_keyword);
    let k = keyword.len();
    if at_keyword(s, keyword) {
        assert(plain(s, k + 1));
        lemma_plain_skip(s, k + 1);
    } else if at_keyword(crlf(s), keyword) {
        lemma_unchanged_front(s, k + 1);
        lemma_plain_skip(s, k + 1);
    }
}

/// Where the first `n` characters under [`crlf`] hold neither carriage return
/// nor line feed, the text has as many and they are plain.
pub proof fn lemma_unchanged_front(s: Seq<char>, n: nat)
    requires
        n <= crlf(s).len(),
        forall|i: int| 0 <= i < n ==> crlf(s)[i] != '\n' && crlf(s)[i] != '\r',
    ensures
        plain(s, n),
    decreases n,
{
    if n > 0 {
        lemma_crlf_head(s);
        assert(crlf(s)[0] != '\r');
        assert forall|i: int| 0 <= i < n - 1 implies crlf(s.skip(1))[i] != '\n' && crlf(
            s.skip(1),
        )[i] != '\r' by {
            assert(crlf(s).skip(1)[i] == crlf(s)[i + 1]);
        }
        lemma_unchanged_front(s.skip(1), (n - 1) as nat);
        assert forall|i: int| 0 <= i < n implies s[i] != '\n' by {
            if i > 0 {
                assert(s[i] == s.skip(1)[i - 1]);
            }
        }
    }
}

/// Plain characters behind plain characters are plain together.
pub proof fn lemma_plain_join(s: Seq<char>, a: nat, b: nat)
    requires
        plain(s, a),
        plain(s.skip(a as int), b),
    ensures
        plain(s, a + b),
        a + b <= crlf(s).len(),
        s.skip(a as int).skip(b as int) == s.skip(a + b as int),
        crlf(s).skip(a as int).skip(b as int) == crlf(s).skip(a + b as int),
        crlf(s).skip(a + b as int) == crlf(s.skip(a + b as int)),
        cr_free(s) ==> cr_free(s.skip(a + b as int)),
{
    assert forall|i: int| 0 <= i < a + b implies s[i] != '\n' by {
        if i >= a {
            assert(s[i] == s.skip(a as int)[i - a]);
        }
    }
    lemma_plain_skip(s, a + b);
    assert(s.skip(a as int).skip(b as int) =~= s.skip(a + b as int));
    assert(crlf(s).skip(a as int).skip(b as int) =~= crlf(s).skip(a + b as int));
}

/// A character that is neither carriage return nor line feed stands behind
/// plain characters under either line terminator, or under neither.
pub proof fn lemma_char_crlf(s: Seq<char>, n: nat, c: char)
    requires
        plain(s, n),
        c != '\n',
        c != '\r',
    ensures
        (n < crlf(s).len() && crlf(s)[n as int] == c) == (n < s.len() && s[n as int] == c),
        n < s.len() && s[n as int] == c ==> plain(s, n + 1),
{
    lemma_plain_skip(s, n);
    let t = s.skip(n as int);
    lemma_crlf_head(t);
    if n < crlf(s).len() {
        assert(crlf(s)[n as int] == crlf(s).skip(n as int)[0]);
    }
    if n < s.len() {
        assert(s[n as int] == t[0]);
    }
}

/// A sign is the same sign under either line terminator.
pub proof fn lemma_sign_crlf(s: Seq<char>)
    ensures
        sign_len(crlf(s)) == sign_len(s),
        plain(s, sign_len(s)),
{
    assert(plain(s, 0));
    lemma_char_crlf(s, 0, '+');
    lemma_char_crlf(s, 0, '-');
}

/// A mantissa is the same mantissa under either line terminator.
pub proof fn lemma_mantissa_crlf(s: Seq<char>)
    ensures
        mantissa_len(crlf(s)) == mantissa_len(s),
        plain(s, mantissa_len(s)),
{
    let d = digits_len(s);
    lemma_behind_run(CharClass::Digit, s);
    lemma_char_crlf(s, d, '.');
    if d > 0 {
        if s.len() > d && s[d as int] == '.' {
            lemma_plain_skip(s, d + 1);
            lemma_behind_run(CharClass::Digit, s.skip(d + 1 as int));
            lemma_plain_join(s, d + 1, digits_len(s.skip(d + 1 as int)));
        }
    } else if s.len() > 0 && s[0] == '.' {
        lemma_plain_skip(s, 1);
        lemma_behind_run(CharClass::Digit, s.skip(1));
        lemma_plain_join(s, 1, digits_len(s.skip(1)));
    }
}

/// An exponent is the same exponent under either line terminator.
pub proof fn lemma_exponent_crlf(s: Seq<char>)
    ensures
        exponent_len(crlf(s)) == exponent_len(s),
        plain(s, exponent_len(s)),
{
    assert(plain(s, 0));
    lemma_char_crlf(s, 0, 'e');
    lemma_char_crlf(s, 0, 'E');
    if s.len() > 0 && (s[0] == 'e' || s[0] == 'E') {
        lemma_plain_skip(s, 1);
        let r = s.skip(1);
        lemma_sign_crlf(r);
        let g = sign_len(r);
        lemma_plain_join(s, 1, g);
        lemma_behind_run(CharClass::Digit, s.skip(1 + g as int));
        lemma_plain_join(s, 1 + g, digits_len(s.skip(1 + g as int)));
    }
}

/// A floating-point literal is the same literal under either line
/// terminator.
pub proof fn lemma_float_literal_crlf(s: Seq<char>)
    ensures
        float_literal_len(crlf(s)) == float_literal_len(s),
        plain(s, float_literal_len(s)),
        crlf(s).take(float_literal_len(s) as int) == s.take(float_literal_len(s) as int),
{
    lemma_sign_crlf(s);
    let g = sign_len(s);
    lemma_plain_skip(s, g);
    lemma_mantissa_crlf(s.skip(g as int));
    let m = mantissa_len(s.skip(g as int));
    lemma_plain_join(s, g, m);
    lemma_exponent_crlf(s.skip(g + m as int));
    lemma_plain_join(s, g + m, exponent_len(s.skip(g + m as int)));
    lemma_plain(s, float_literal_len(s));
}

/// A floating-point component is the same component under either line
/// terminator.
pub proof fn lemma_float_crlf(s: Seq<char>)
    ensures
        float_spec(crlf(s)) == float_spec(s),
        float_spec(s) matches Some((n, _)) ==> plain(s, n),
{
    lemma_float_literal_crlf(s);
}

/// An index is the same index under either line terminator.
pub proof fn lemma_index_crlf(s: Seq<char>)
    ensures
        index_spec(crlf(s)) == index_spec(s),
        index_spec(s) matches Some((n, _)) ==> plain(s, n),
{
    lemma_behind_run(CharClass::Digit, s);
}

/// A match of some length, with the length taken under [`crlf`].
pub open spec fn stretched<V>(s: Seq<char>, res: Option<(nat, V)>) -> Option<(nat, V)> {
    match res {
        Some((n, v)) => Some((stretch(s, n), v)),
        None => None,
    }
}

/// What the grammar finds, with every length taken under [`crlf`].
pub open spec fn stretched_found<V>(s: Seq<char>, found: Found<V>) -> Found<V> {
    match found {
        Found::Absent => Found::Absent,
        Found::Present { len, value } => Found::Present { len: stretch(s, len), value },
        Found::Malformed { at } => Found::Malformed { at: stretch(s, at) },
    }
}

/// What a list parser finds, with every length taken under [`crlf`].
pub open spec fn stretched_list<V>(s: Seq<char>, res: Result<(nat, Seq<V>), nat>) -> Result<
    (nat, Seq<V>),
    nat,
> {
    match res {
        Ok((n, items)) => Ok((stretch(s, n), items)),
        Err(at) => Err(stretch(s, at)),
    }
}

/// A result of the pipeline, with the place of a syntax error taken under
/// [`crlf`].
pub open spec fn stretched_result<T>(s: Seq<char>, res: Result<T, Failure>) -> Result<T, Failure> {
    match res {
        Err(Failure::Syntax { section, offset }) => Err(
            Failure::Syntax { section, offset: stretch(s, offset) },
        ),
        other => other,
    }
}

/// Whether a keyword holds neither carriage return nor line feed.
pub open spec fn keyword_within_line(keyword: Seq<char>) -> bool {
    forall|j: int| 0 <= j < keyword.len() ==> keyword[j] != '\n' && keyword[j] != '\r'
}

/// A component is the same component under either line terminator.
pub proof fn lemma_component_crlf(s: Seq<char>)
    ensures
        component_spec(crlf(s)) == component_spec(s),
        component_spec(s) matches Some((n, _)) ==> plain(s, n),
{
    lemma_behind_run(CharClass::Space, s);
    let n = spaces_len(s);
    lemma_float_crlf(s.skip(n as int));
    if let Some((m, _)) = float_spec(s.skip(n as int)) {
        lemma_plain_join(s, n, m);
    }
}

/// Three components and the end of the line are the same under either line
/// terminator.
pub proof fn lemma_triple_crlf(s: Seq<char>)
    requires
        cr_free(s),
    ensures
        triple_spec(crlf(s)) == stretched(s, triple_spec(s)),
        triple_spec(s) matches Some((n, _)) ==> 0 < n <= s.len(),
{
    reveal(triple_spec);
    lemma_component_crlf(s);
    if let Some((a, _)) = component_spec(s) {
        lemma_plain_skip(s, a);
        lemma_component_crlf(s.skip(a as int));
        if let Some((b, _)) = component_spec(s.skip(a as int)) {
            lemma_plain_join(s, a, b);
            lemma_component_crlf(s.skip(a + b as int));
            if let Some((c, _)) = component_spec(s.skip(a + b as int)) {
                lemma_plain_join(s, a + b, c);
                lemma_line_end_crlf(s.skip(a + b + c as int));
                lemma_plain_then(s, a + b + c, line_end_len(s.skip(a + b + c as int)));
            }
        }
    }
}

/// Two or three components and the end of the line are the same under either
/// line terminator.
pub proof fn lemma_pair_crlf(s: Seq<char>)
    requires
        cr_free(s),
    ensures
        pair_spec(crlf(s)) == stretched(s, pair_spec(s)),
        pair_spec(s) matches Some((n, _)) ==> 0 < n <= s.len(),
{
    reveal(pair_spec);
    lemma_component_crlf(s);
    if let Some((a, _)) = component_spec(s) {
        lemma_plain_skip(s, a);
        lemma_component_crlf(s.skip(a as int));
        if let Some((b, _)) = component_spec(s.skip(a as int)) {
            lemma_plain_join(s, a, b);
            lemma_component_crlf(s.skip(a + b as int));
            let c = match component_spec(s.skip(a + b as int)) {
                Some((c, _)) => c,
                None => 0,
            };
            assert(plain(s.skip(a + b as int), c));
            lemma_plain_join(s, a + b, c);
            lemma_line_end_crlf(s.skip(a + b + c as int));
            lemma_plain_then(s, a + b + c, line_end_len(s.skip(a + b + c as int)));
        }
    }
}

/// The keywords of the vector records hold neither carriage return nor line
/// feed.
pub proof fn lemma_vector_keyword(kind: VectorKind)
    ensures
        keyword_within_line(vector_keyword(kind)),
        vector_keyword(kind).len() >= 1,
{
    reveal_strlit("v");
    reveal_strlit("vt");
    reveal_strlit("vn");
}

/// A vector record from its keyword on is the same under either line
/// terminator.
pub proof fn lemma_vector_body_crlf(kind: VectorKind, t: Seq<char>)
    requires
        cr_free(t),
        plain(t, vector_keyword(kind).len()),
    ensures
        vector_body(kind, crlf(t)) == stretched(t, vector_body(kind, t)),
        vector_body(kind, t) matches Some((n, _)) ==> 0 < n <= t.len(),
{
    let w = vector_keyword(kind).len();
    lemma_plain_skip(t, w);
    let rest = t.skip(w as int);
    lemma_triple_crlf(rest);
    lemma_pair_crlf(rest);
    let body = match kind {
        VectorKind::Texcoord => pair_spec(rest),
        _ => triple_spec(rest),
    };
    if let Some((n, _)) = body {
        lemma_plain_then(t, w, n);
    }
}

/// What is framed is the same under either line terminator where its parts
/// are.
pub proof fn lemma_framed_crlf<V>(
    r: Seq<char>,
    keyword: Seq<char>,
    body: Option<(nat, V)>,
    body_crlf: Option<(nat, V)>,
)
    requires
        cr_free(r),
        keyword_within_line(keyword),
        at_keyword(r.skip(lead_len(r) as int), keyword) ==> body_crlf == stretched(
            r.skip(lead_len(r) as int),
            body,
        ),
        at_keyword(r.skip(lead_len(r) as int), keyword) ==> (body matches Some((n, _)) ==> 0 < n
            <= r.skip(lead_len(r) as int).len()),
    ensures
        framed(
            lead_len(r),
            at_keyword(r.skip(lead_len(r) as int), keyword),
            body,
        ) matches Found::Present { len, .. } ==> 0 < len <= r.len(),
        framed(
            lead_len(crlf(r)),
            at_keyword(crlf(r).skip(lead_len(crlf(r)) as int), keyword),
            body_crlf,
        ) == stretched_found(
            r,
            framed(lead_len(r), at_keyword(r.skip(lead_len(r) as int), keyword), body),
        ),
{
    lemma_lead_crlf(r);
    let k = lead_len(r);
    let t = r.skip(k as int);
    lemma_keyword_crlf(t, keyword);
    if at_keyword(t, keyword) {
        if let Some((n, _)) = body {
            lemma_then(r, k, n);
        }
    }
}

/// A vector record is the same record under either line terminator.
pub proof fn lemma_vector_crlf(kind: VectorKind, r: Seq<char>)
    requires
        cr_free(r),
    ensures
        vector_spec(kind, crlf(r)) == stretched_found(r, vector_spec(kind, r)),
        vector_spec(kind, r) matches Found::Present { len, .. } ==> 0 < len <= r.len(),
{
    lemma_lead_crlf(r);
    lemma_vector_keyword(kind);
    let t = r.skip(lead_len(r) as int);
    let keyword = vector_keyword(kind);
    lemma_keyword_crlf(t, keyword);
    if at_keyword(t, keyword) {
        assert(plain(t, keyword.len()));
        lemma_vector_body_crlf(kind, t);
    }
    lemma_framed_crlf(r, keyword, vector_body(kind, t), vector_body(kind, crlf(t)));
}

/// A list of vector records is the same list under either line terminator.
pub proof fn lemma_vector_list_crlf(kind: VectorKind, r: Seq<char>)
    requires
        cr_free(r),
    ensures
        vector_list_spec(kind, crlf(r)) == stretched_list(r, vector_list_spec(kind, r)),
    decreases r.len(),
{
    lemma_vector_crlf(kind, r);
    assert(stretch(r, 0) == 0);
    match vector_spec(kind, r) {
        Found::Present { len, value } => {
            if 0 < len <= r.len() {
                lemma_crlf_skip(r, len);
                lemma_vector_list_crlf(kind, r.skip(len as int));
                match vector_list_spec(kind, r.skip(len as int)) {
                    Ok((n, _)) => {
                        lemma_then(r, len, n);
                    },
                    Err(at) => {
                        lemma_then(r, len, at);
                    },
                }
            }
        },
        _ => {},
    }
}

/// A record that holds one identifier is the same from its keyword on under
/// either line terminator.
pub proof fn lemma_named_body_crlf(t: Seq<char>, keyword: Seq<char>)
    requires
        cr_free(t),
        plain(t, keyword.len()),
    ensures
        named_body(crlf(t), keyword) == stretched(t, named_body(t, keyword)),
        named_body(t, keyword) matches Some((n, _)) ==> 0 < n <= t.len(),
{
    let k = keyword.len();
    lemma_plain_skip(t, k);
    lemma_behind_run(CharClass::Space, t.skip(k as int));
    let a = k + spaces_len(t.skip(k as int));
    lemma_plain_join(t, k, spaces_len(t.skip(k as int)));
    lemma_behind_run(CharClass::Name, t.skip(a as int));
    let n = run_len(CharClass::Name, t.skip(a as int));
    lemma_plain_join(t, a, n);
    lemma_line_end_crlf(t.skip(a + n as int));
    lemma_plain_then(t, a + n, line_end_len(t.skip(a + n as int)));
}

/// A record that holds one identifier is the same record under either line
/// terminator.
pub proof fn lemma_named_record_crlf(r: Seq<char>, keyword: Seq<char>)
    requires
        cr_free(r),
        keyword_within_line(keyword),
    ensures
        named_record_spec(crlf(r), keyword) == stretched_found(r, named_record_spec(r, keyword)),
        named_record_spec(r, keyword) matches Found::Present { len, .. } ==> 0 < len <= r.len(),
{
    lemma_lead_crlf(r);
    let t = r.skip(lead_len(r) as int);
    lemma_keyword_crlf(t, keyword);
    if at_keyword(t, keyword) {
        assert(plain(t, keyword.len()));
        lemma_named_body_crlf(t, keyword);
    }
    lemma_framed_crlf(r, keyword, named_body(t, keyword), named_body(crlf(t), keyword));
}

/// A smoothing record is the same from its keyword on under either line
/// terminator.
pub proof fn lemma_smoothing_body_crlf(t: Seq<char>, keyword: Seq<char>)
    requires
        cr_free(t),
        plain(t, keyword.len()),
    ensures
        smoothing_body(crlf(t), keyword) == stretched(t, smoothing_body(t, keyword)),
        smoothing_body(t, keyword) matches Some((n, _)) ==> 0 < n <= t.len(),
{
    let k = keyword.len();
    lemma_plain_skip(t, k);
    lemma_behind_run(CharClass::Space, t.skip(k as int));
    let a = k + spaces_len(t.skip(k as int));
    lemma_plain_join(t, k, spaces_len(t.skip(k as int)));
    lemma_behind_run(CharClass::Word, t.skip(a as int));
    let w = run_len(CharClass::Word, t.skip(a as int));
    lemma_plain_join(t, a, w);
    lemma_line_end_crlf(t.skip(a + w as int));
    lemma_plain_then(t, a + w, line_end_len(t.skip(a + w as int)));
}

/// A smoothing record is the same record under either line terminator.
pub proof fn lemma_smoothing_crlf(r: Seq<char>)
    requires
        cr_free(r),
    ensures
        smoothing_spec(crlf(r)) == stretched_found(r, smoothing_spec(r)),
        smoothing_spec(r) matches Found::Present { len, .. } ==> 0 < len <= r.len(),
{
    reveal_strlit("s");
    let keyword = "s"@;
    lemma_lead_crlf(r);
    let t = r.skip(lead_len(r) as int);
    lemma_keyword_crlf(t, keyword);
    if at_keyword(t, keyword) {
        assert(plain(t, keyword.len()));
        lemma_smoothing_body_crlf(t, keyword);
    }
    lemma_framed_crlf(r, keyword, smoothing_body(t, keyword), smoothing_body(crlf(t), keyword));
}

/// A face corner is the same corner under either line terminator.
pub proof fn lemma_corner_crlf(s: Seq<char>)
    ensures
        corner_spec(crlf(s)) == corner_spec(s),
        corner_spec(s) matches Some((n, _)) ==> plain(s, n) && n > 0,
{
    reveal(corner_spec);
    lemma_index_crlf(s);
    if let Some((a, _)) = index_spec(s) {
        lemma_char_crlf(s, a, '/');
        if has_char(s, a, '/') {
            lemma_plain_skip(s, a + 1);
            let r1 = s.skip(a + 1 as int);
            lemma_index_crlf(r1);
            let b = match index_spec(r1) {
                Some((b, _)) => b,
                None => 0,
            };
            assert(plain(r1, b));
            lemma_plain_join(s, a + 1, b);
            lemma_char_crlf(s, a + 1 + b, '/');
            if has_char(s, a + 1 + b, '/') {
                lemma_plain_skip(s, a + b + 2);
                lemma_index_crlf(s.skip(a + b + 2 as int));
                if let Some((c, _)) = index_spec(s.skip(a + b + 2 as int)) {
                    lemma_plain_join(s, a + b + 2, c);
                }
            }
        }
    }
}

/// Three corners and the end of the line are the same under either line
/// terminator.
pub proof fn lemma_corners_crlf(s: Seq<char>)
    requires
        cr_free(s),
    ensures
        corners_spec(crlf(s)) == stretched(s, corners_spec(s)),
        corners_spec(s) matches Some((n, _)) ==> 0 < n <= s.len(),
{
    reveal(corners_spec);
    lemma_corner_crlf(s);
    if let Some((a, _)) = corner_spec(s) {
        lemma_char_crlf(s, a, ' ');
        if has_char(s, a, ' ') {
            lemma_plain_skip(s, a + 1);
            lemma_corner_crlf(s.skip(a + 1 as int));
            if let Some((b, _)) = corner_spec(s.skip(a + 1 as int)) {
                lemma_plain_join(s, a + 1, b);
                lemma_char_crlf(s, a + 1 + b, ' ');
                if has_char(s, a + 1 + b, ' ') {
                    lemma_plain_skip(s, a + b + 2);
                    lemma_corner_crlf(s.skip(a + b + 2 as int));
                    if let Some((c, _)) = corner_spec(s.skip(a + b + 2 as int)) {
                        lemma_plain_join(s, a + b + 2, c);
                        lemma_line_end_crlf(s.skip(a + b + c + 2 as int));
                        lemma_plain_then(
                            s,
                            a + b + c + 2,
                            line_end_len(s.skip(a + b + c + 2 as int)),
                        );
                    }
                }
            }
        }
    }
}

/// A face record is the same from its keyword on under either line
/// terminator.
pub proof fn lemma_face_body_crlf(t: Seq<char>, keyword: Seq<char>)
    requires
        cr_free(t),
        plain(t, keyword.len()),
    ensures
        face_body(crlf(t), keyword) == stretched(t, face_body(t, keyword)),
        face_body(t, keyword) matches Some((n, _)) ==> 0 < n <= t.len(),
{
    let k = keyword.len();
    lemma_plain_skip(t, k);
    lemma_behind_run(CharClass::Space, t.skip(k as int));
    let a = k + spaces_len(t.skip(k as int));
    lemma_plain_join(t, k, spaces_len(t.skip(k as int)));
    lemma_corners_crlf(t.skip(a as int));
    if let Some((n, _)) = corners_spec(t.skip(a as int)) {
        lemma_plain_then(t, a, n);
    }
}

/// A face record is the same record under either line terminator.
pub proof fn lemma_face_crlf(r: Seq<char>)
    requires
        cr_free(r),
    ensures
        face_spec(crlf(r)) == stretched_found(r, face_spec(r)),
        face_spec(r) matches Found::Present { len, .. } ==> 0 < len <= r.len(),
{
    reveal_strlit("f");
    let keyword = "f"@;
    lemma_lead_crlf(r);
    let t = r.skip(lead_len(r) as int);
    lemma_keyword_crlf(t, keyword);
    if at_keyword(t, keyword) {
        assert(plain(t, keyword.len()));
        lemma_face_body_crlf(t, keyword);
    }
    lemma_framed_crlf(r, keyword, face_body(t, keyword), face_body(crlf(t), keyword));
}

/// A list of faces is the same list under either line terminator.
pub proof fn lemma_face_list_crlf(r: Seq<char>)
    requires
        cr_free(r),
    ensures
        face_list_spec(crlf(r)) == stretched_list(r, face_list_spec(r)),
    decreases r.len(),
{
    lemma_face_crlf(r);
    assert(stretch(r, 0) == 0);
    match face_spec(r) {
        Found::Present { len, value } => {
            lemma_crlf_skip(r, len);
            lemma_face_list_crlf(r.skip(len as int));
            match face_list_spec(r.skip(len as int)) {
                Ok((n, _)) => {
                    lemma_then(r, len, n);
                },
                Err(at) => {
                    lemma_then(r, len, at);
                },
            }
        },
        _ => {},
    }
}

/// Moving a result commutes with taking its places under [`crlf`].
pub proof fn lemma_later_crlf<T>(r: Seq<char>, len: nat, res: Result<T, Failure>)
    requires
        len <= r.len(),
    ensures
        later(stretched_result(r.skip(len as int), res), stretch(r, len)) == stretched_result(
            r,
            later(res, len),
        ),
{
    if let Err(Failure::Syntax { offset, .. }) = res {
        lemma_stretch_add(r, len, offset);
    }
}

/// The keywords of the records that hold one identifier hold neither
/// carriage return nor line feed.
pub proof fn lemma_named_keywords()
    ensures
        keyword_within_line("mtllib"@),
        keyword_within_line("o"@),
        keyword_within_line("usemtl"@),
        keyword_within_line("g"@),
{
    reveal_strlit("mtllib");
    reveal_strlit("o");
    reveal_strlit("usemtl");
    reveal_strlit("g");
}

/// The face list is read alike under either line terminator.
pub proof fn lemma_from_faces_crlf(
    r: Seq<char>,
    name: Seq<char>,
    positions: Seq<Vector3>,
    texcoords: Seq<Vector3>,
)
    requires
        cr_free(r),
    ensures
        from_faces(crlf(r), name, positions, texcoords) == stretched_result(
            r,
            from_faces(r, name, positions, texcoords),
        ),
{
    reveal(from_faces);
    lemma_face_list_crlf(r);
}

/// The pipeline from the smoothing flag on reads alike under either line
/// terminator.
pub proof fn lemma_from_smoothing_crlf(
    r: Seq<char>,
    name: Seq<char>,
    positions: Seq<Vector3>,
    texcoords: Seq<Vector3>,
)
    requires
        cr_free(r),
    ensures
        from_smoothing(crlf(r), name, positions, texcoords) == stretched_result(
            r,
            from_smoothing(r, name, positions, texcoords),
        ),
{
    reveal(from_smoothing);
    lemma_smoothing_crlf(r);
    match smoothing_spec(r) {
        Found::Present { len, .. } => {
            lemma_crlf_skip(r, len);
            lemma_from_faces_crlf(r.skip(len as int), name, positions, texcoords);
            lemma_later_crlf(r, len, from_faces(r.skip(len as int), name, positions, texcoords));
        },
        Found::Absent => {
            lemma_from_faces_crlf(r, name, positions, texcoords);
        },
        Found::Malformed { .. } => {},
    }
}

/// The pipeline from the polygon group on reads alike under either line
/// terminator.
pub proof fn lemma_from_group_crlf(
    r: Seq<char>,
    name: Seq<char>,
    positions: Seq<Vector3>,
    texcoords: Seq<Vector3>,
)
    requires
        cr_free(r),
    ensures
        from_group(crlf(r), name, positions, texcoords) == stretched_result(
            r,
            from_group(r, name, positions, texcoords),
        ),
{
    reveal(from_group);
    lemma_named_keywords();
    lemma_named_record_crlf(r, "g"@);
    match named_record_spec(r, "g"@) {
        Found::Present { len, .. } => {
            lemma_crlf_skip(r, len);
            lemma_from_smoothing_crlf(r.skip(len as int), name, positions, texcoords);
            lemma_later_crlf(
                r,
                len,
                from_smoothing(r.skip(len as int), name, positions, texcoords),
            );
        },
        Found::Absent => {
            lemma_from_smoothing_crlf(r, name, positions, texcoords);
        },
        Found::Malformed { .. } => {},
    }
}

/// The pipeline from the material use on reads alike under either line
/// terminator.
pub proof fn lemma_from_material_use_crlf(
    r: Seq<char>,
    name: Seq<char>,
    positions: Seq<Vector3>,
    texcoords: Seq<Vector3>,
)
    requires
        cr_free(r),
    ensures
        from_material_use(crlf(r), name, positions, texcoords) == stretched_result(
            r,
            from_material_use(r, name, positions, texcoords),
        ),
{
    reveal(from_material_use);
    lemma_named_keywords();
    lemma_named_record_crlf(r, "usemtl"@);
    match named_record_spec(r, "usemtl"@) {
        Found::Present { len, .. } => {
            lemma_crlf_skip(r, len);
            lemma_from_group_crlf(r.skip(len as int), name, positions, texcoords);
            lemma_later_crlf(r, len, from_group(r.skip(len as int), name, positions, texcoords));
        },
        Found::Absent => {
            lemma_from_group_crlf(r, name, positions, texcoords);
        },
        Found::Malformed { .. } => {},
    }
}

/// The pipeline from the normal list on reads alike under either line
/// terminator.
pub proof fn lemma_from_normals_crlf(
    r: Seq<char>,
    name: Seq<char>,
    positions: Seq<Vector3>,
    texcoords: Seq<Vector3>,
)
    requires
        cr_free(r),
    ensures
        from_normals(crlf(r), name, positions, texcoords) == stretched_result(
            r,
            from_normals(r, name, positions, texcoords),
        ),
{
    reveal(from_normals);
    lemma_vector_list_crlf(VectorKind::Normal, r);
    lemma_vector_list_bound(VectorKind::Normal, r);
    if let Ok((len, _)) = vector_list_spec(VectorKind::Normal, r) {
        lemma_crlf_skip(r, len);
        lemma_from_material_use_crlf(r.skip(len as int), name, positions, texcoords);
        lemma_later_crlf(
            r,
            len,
            from_material_use(r.skip(len as int), name, positions, texcoords),
        );
    }
}

/// The pipeline from the texture-coordinate list on reads alike under either
/// line terminator.
pub proof fn lemma_from_texcoords_crlf(r: Seq<char>, name: Seq<char>, positions: Seq<Vector3>)
    requires
        cr_free(r),
    ensures
        from_texcoords(crlf(r), name, positions) == stretched_result(
            r,
            from_texcoords(r, name, positions),
        ),
{
    reveal(from_texcoords);
    lemma_vector_list_crlf(VectorKind::Texcoord, r);
    lemma_vector_list_bound(VectorKind::Texcoord, r);
    if let Ok((len, texcoords)) = vector_list_spec(VectorKind::Texcoord, r) {
        lemma_crlf_skip(r, len);
        lemma_from_normals_crlf(r.skip(len as int), name, positions, texcoords);
        lemma_later_crlf(r, len, from_normals(r.skip(len as int), name, positions, texcoords));
    }
}

/// The pipeline from the vertex list on reads alike under either line
/// terminator.
pub proof fn lemma_from_positions_crlf(r: Seq<char>, name: Seq<char>)
    requires
        cr_free(r),
    ensures
        from_positions(crlf(r), name) == stretched_result(r, from_positions(r, name)),
{
    reveal(from_positions);
    lemma_vector_list_crlf(VectorKind::Position, r);
    lemma_vector_list_bound(VectorKind::Position, r);
    if let Ok((len, positions)) = vector_list_spec(VectorKind::Position, r) {
        lemma_crlf_skip(r, len);
        lemma_from_texcoords_crlf(r.skip(len as int), name, positions);
        lemma_later_crlf(r, len, from_texcoords(r.skip(len as int), name, positions));
    }
}

/// The pipeline from the object name on reads alike under either line
/// terminator.
pub proof fn lemma_from_object_crlf(r: Seq<char>)
    requires
        cr_free(r),
    ensures
        from_object(crlf(r)) == stretched_result(r, from_object(r)),
{
    reveal(from_object);
    lemma_named_keywords();
    lemma_named_record_crlf(r, "o"@);
    match named_record_spec(r, "o"@) {
        Found::Present { len, value } => {
            lemma_crlf_skip(r, len);
            lemma_from_positions_crlf(r.skip(len as int), value);
            lemma_later_crlf(r, len, from_positions(r.skip(len as int), value));
        },
        Found::Absent => {
            lemma_from_positions_crlf(r, default_name());
        },
        Found::Malformed { .. } => {},
    }
}

/// The pipeline from the material reference on reads alike under either line
/// terminator.
pub proof fn lemma_from_material_crlf(r: Seq<char>)
    requires
        cr_free(r),
    ensures
        from_material(crlf(r)) == stretched_result(r, from_material(r)),
{
    reveal(from_material);
    lemma_named_keywords();
    lemma_named_record_crlf(r, "mtllib"@);
    match named_record_spec(r, "mtllib"@) {
        Found::Present { len, .. } => {
            lemma_crlf_skip(r, len);
            lemma_from_object_crlf(r.skip(len as int));
            lemma_later_crlf(r, len, from_object(r.skip(len as int)));
        },
        Found::Absent => {
            lemma_from_object_crlf(r);
        },
        Found::Malformed { .. } => {},
    }
}

/// A list of vector records is no longer than the text.
pub proof fn lemma_vector_list_bound(kind: VectorKind, r: Seq<char>)
    requires
        cr_free(r),
    ensures
        vector_list_spec(kind, r) matches Ok((n, _)) ==> n <= r.len(),
    decreases r.len(),
{
    lemma_vector_crlf(kind, r);
    if let Found::Present { len, .. } = vector_spec(kind, r) {
        lemma_crlf_skip(r, len);
        lemma_vector_list_bound(kind, r.skip(len as int));
    }
}

/// Line feed, and carriage return with line feed, parse alike: a text
/// without carriage returns and the same text with a carriage return put
/// before every line feed yield the same sections, or fail in the same
/// section, at the same record.
pub proof fn lemma_sections_crlf(text: Seq<char>)
    requires
        cr_free(text),
    ensures
        sections_spec(crlf(text)) == stretched_result(text, sections_spec(text)),
{
    lemma_ignore_lines_crlf(text);
    let lead = ignore_lines_len(text);
    lemma_crlf_skip(text, lead);
    lemma_from_material_crlf(text.skip(lead as int));
    lemma_later_crlf(text, lead, from_material(text.skip(lead as int)));
}

/// Line feed, and carriage return with line feed, parse alike: a text
/// without carriage returns and the same text with a carriage return put
/// before every line feed yield the same model, or the same error. The place
/// of a syntax error is counted in the characters of each text.
pub proof fn lemma_parse_crlf(text: Seq<char>)
    requires
        cr_free(text),
    ensures
        parse_spec(crlf(text)) == stretched_result(text, parse_spec(text)),
        parse_spec(text) is Ok ==> parse_spec(crlf(text)) == parse_spec(text),
{
    lemma_sections_crlf(text);
}

} // verus!
