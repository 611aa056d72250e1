//! Lexical primitives: character classes, runs, line terminators, comments,
//! blank lines and keywords.
//!
//! Every function reads from the front of the remaining text and reports how
//! many characters it matched. The specification of each primitive is a length,
//! where zero stands for "no match" wherever a match is never empty.

use vstd::prelude::*;
use vstd::slice::slice_subrange;
use vstd::string::StrSliceExecFns;

verus! {

/// Whether `char::is_alphabetic` holds of the character.
pub uninterp spec fn alphabetic(c: char) -> bool;

/// Calls `char::is_alphabetic`, the Unicode `Alphabetic` property. The contract
/// only names the outcome.
#[verifier::external_body]
fn char_is_alphabetic(c: char) -> (b: bool)
    ensures
        b == alphabetic(c),
{
    c.is_alphabetic()
}

/// A decimal digit, `0` to `9`.
pub open spec fn digit_char(c: char) -> bool {
    '0' <= c <= '9'
}

/// A letter: one of the 52 ASCII letters, or a character outside ASCII that
/// is alphabetic.
pub open spec fn letter_char(c: char) -> bool {
    ||| 'a' <= c <= 'z'
    ||| 'A' <= c <= 'Z'
    ||| c > '\x7f' && alphabetic(c)
}

/// A character of an identifier or file name: a letter, a decimal digit, `.`
/// or `_`.
pub open spec fn name_char(c: char) -> bool {
    ||| letter_char(c)
    ||| digit_char(c)
    ||| c == '.'
    ||| c == '_'
}

/// The classes of characters that the grammar takes runs of.
#[derive(Clone, Copy, Debug, PartialEq, Eq, Structural)]
pub enum CharClass {
    /// The space character.
    Space,
    /// Characters of identifiers and file names.
    Name,
    /// Decimal digits.
    Digit,
    /// Everything but carriage return and line feed.
    LineText,
    /// Everything that cannot begin the end of a line: no space, carriage
    /// return, line feed or `#`.
    Word,
}

/// Membership of a character in a class.
pub open spec fn in_class(class: CharClass, c: char) -> bool {
    match class {
        CharClass::Space => c == ' ',
        CharClass::Name => name_char(c),
        CharClass::Digit => digit_char(c),
        CharClass::LineText => c != '\r' && c != '\n',
        CharClass::Word => c != ' ' && c != '\r' && c != '\n' && c != '#',
    }
}

/// The length of the longest prefix of `r` made of characters of `class`.
pub open spec fn run_len(class: CharClass, r: Seq<char>) -> nat
    decreases r.len(),
{
    if r.len() > 0 && in_class(class, r[0]) {
        1 + run_len(class, r.skip(1))
    } else {
        0
    }
}

/// The length of the leading run of spaces.
pub open spec fn spaces_len(r: Seq<char>) -> nat {
    run_len(CharClass::Space, r)
}

/// The length of the leading identifier, zero where there is none.
pub open spec fn name_len(r: Seq<char>) -> nat {
    run_len(CharClass::Name, r)
}

/// The length of a line terminator at the front: 1 for `"\n"`, 2 for
/// `"\r\n"`, zero where there is none.
pub open spec fn line_ending_len(r: Seq<char>) -> nat {
    if r.len() >= 1 && r[0] == '\n' {
        1
    } else if r.len() >= 2 && r[0] == '\r' && r[1] == '\n' {
        2
    } else {
        0
    }
}

/// The length of the text of a comment line at the front, between `#` and the
/// line terminator.
pub open spec fn comment_text_len(r: Seq<char>) -> nat {
    run_len(CharClass::LineText, r.skip(1))
}

/// The length of a comment line at the front, `#` and terminator included;
/// zero where there is none.
pub open spec fn comment_len(r: Seq<char>) -> nat {
    if r.len() > 0 && r[0] == '#' {
        let t = comment_text_len(r);
        let e = line_ending_len(r.skip(1 + t as int));
        if e > 0 {
            1 + t + e
        } else {
            0
        }
    } else {
        0
    }
}

/// The length of a blank line at the front: optional spaces and a line
/// terminator; zero where there is none.
pub open spec fn empty_line_len(r: Seq<char>) -> nat {
    let s = spaces_len(r);
    let e = line_ending_len(r.skip(s as int));
    if e > 0 {
        s + e
    } else {
        0
    }
}

/// The length of an ignorable line at the front: a blank line or a comment
/// line; zero where there is none.
pub open spec fn ignore_line_len(r: Seq<char>) -> nat {
    let b = empty_line_len(r);
    if b > 0 {
        b
    } else {
        comment_len(r)
    }
}

/// The length of the leading run of ignorable lines.
pub open spec fn ignore_lines_len(r: Seq<char>) -> nat
    decreases r.len(),
{
    let n = ignore_line_len(r);
    if 0 < n <= r.len() {
        n + ignore_lines_len(r.skip(n as int))
    } else {
        0
    }
}

/// The length of the end of a content line: optional spaces, then a line
/// terminator or a comment line; zero where there is none.
pub open spec fn line_end_len(r: Seq<char>) -> nat {
    let s = spaces_len(r);
    let t = r.skip(s as int);
    let e = line_ending_len(t);
    let c = comment_len(t);
    if e > 0 {
        s + e
    } else if c > 0 {
        s + c
    } else {
        0
    }
}

/// What precedes a record's keyword: ignorable lines, then optional spaces.
pub open spec fn lead_len(r: Seq<char>) -> nat {
    let g = ignore_lines_len(r);
    g + spaces_len(r.skip(g as int))
}

/// Whether `r` begins with the keyword followed by a space.
#[verifier::opaque]
pub open spec fn at_keyword(r: Seq<char>, keyword: Seq<char>) -> bool {
    &&& r.len() > keyword.len()
    &&& forall|j: int| 0 <= j < keyword.len() ==> r[j] == keyword[j]
    &&& r[keyword.len() as int] == ' '
}

/// Whether `res` reports a match of `len` characters, `None` standing for
/// length zero: the result of a primitive that never matches the empty text.
pub open spec fn matched(res: Option<usize>, len: nat) -> bool {
    match res {
        Some(n) => n == len && len > 0,
        None => len == 0,
    }
}

/// A run is never longer than the text.
pub proof fn lemma_run_len_bound(class: CharClass, r: Seq<char>)
    ensures
        run_len(class, r) <= r.len(),
    decreases r.len(),
{
    if r.len() > 0 && in_class(class, r[0]) {
        lemma_run_len_bound(class, r.skip(1));
    }
}

/// The run of ignorable lines is never longer than the text.
pub proof fn lemma_ignore_lines_len_bound(r: Seq<char>)
    ensures
        ignore_lines_len(r) <= r.len(),
    decreases r.len(),
{
    let n = ignore_line_len(r);
    if 0 < n <= r.len() {
        lemma_ignore_lines_len_bound(r.skip(n as int));
    }
}

/// The text that remains after the first `n` characters.
pub(crate) fn tail(input: &[char], n: usize) -> (rest: &[char])
    requires
        n <= input.len(),
    ensures
        rest@ == input@.skip(n as int),
        rest@.len() == input@.len() - n,
        input@.len() <= usize::MAX,
{
    slice_subrange(input, n, input.len())
}

/// Tests for the space character.
pub fn is_space(c: char) -> (b: bool)
    ensures
        b == (c == ' '),
{
    c == ' '
}

/// Tests for a character of an identifier or file name.
pub fn is_name_char(c: char) -> (b: bool)
    ensures
        b == name_char(c),
{
    ('a' <= c && c <= 'z') || ('A' <= c && c <= 'Z') || ('0' <= c && c <= '9') || c == '.' || c
        == '_' || (c > '\x7f' && char_is_alphabetic(c))
}

/// Tests membership of a character in a class.
pub fn class_has(class: CharClass, c: char) -> (b: bool)
    ensures
        b == in_class(class, c),
{
    match class {
        CharClass::Space => is_space(c),
        CharClass::Name => is_name_char(c),
        CharClass::Digit => '0' <= c && c <= '9',
        CharClass::LineText => c != '\r' && c != '\n',
        CharClass::Word => c != ' ' && c != '\r' && c != '\n' && c != '#',
    }
}

/// Counts the leading characters of `class`.
pub fn take_run(class: CharClass, input: &[char]) -> (n: usize)
    ensures
        n == run_len(class, input@),
        n <= input.len(),
{
    let mut i: usize = 0;
    proof {
        assert(input@.skip(0) =~= input@);
    }
    while i < input.len() && class_has(class, input[i])
        invariant
            i <= input.len(),
            run_len(class, input@) == i + run_len(class, input@.skip(i as int)),
        decreases input.len() - i,
    {
        proof {
            assert(input@.skip(i as int).skip(1) =~= input@.skip(i + 1));
        }
        i += 1;
    }
    i
}

/// Matches exactly one space.
pub fn space(input: &[char]) -> (res: Option<usize>)
    ensures
        res == (if input@.len() > 0 && input@[0] == ' ' {
            Some(1usize)
        } else {
            None
        }),
{
    if input.len() > 0 && input[0] == ' ' {
        Some(1)
    } else {
        None
    }
}

/// Matches one or more spaces, as many as there are.
pub fn spaces(input: &[char]) -> (res: Option<usize>)
    ensures
        matched(res, spaces_len(input@)),
{
    let n = take_run(CharClass::Space, input);
    if n > 0 {
        Some(n)
    } else {
        None
    }
}

/// Matches an identifier: one or more name characters, as many as there are.
pub fn name(input: &[char]) -> (res: Option<usize>)
    ensures
        matched(res, name_len(input@)),
{
    let n = take_run(CharClass::Name, input);
    if n > 0 {
        Some(n)
    } else {
        None
    }
}

/// Matches a file name, which is written as an identifier is.
pub fn filename(input: &[char]) -> (res: Option<usize>)
    ensures
        matched(res, name_len(input@)),
{
    name(input)
}

/// Matches a line terminator, `"\n"` or `"\r\n"`.
pub fn line_ending(input: &[char]) -> (res: Option<usize>)
    ensures
        matched(res, line_ending_len(input@)),
{
    if input.len() >= 1 && input[0] == '\n' {
        Some(1)
    } else if input.len() >= 2 && input[0] == '\r' && input[1] == '\n' {
        Some(2)
    } else {
        None
    }
}

/// Matches a comment line. The result holds the length of the line and the
/// length of the comment's text, which begins behind the `#`.
pub fn comment(input: &[char]) -> (res: Option<(usize, usize)>)
    ensures
        res is Some <==> comment_len(input@) > 0,
        res matches Some((n, t)) ==> n == comment_len(input@) && t == comment_text_len(input@)
            && 1 + t < n <= input@.len(),
{
    if input.len() > 0 && input[0] == '#' {
        let t = take_run(CharClass::LineText, tail(input, 1));
        match line_ending(tail(input, 1 + t)) {
            Some(e) => Some((1 + t + e, t)),
            None => None,
        }
    } else {
        None
    }
}

/// Matches a blank line.
pub fn empty_line(input: &[char]) -> (res: Option<usize>)
    ensures
        matched(res, empty_line_len(input@)),
        res matches Some(n) ==> n <= input@.len(),
{
    let s = take_run(CharClass::Space, input);
    match line_ending(tail(input, s)) {
        Some(e) => Some(s + e),
        None => None,
    }
}

/// Matches an ignorable line: a blank line or a comment line.
pub fn ignore_line(input: &[char]) -> (res: Option<usize>)
    ensures
        matched(res, ignore_line_len(input@)),
        res matches Some(n) ==> n <= input@.len(),
{
    match empty_line(input) {
        Some(n) => Some(n),
        None => match comment(input) {
            Some((n, _)) => Some(n),
            None => None,
        },
    }
}

/// Counts the characters of the leading ignorable lines.
pub fn ignore_lines(input: &[char]) -> (n: usize)
    ensures
        n == ignore_lines_len(input@),
        n <= input.len(),
{
    let mut i: usize = 0;
    proof {
        assert(input@.skip(0) =~= input@);
    }
    loop
        invariant
            i <= input.len(),
            ignore_lines_len(input@) == i + ignore_lines_len(input@.skip(i as int)),
        decreases input.len() - i,
    {
        match ignore_line(tail(input, i)) {
            Some(n) => {
                proof {
                    assert(input@.skip(i as int).skip(n as int) =~= input@.skip(i + n));
                }
                i += n;
            },
            None => {
                return i;
            },
        }
    }
}

/// Matches the end of a content line: optional spaces, then a line terminator
/// or a comment line.
pub fn line_end(input: &[char]) -> (res: Option<usize>)
    ensures
        matched(res, line_end_len(input@)),
        res matches Some(n) ==> n <= input@.len(),
{
    let s = take_run(CharClass::Space, input);
    let rest = tail(input, s);
    match line_ending(rest) {
        Some(e) => Some(s + e),
        None => match comment(rest) {
            Some((c, _)) => Some(s + c),
            None => None,
        },
    }
}

/// Counts what precedes a record's keyword: ignorable lines, then spaces.
pub fn skip_lead(input: &[char]) -> (n: usize)
    ensures
        n == lead_len(input@),
        n <= input.len(),
{
    let g = ignore_lines(input);
    let s = take_run(CharClass::Space, tail(input, g));
    g + s
}

/// Tests whether the text begins with the keyword followed by a space.
pub fn starts_with_keyword(input: &[char], keyword: &str) -> (b: bool)
    ensures
        b == at_keyword(input@, keyword@),
        b ==> keyword@.len() < input@.len(),
{
    reveal(at_keyword);
    let k = keyword.unicode_len();
    if input.len() <= k {
        return false;
    }
    let mut j: usize = 0;
    while j < k
        invariant
            j <= k,
            k == keyword@.len(),
            k < input.len(),
            forall|i: int| 0 <= i < j ==> input@[i] == keyword@[i],
        decreases k - j,
    {
        if input[j] != keyword.get_char(j) {
            proof {
                reveal(at_keyword);
            }
            return false;
        }
        j += 1;
    }
    input[k] == ' '
}

} // verus!
