//! Character classes used by the identifier and question rules.

use vstd::prelude::*;

verus! {

/// ASCII decimal digit.
pub open spec fn is_ascii_digit_char(c: char) -> bool {
    0x30 <= c as u32 && c as u32 <= 0x39
}

/// ASCII lower-case letter.
pub open spec fn is_ascii_lower_char(c: char) -> bool {
    0x61 <= c as u32 && c as u32 <= 0x7a
}

/// ASCII upper-case letter.
pub open spec fn is_ascii_upper_char(c: char) -> bool {
    0x41 <= c as u32 && c as u32 <= 0x5a
}

/// ASCII letter or digit.
pub open spec fn is_ascii_alnum_char(c: char) -> bool {
    is_ascii_digit_char(c) || is_ascii_lower_char(c) || is_ascii_upper_char(c)
}

/// Characters allowed in an owner segment: ASCII alphanumerics and hyphen.
pub open spec fn is_owner_char(c: char) -> bool {
    is_ascii_alnum_char(c) || c == '-'
}

/// Characters allowed in a repository-name segment: ASCII alphanumerics,
/// hyphen, underscore and dot.
pub open spec fn is_repo_char(c: char) -> bool {
    is_ascii_alnum_char(c) || c == '-' || c == '_' || c == '.'
}

/// ASCII lower-casing of a single character; other characters are unchanged.
pub open spec fn lower_char(c: char) -> char {
    if is_ascii_upper_char(c) {
        (c as u32 + 0x20) as char
    } else {
        c
    }
}

/// The Unicode `White_Space` characters, the set that `str::trim` removes
/// at both ends of a string.
pub open spec fn is_space_char(c: char) -> bool {
    let u = c as u32;
    (0x09 <= u && u <= 0x0d) || u == 0x20 || u == 0x85 || u == 0xa0 || u == 0x1680 || (0x2000
        <= u && u <= 0x200a) || u == 0x2028 || u == 0x2029 || u == 0x202f || u == 0x205f || u
        == 0x3000
}

/// The Unicode control characters (category `Cc`).
pub open spec fn is_control_char(c: char) -> bool {
    let u = c as u32;
    u <= 0x1f || (0x7f <= u && u <= 0x9f)
}

/// A question may hold any character except control characters other than
/// newline and tab.
pub open spec fn is_forbidden_question_char(c: char) -> bool {
    is_control_char(c) && c != '\n' && c != '\t'
}

/// ASCII lower-casing of a whole character sequence.
pub open spec fn lower_seq(s: Seq<char>) -> Seq<char> {
    Seq::new(s.len(), |i: int| lower_char(s[i]))
}

/// How [`lower_char`] treats the characters the identifier rules speak of:
/// it never produces an upper-case letter, it is idempotent, it preserves
/// the owner and repository character classes, and it neither introduces
/// nor removes the punctuation those classes contain.
pub proof fn lemma_lower_char_props(c: char)
    ensures
        !is_ascii_upper_char(lower_char(c)),
        lower_char(lower_char(c)) == lower_char(c),
        is_owner_char(c) ==> is_owner_char(lower_char(c)),
        is_repo_char(c) ==> is_repo_char(lower_char(c)),
        (lower_char(c) == '-') == (c == '-'),
        (lower_char(c) == '.') == (c == '.'),
        (lower_char(c) == '_') == (c == '_'),
        lower_char(c) == '/' ==> c == '/',
        lower_char(c) == '?' ==> c == '?',
        lower_char(c) == '#' ==> c == '#',
{
    if is_ascii_upper_char(c) {
        let u = c as u32 + 0x20;
        assert(0x61 <= u <= 0x7a);
        assert((u as char) as u32 == u);
    }
}

/// [`lower_seq`] leaves a sequence without upper-case letters unchanged.
pub proof fn lemma_lower_seq_fixes(s: Seq<char>)
    requires
        forall|i: int| 0 <= i < s.len() ==> !is_ascii_upper_char(#[trigger] s[i]),
    ensures
        lower_seq(s) == s,
{
    assert forall|i: int| 0 <= i < s.len() implies lower_seq(s)[i] == s[i] by {
        assert(!is_ascii_upper_char(s[i]));
    }
    assert(lower_seq(s) =~= s);
}

/// [`lower_seq`] is idempotent.
pub proof fn lemma_lower_seq_idempotent(s: Seq<char>)
    ensures
        lower_seq(lower_seq(s)) == lower_seq(s),
{
    assert forall|i: int| 0 <= i < s.len() implies !is_ascii_upper_char(
        #[trigger] lower_seq(s)[i],
    ) by {
        lemma_lower_char_props(s[i]);
    }
    lemma_lower_seq_fixes(lower_seq(s));
}

/// Decides [`is_ascii_digit_char`].
pub fn check_ascii_digit(c: char) -> (r: bool)
    ensures
        r == is_ascii_digit_char(c),
{
    let u = c as u32;
    0x30 <= u && u <= 0x39
}

/// Decides [`is_ascii_alnum_char`].
pub fn check_ascii_alnum(c: char) -> (r: bool)
    ensures
        r == is_ascii_alnum_char(c),
{
    let u = c as u32;
    (0x30 <= u && u <= 0x39) || (0x61 <= u && u <= 0x7a) || (0x41 <= u && u <= 0x5a)
}

/// Decides [`is_owner_char`].
pub fn check_owner_char(c: char) -> (r: bool)
    ensures
        r == is_owner_char(c),
{
    check_ascii_alnum(c) || c == '-'
}

/// Decides [`is_repo_char`].
pub fn check_repo_char(c: char) -> (r: bool)
    ensures
        r == is_repo_char(c),
{
    check_ascii_alnum(c) || c == '-' || c == '_' || c == '.'
}

/// Computes [`lower_char`].
pub fn to_lower_char(c: char) -> (r: char)
    ensures
        r == lower_char(c),
{
    let u = c as u32;
    if 0x41 <= u && u <= 0x5a {
        ((u + 0x20) as u8) as char
    } else {
        c
    }
}

/// Decides [`is_space_char`].
pub fn check_space_char(c: char) -> (r: bool)
    ensures
        r == is_space_char(c),
{
    let u = c as u32;
    (0x09 <= u && u <= 0x0d) || u == 0x20 || u == 0x85 || u == 0xa0 || u == 0x1680 || (0x2000
        <= u && u <= 0x200a) || u == 0x2028 || u == 0x2029 || u == 0x202f || u == 0x205f || u
        == 0x3000
}

/// Decides [`is_forbidden_question_char`].
pub fn check_forbidden_question_char(c: char) -> (r: bool)
    ensures
        r == is_forbidden_question_char(c),
{
    let u = c as u32;
    (u <= 0x1f || (0x7f <= u && u <= 0x9f)) && c != '\n' && c != '\t'
}

} // verus!
