//! The repository-identifier grammar: the mathematical model of
//! canonicalization and validation of GitHub repository references.
//!
//! A reference is accepted exactly when it has the shape
//! `https://github.com[:port]/{owner}/{repo}[.git][/]` (scheme and host
//! compared case-insensitively), with the owner and repository segments
//! obeying GitHub's naming rules. The canonical form is
//! `https://github.com/{owner}/{repo}.git`, all lower-case.

use vstd::prelude::*;

use crate::chars::{
    check_ascii_digit, check_owner_char, check_repo_char, check_space_char, is_ascii_digit_char,
    is_ascii_upper_char, is_owner_char, is_repo_char, is_space_char,
    lemma_lower_char_props, lemma_lower_seq_fixes, lemma_lower_seq_idempotent, lower_char,
    lower_seq, to_lower_char,
};
use crate::error::Error;
use crate::strutil::{
    chars_string, extend_vec, lemma_trim_fixes, lower_vec, str_chars, subvec, trim_spec, trim_str,
};

verus! {

/// The scheme prefix `https://` of every accepted reference.
pub open spec fn https_prefix() -> Seq<char> {
    seq!['h', 't', 't', 'p', 's', ':', '/', '/']
}

/// The only host an accepted reference may name.
pub open spec fn github_host() -> Seq<char> {
    seq!['g', 'i', 't', 'h', 'u', 'b', '.', 'c', 'o', 'm']
}

/// The prefix `https://github.com/` of every canonical identifier.
pub open spec fn canonical_prefix() -> Seq<char> {
    https_prefix() + github_host() + seq!['/']
}

/// The suffix `.git` of every canonical identifier.
pub open spec fn git_suffix() -> Seq<char> {
    seq!['.', 'g', 'i', 't']
}

/// The canonical identifier built from lower-cased, validated segments.
pub open spec fn canonical_of(owner: Seq<char>, repo: Seq<char>) -> Seq<char> {
    canonical_prefix() + owner + seq!['/'] + repo + git_suffix()
}

/// The index of the first occurrence of `c` in `s`, or `-1` if absent.
pub open spec fn find_char(s: Seq<char>, c: char) -> int
    decreases s.len(),
{
    if s.len() == 0 {
        -1
    } else if s[0] == c {
        0
    } else if find_char(s.skip(1), c) < 0 {
        -1
    } else {
        find_char(s.skip(1), c) + 1
    }
}

/// What [`find_char`] returns: the least index holding `c`, or `-1`.
pub proof fn lemma_find_char(s: Seq<char>, c: char)
    ensures
        find_char(s, c) == -1 ==> forall|i: int| 0 <= i < s.len() ==> s[i] != c,
        find_char(s, c) != -1 ==> 0 <= find_char(s, c) < s.len() && s[find_char(s, c)] == c
            && forall|i: int| 0 <= i < find_char(s, c) ==> s[i] != c,
    decreases s.len(),
{
    if s.len() > 0 && s[0] != c {
        let t = s.skip(1);
        lemma_find_char(t, c);
        if find_char(s, c) == -1 {
            assert forall|i: int| 0 <= i < s.len() implies s[i] != c by {
                if i > 0 {
                    assert(t[i - 1] == s[i]);
                    assert(t[i - 1] != c);
                }
            }
        } else {
            let k = find_char(s, c);
            assert(s[k] == t[k - 1]);
            assert forall|i: int| 0 <= i < k implies s[i] != c by {
                if i > 0 {
                    assert(t[i - 1] == s[i]);
                    assert(t[i - 1] != c);
                }
            }
        }
    }
}

/// [`find_char`] is `k` whenever `k` holds `c` and nothing before it does.
pub proof fn lemma_find_char_is(s: Seq<char>, c: char, k: int)
    requires
        0 <= k < s.len(),
        s[k] == c,
        forall|i: int| 0 <= i < k ==> s[i] != c,
    ensures
        find_char(s, c) == k,
    decreases s.len(),
{
    if k > 0 {
        let t = s.skip(1);
        assert(t[k - 1] == s[k]);
        assert forall|i: int| 0 <= i < k - 1 implies t[i] != c by {
            assert(t[i] == s[i + 1]);
        }
        lemma_find_char_is(t, c, k - 1);
    }
}

/// [`find_char`] is `-1` whenever no index holds `c`.
pub proof fn lemma_find_char_none(s: Seq<char>, c: char)
    requires
        forall|i: int| 0 <= i < s.len() ==> s[i] != c,
    ensures
        find_char(s, c) == -1,
{
    lemma_find_char(s, c);
    if find_char(s, c) != -1 {
        assert(s[find_char(s, c)] == c);
    }
}

/// A valid owner segment: 1 to 39 ASCII alphanumerics or hyphens, neither
/// starting nor ending with a hyphen, and without consecutive hyphens.
pub open spec fn valid_owner_seq(s: Seq<char>) -> bool {
    &&& 1 <= s.len() <= 39
    &&& forall|i: int| 0 <= i < s.len() ==> is_owner_char(#[trigger] s[i])
    &&& s[0] != '-'
    &&& s[s.len() - 1] != '-'
    &&& forall|i: int| 0 <= i < s.len() - 1 ==> !(#[trigger] s[i] == '-' && s[i + 1] == '-')
}

/// A valid repository segment: 1 to 100 ASCII alphanumerics, hyphens,
/// underscores or dots, neither starting nor ending with a dot, hyphen or
/// underscore.
pub open spec fn valid_repo_seq(s: Seq<char>) -> bool {
    &&& 1 <= s.len() <= 100
    &&& forall|i: int| 0 <= i < s.len() ==> is_repo_char(#[trigger] s[i])
    &&& s[0] != '.' && s[0] != '-' && s[0] != '_'
    &&& s[s.len() - 1] != '.' && s[s.len() - 1] != '-' && s[s.len() - 1] != '_'
}

/// Whether `s` ends with the four characters `.git`.
pub open spec fn ends_with_git(s: Seq<char>) -> bool {
    s.len() >= 4 && s[s.len() - 4] == '.' && s[s.len() - 3] == 'g' && s[s.len() - 2] == 'i'
        && s[s.len() - 1] == 't'
}

/// `s` with a single trailing `.git` removed, if present.
pub open spec fn strip_git(s: Seq<char>) -> Seq<char> {
    if ends_with_git(s) {
        s.take(s.len() - 4)
    } else {
        s
    }
}

/// The numeric value of a digit character.
pub open spec fn digit_val(c: char) -> int {
    c as u32 - 0x30
}

/// The numeric value of a digit sequence, most significant digit first.
pub open spec fn digits_val(s: Seq<char>) -> int
    decreases s.len(),
{
    if s.len() == 0 {
        0
    } else {
        digits_val(s.take(s.len() - 1)) * 10 + digit_val(s[s.len() - 1])
    }
}

/// Whether every character of `s` is an ASCII digit.
pub open spec fn all_digits(s: Seq<char>) -> bool {
    forall|i: int| 0 <= i < s.len() ==> is_ascii_digit_char(#[trigger] s[i])
}

/// `s` with its leading zero characters removed.
pub open spec fn strip_leading_zeros(s: Seq<char>) -> Seq<char>
    decreases s.len(),
{
    if s.len() > 0 && s[0] == '0' {
        strip_leading_zeros(s.skip(1))
    } else {
        s
    }
}

/// A valid port: digits only (possibly none), whose value is at most 65535.
pub open spec fn port_ok(s: Seq<char>) -> bool {
    &&& all_digits(s)
    &&& strip_leading_zeros(s).len() <= 5
    &&& digits_val(strip_leading_zeros(s)) <= 65535
}

/// Whether the authority part (between `https://` and the first `/`) names
/// the GitHub host, optionally followed by `:` and a valid port.
pub open spec fn authority_ok(auth: Seq<char>) -> bool {
    if find_char(auth, ':') < 0 {
        lower_seq(auth) == github_host()
    } else {
        lower_seq(auth.take(find_char(auth, ':'))) == github_host() && port_ok(
            auth.skip(find_char(auth, ':') + 1),
        )
    }
}

/// Splits `p` (the path with its single leading and trailing slash already
/// trimmed) into exactly two non-empty segments, or rejects it.
pub open spec fn split_repo_path(p: Seq<char>) -> Option<(Seq<char>, Seq<char>)> {
    let k = find_char(p, '/');
    if k <= 0 || k >= p.len() - 1 {
        None
    } else if find_char(p.skip(k + 1), '/') != -1 {
        None
    } else {
        Some((p.take(k), p.skip(k + 1)))
    }
}

/// The canonicalization relation: the canonical identifier of `s`, or
/// `None` where `s` is rejected.
pub open spec fn canon_spec(s: Seq<char>) -> Option<Seq<char>> {
    if s.len() < 8 || lower_seq(s.take(8)) != https_prefix() {
        None
    } else {
        let rest = s.skip(8);
        let he = if find_char(rest, '/') < 0 {
            rest.len() as int
        } else {
            find_char(rest, '/')
        };
        let auth = rest.take(he);
        let path = rest.skip(he);
        if !authority_ok(auth) {
            None
        } else if path.len() == 0 {
            None
        } else if find_char(path, '#') != -1 || find_char(path, '?') != -1 {
            None
        } else {
            let p1 = path.skip(1);
            let p2 = if p1.len() > 0 && p1[p1.len() - 1] == '/' {
                p1.take(p1.len() - 1)
            } else {
                p1
            };
            match split_repo_path(p2) {
                None => None,
                Some((owner, rseg)) => {
                    let repo = strip_git(rseg);
                    if valid_owner_seq(owner) && valid_repo_seq(repo) {
                        Some(canonical_of(lower_seq(owner), lower_seq(repo)))
                    } else {
                        None
                    }
                },
            }
        }
    }
}

/// A repository reference assembled from the canonical prefix, an owner
/// segment and a final path segment: `https://github.com/{o}/{g}`.
pub open spec fn repo_url_of(o: Seq<char>, g: Seq<char>) -> Seq<char> {
    canonical_prefix() + o + seq!['/'] + g
}

/// Lower-casing an owner segment preserves its validity.
pub proof fn lemma_valid_owner_lower(s: Seq<char>)
    requires
        valid_owner_seq(s),
    ensures
        valid_owner_seq(lower_seq(s)),
{
    let t = lower_seq(s);
    assert forall|i: int| 0 <= i < t.len() implies is_owner_char(#[trigger] t[i]) by {
        lemma_lower_char_props(s[i]);
    }
    assert forall|i: int| 0 <= i < t.len() implies (t[i] == '-') == (s[i] == '-') by {
        lemma_lower_char_props(s[i]);
    }
    assert(t[0] != '-');
    assert(t[t.len() - 1] != '-');
    assert forall|i: int| 0 <= i < t.len() - 1 implies !(#[trigger] t[i] == '-' && t[i + 1]
        == '-') by {
        assert(!(s[i] == '-' && s[i + 1] == '-'));
    }
}

/// Lower-casing a repository segment preserves its validity.
pub proof fn lemma_valid_repo_lower(s: Seq<char>)
    requires
        valid_repo_seq(s),
    ensures
        valid_repo_seq(lower_seq(s)),
{
    let t = lower_seq(s);
    assert forall|i: int| 0 <= i < t.len() implies is_repo_char(#[trigger] t[i]) by {
        lemma_lower_char_props(s[i]);
    }
    lemma_lower_char_props(s[0]);
    lemma_lower_char_props(s[s.len() - 1]);
    assert(t[0] != '.' && t[0] != '-' && t[0] != '_');
    assert(t[t.len() - 1] != '.' && t[t.len() - 1] != '-' && t[t.len() - 1] != '_');
}

/// The literal `https://` is the sequence [`https_prefix`].
pub proof fn lemma_https_prefix_lit()
    ensures
        "https://"@ == https_prefix(),
{
    reveal_strlit("https://");
    assert("https://"@ =~= https_prefix());
}

/// The literal `github.com` is the sequence [`github_host`].
pub proof fn lemma_github_host_lit()
    ensures
        "github.com"@ == github_host(),
{
    reveal_strlit("github.com");
    assert("github.com"@ =~= github_host());
}

/// The literal `https://github.com/` is the sequence [`canonical_prefix`].
pub proof fn lemma_canonical_prefix_lit()
    ensures
        "https://github.com/"@ == canonical_prefix(),
{
    reveal_strlit("https://github.com/");
    assert("https://github.com/"@ =~= canonical_prefix());
}

/// The literal `.git` is the sequence [`git_suffix`].
pub proof fn lemma_git_suffix_lit()
    ensures
        ".git"@ == git_suffix(),
{
    reveal_strlit(".git");
    assert(".git"@ =~= git_suffix());
}

/// Scans `[from, to)` of `v` for `c`, reporting the first position.
fn scan_char(v: &Vec<char>, from: usize, to: usize, c: char) -> (r: Option<usize>)
    requires
        from <= to <= v.len(),
    ensures
        match r {
            Some(k) => from <= k < to && find_char(v@.subrange(from as int, to as int), c) == k
                - from,
            None => find_char(v@.subrange(from as int, to as int), c) == -1,
        },
{
    let ghost sub = v@.subrange(from as int, to as int);
    let mut i: usize = from;
    while i < to
        invariant
            from <= i <= to <= v.len(),
            sub == v@.subrange(from as int, to as int),
            forall|j: int| from <= j < i ==> v@[j] != c,
        decreases to - i,
    {
        if v[i] == c {
            proof {
                assert(sub[i - from] == c);
                assert forall|j: int| 0 <= j < i - from implies sub[j] != c by {
                    assert(sub[j] == v@[from + j]);
                }
                lemma_find_char_is(sub, c, i - from);
            }
            return Some(i);
        }
        i += 1;
    }
    proof {
        assert forall|j: int| 0 <= j < sub.len() implies sub[j] != c by {
            assert(sub[j] == v@[from + j]);
        }
        lemma_find_char_none(sub, c);
    }
    None
}

/// Whether `v` starts with the (case-insensitive) scheme prefix `https://`.
fn check_prefix(v: &Vec<char>) -> (r: bool)
    ensures
        r == (v@.len() >= 8 && lower_seq(v@.take(8)) == https_prefix()),
{
    if v.len() < 8 {
        return false;
    }
    let lit = "https://";
    proof {
        lemma_https_prefix_lit();
    }
    let mut i: usize = 0;
    while i < 8
        invariant
            i <= 8,
            8 <= v.len(),
            lit@ == https_prefix(),
            forall|j: int| 0 <= j < i ==> lower_char(#[trigger] v@[j]) == https_prefix()[j],
        decreases 8 - i,
    {
        if to_lower_char(v[i]) != lit.get_char(i) {
            proof {
                assert(lower_seq(v@.take(8))[i as int] == lower_char(v@[i as int]));
                if lower_seq(v@.take(8)) == https_prefix() {
                    assert(lower_seq(v@.take(8))[i as int] == https_prefix()[i as int]);
                }
            }
            return false;
        }
        i += 1;
    }
    proof {
        assert forall|j: int| 0 <= j < 8 implies lower_seq(v@.take(8))[j] == https_prefix()[j] by {
            assert(lower_seq(v@.take(8))[j] == lower_char(v@[j]));
        }
        assert(lower_seq(v@.take(8)) =~= https_prefix());
    }
    true
}

/// Whether `[from, to)` of `v`, lower-cased, is exactly `github.com`.
fn check_host_range(v: &Vec<char>, from: usize, to: usize) -> (r: bool)
    requires
        from <= to <= v.len(),
    ensures
        r == (lower_seq(v@.subrange(from as int, to as int)) == github_host()),
{
    let ghost sub = v@.subrange(from as int, to as int);
    if to - from != 10 {
        proof {
            if lower_seq(sub) == github_host() {
                assert(lower_seq(sub).len() == 10);
            }
        }
        return false;
    }
    let lit = "github.com";
    proof {
        lemma_github_host_lit();
    }
    let mut i: usize = 0;
    while i < 10
        invariant
            i <= 10,
            from + 10 == to <= v.len(),
            sub == v@.subrange(from as int, to as int),
            lit@ == github_host(),
            forall|j: int| 0 <= j < i ==> lower_char(#[trigger] sub[j]) == github_host()[j],
        decreases 10 - i,
    {
        if to_lower_char(v[from + i]) != lit.get_char(i) {
            proof {
                assert(sub[i as int] == v@[from + i]);
                assert(lower_seq(sub)[i as int] == lower_char(sub[i as int]));
                if lower_seq(sub) == github_host() {
                    assert(lower_seq(sub)[i as int] == github_host()[i as int]);
                }
            }
            return false;
        }
        proof {
            assert(sub[i as int] == v@[from + i]);
        }
        i += 1;
    }
    proof {
        assert forall|j: int| 0 <= j < 10 implies lower_seq(sub)[j] == github_host()[j] by {
            assert(lower_seq(sub)[j] == lower_char(sub[j]));
        }
        assert(lower_seq(sub) =~= github_host());
    }
    true
}

/// [`strip_leading_zeros`] drops exactly the leading zero characters.
proof fn lemma_strip_zeros(s: Seq<char>, k: int)
    requires
        0 <= k <= s.len(),
        forall|i: int| 0 <= i < k ==> s[i] == '0',
        k < s.len() ==> s[k] != '0',
    ensures
        strip_leading_zeros(s) == s.skip(k),
    decreases k,
{
    if k == 0 {
        assert(s.skip(0) =~= s);
    } else {
        let t = s.skip(1);
        assert forall|i: int| 0 <= i < k - 1 implies t[i] == '0' by {
            assert(t[i] == s[i + 1]);
        }
        assert(k - 1 < t.len() ==> t[k - 1] != '0');
        lemma_strip_zeros(t, k - 1);
        assert(t.skip(k - 1) =~= s.skip(k));
    }
}

/// One digit extends the value of a digit sequence by one decimal place.
proof fn lemma_digits_val_step(s: Seq<char>, j: int)
    requires
        0 <= j < s.len(),
    ensures
        digits_val(s.take(j + 1)) == digits_val(s.take(j)) * 10 + digit_val(s[j]),
{
    let p = s.take(j + 1);
    assert(p.take(j) =~= s.take(j));
    assert(p[j] == s[j]);
}

/// Powers of ten, for bounding partial port values.
spec fn pow10(n: nat) -> int
    decreases n,
{
    if n == 0 {
        1
    } else {
        10 * pow10((n - 1) as nat)
    }
}

/// The value of a digit sequence is below the matching power of ten.
proof fn lemma_digits_val_bound(s: Seq<char>, j: int)
    requires
        0 <= j <= s.len(),
        all_digits(s),
    ensures
        0 <= digits_val(s.take(j)) < pow10(j as nat),
    decreases j,
{
    if j == 0 {
        assert(s.take(0).len() == 0);
    } else {
        lemma_digits_val_bound(s, j - 1);
        lemma_digits_val_step(s, j - 1);
        assert(is_ascii_digit_char(s[j - 1]));
        assert(0 <= digit_val(s[j - 1]) <= 9);
    }
}

/// Whether `[from, to)` of `v` is a valid port: digits whose value fits.
fn check_port_range(v: &Vec<char>, from: usize, to: usize) -> (r: bool)
    requires
        from <= to <= v.len(),
    ensures
        r == port_ok(v@.subrange(from as int, to as int)),
{
    let ghost sub = v@.subrange(from as int, to as int);
    // every character must be a digit
    let mut i: usize = from;
    while i < to
        invariant
            from <= i <= to <= v.len(),
            sub == v@.subrange(from as int, to as int),
            forall|j: int| from <= j < i ==> is_ascii_digit_char(#[trigger] v@[j]),
        decreases to - i,
    {
        if !check_ascii_digit(v[i]) {
            proof {
                assert(sub[i - from] == v@[i as int]);
            }
            return false;
        }
        i += 1;
    }
    proof {
        assert forall|j: int| 0 <= j < sub.len() implies is_ascii_digit_char(#[trigger] sub[j]) by {
            assert(sub[j] == v@[from + j]);
        }
    }
    // skip leading zeros
    let mut z: usize = from;
    while z < to && v[z] == '0'
        invariant
            from <= z <= to <= v.len(),
            forall|j: int| from <= j < z ==> v@[j] == '0',
        decreases to - z,
    {
        z += 1;
    }
    let ghost st = sub.skip(z - from);
    proof {
        assert forall|j: int| 0 <= j < z - from implies sub[j] == '0' by {
            assert(sub[j] == v@[from + j]);
        }
        assert(z < to ==> sub[z - from] == v@[z as int]);
        lemma_strip_zeros(sub, z - from);
    }
    // at most five significant digits
    if to - z > 5 {
        return false;
    }
    // compute the value of the significant digits
    proof {
        assert(all_digits(st)) by {
            assert forall|j: int| 0 <= j < st.len() implies is_ascii_digit_char(
                #[trigger] st[j],
            ) by {
                assert(st[j] == sub[j + (z - from)]);
            }
        }
    }
    let mut val: u32 = 0;
    let mut j: usize = z;
    while j < to
        invariant
            z <= j <= to <= v.len(),
            to - z <= 5,
            st == sub.skip(z - from),
            sub == v@.subrange(from as int, to as int),
            from <= z,
            all_digits(st),
            val == digits_val(st.take(j - z)),
            0 <= val < pow10((j - z) as nat),
        decreases to - j,
    {
        proof {
            lemma_digits_val_step(st, j - z);
            lemma_digits_val_bound(st, j - z + 1);
            assert(st[j - z] == sub[j - from]);
            assert(sub[j - from] == v@[j as int]);
            assert(pow10(0) == 1);
            assert(pow10(1) == 10);
            assert(pow10(2) == 100);
            assert(pow10(3) == 1000);
            assert(pow10(4) == 10000);
            assert(pow10(5) == 100000);
            assert(is_ascii_digit_char(st[j - z]));
        }
        let d = (v[j] as u32) - 0x30;
        val = val * 10 + d;
        j += 1;
    }
    proof {
        assert(st.take(to - z) =~= st);
    }
    val <= 65535
}

/// Checks the owner segment against GitHub's user and organization naming
/// rules, reporting the violated rule.
pub(crate) fn validate_owner_chars(v: &Vec<char>) -> (r: Result<(), Error>)
    ensures
        r is Ok <==> valid_owner_seq(v@),
        r matches Err(e) ==> e matches Error::InvalidGithubUrl(_),
{
    let n = v.len();
    if n == 0 {
        return Err(Error::InvalidGithubUrl(String::from_str("Owner name cannot be empty")));
    }
    if n > 39 {
        return Err(
            Error::InvalidGithubUrl(String::from_str("Owner name cannot exceed 39 characters")),
        );
    }
    if v[0] == '-' || v[0] == '.' || v[0] == '_' || v[n - 1] == '-' {
        proof {
            assert(v@[0] == '.' ==> !is_owner_char(v@[0]));
            assert(v@[0] == '_' ==> !is_owner_char(v@[0]));
        }
        return Err(
            Error::InvalidGithubUrl(
                String::from_str(
                    "Owner name cannot begin with dot, underscore, or hyphen, or end with a hyphen",
                ),
            ),
        );
    }
    let mut i: usize = 0;
    while i < n
        invariant
            i <= n,
            n == v@.len(),
            forall|j: int| 0 <= j < i ==> is_owner_char(#[trigger] v@[j]),
            forall|j: int| 0 <= j < i - 1 ==> !(#[trigger] v@[j] == '-' && v@[j + 1] == '-'),
        decreases n - i,
    {
        if !check_owner_char(v[i]) {
            return Err(
                Error::InvalidGithubUrl(
                    String::from_str(
                        "Owner name can only contain alphanumeric characters and hyphens",
                    ),
                ),
            );
        }
        if i > 0 && v[i] == '-' && v[i - 1] == '-' {
            return Err(
                Error::InvalidGithubUrl(
                    String::from_str("Owner name cannot have consecutive hyphens"),
                ),
            );
        }
        i += 1;
    }
    Ok(())
}

/// Checks the repository segment against GitHub's repository naming rules,
/// reporting the violated rule.
pub(crate) fn validate_repo_chars(v: &Vec<char>) -> (r: Result<(), Error>)
    ensures
        r is Ok <==> valid_repo_seq(v@),
        r matches Err(e) ==> e matches Error::InvalidGithubUrl(_),
{
    let n = v.len();
    if n == 0 {
        return Err(Error::InvalidGithubUrl(String::from_str("Repository name cannot be empty")));
    }
    if n > 100 {
        return Err(
            Error::InvalidGithubUrl(
                String::from_str("Repository name cannot exceed 100 characters"),
            ),
        );
    }
    if v[0] == '.' || v[0] == '-' || v[0] == '_' {
        return Err(
            Error::InvalidGithubUrl(
                String::from_str("Repository name cannot start with a dot, hyphen, or underscore"),
            ),
        );
    }
    if v[n - 1] == '.' || v[n - 1] == '-' || v[n - 1] == '_' {
        return Err(
            Error::InvalidGithubUrl(
                String::from_str("Repository name cannot end with a dot, hyphen, or underscore"),
            ),
        );
    }
    let mut i: usize = 0;
    while i < n
        invariant
            i <= n,
            n == v@.len(),
            forall|j: int| 0 <= j < i ==> is_repo_char(#[trigger] v@[j]),
        decreases n - i,
    {
        if !check_repo_char(v[i]) {
            return Err(
                Error::InvalidGithubUrl(
                    String::from_str(
                        "Repository name can only contain alphanumeric characters, hyphens, underscores, and dots",
                    ),
                ),
            );
        }
        i += 1;
    }
    Ok(())
}

/// How [`canon_spec`] evaluates on a reference assembled from the canonical
/// prefix and two slash-free segments, with or without a trailing slash:
/// the segments are recovered exactly, and acceptance reduces to the
/// validity of the segments.
#[verifier::rlimit(100)]
pub proof fn lemma_canon_spec_split(o: Seq<char>, g: Seq<char>, trail: bool)
    requires
        1 <= o.len(),
        1 <= g.len(),
        forall|i: int| 0 <= i < o.len() ==> #[trigger] o[i] != '/' && o[i] != '?' && o[i] != '#',
        forall|i: int| 0 <= i < g.len() ==> #[trigger] g[i] != '/' && g[i] != '?' && g[i] != '#',
    ensures
        canon_spec(
            if trail {
                repo_url_of(o, g).push('/')
            } else {
                repo_url_of(o, g)
            },
        ) == (if valid_owner_seq(o) && valid_repo_seq(strip_git(g)) {
            Some(canonical_of(lower_seq(o), lower_seq(strip_git(g))))
        } else {
            None
        }),
{
    let w = if trail {
        repo_url_of(o, g).push('/')
    } else {
        repo_url_of(o, g)
    };
    let hp = https_prefix();
    let gh = github_host();
    let p = canonical_prefix();
    let ol = o.len() as int;
    let gl = g.len() as int;
    assert(hp.len() == 8);
    assert(gh.len() == 10);
    assert(p.len() == 19);
    assert(w.len() == 19 + ol + 1 + gl + if trail { 1int } else { 0int });
    // the characters of w, position by position
    assert(forall|i: int| 0 <= i < 19 ==> w[i] == p[i]);
    assert(forall|j: int| 0 <= j < ol ==> w[19 + j] == o[j]);
    assert(w[19 + ol] == '/');
    assert(forall|j: int| 0 <= j < gl ==> w[19 + ol + 1 + j] == g[j]);
    assert(trail ==> w[w.len() - 1] == '/');

    // scheme prefix
    assert forall|i: int| 0 <= i < 8 implies !is_ascii_upper_char(#[trigger] w.take(8)[i]) by {
        assert(w.take(8)[i] == hp[i]);
    }
    lemma_lower_seq_fixes(w.take(8));
    assert(w.take(8) =~= hp);

    // authority runs to the slash that ends the host
    let rest = w.skip(8);
    assert(forall|j: int| 0 <= j < rest.len() ==> rest[j] == w[8 + j]);
    assert(forall|j: int| 0 <= j < 10 ==> rest[j] == gh[j]);
    assert(gh[0] == 'g' && gh[1] == 'i' && gh[2] == 't' && gh[3] == 'h' && gh[4] == 'u' && gh[5]
        == 'b' && gh[6] == '.' && gh[7] == 'c' && gh[8] == 'o' && gh[9] == 'm');
    assert(rest[10] == w[18] == '/');
    assert forall|j: int| 0 <= j < 10 implies rest[j] != '/' by {
        assert(rest[j] == gh[j]);
    }
    lemma_find_char_is(rest, '/', 10);
    let auth = rest.take(10);
    assert(auth =~= gh);
    assert forall|j: int| 0 <= j < auth.len() implies auth[j] != ':' by {
        assert(auth[j] == gh[j]);
    }
    lemma_find_char_none(auth, ':');
    assert forall|j: int| 0 <= j < auth.len() implies !is_ascii_upper_char(#[trigger] auth[j]) by {
        assert(auth[j] == gh[j]);
    }
    lemma_lower_seq_fixes(auth);
    assert(authority_ok(auth));

    // the path holds no query or fragment marker
    let path = rest.skip(10);
    assert(forall|j: int| 0 <= j < path.len() ==> path[j] == w[18 + j]);
    assert(path.len() == 1 + ol + 1 + gl + if trail { 1int } else { 0int });
    assert forall|j: int| 0 <= j < path.len() implies path[j] != '#' && path[j] != '?' by {
        assert(path[j] == w[18 + j]);
        if j == 0 || j == ol + 1 || (trail && j == path.len() - 1) {
        } else if 1 <= j <= ol {
            assert(w[18 + j] == o[j - 1]);
        } else {
            assert(w[18 + j] == g[j - ol - 2]);
        }
    }
    lemma_find_char_none(path, '#');
    lemma_find_char_none(path, '?');

    // trim the single leading slash, and the trailing one if present
    let p1 = path.skip(1);
    assert(forall|j: int| 0 <= j < p1.len() ==> p1[j] == w[19 + j]);
    assert(p1.len() == ol + 1 + gl + if trail { 1int } else { 0int });
    let p2 = if p1.len() > 0 && p1[p1.len() - 1] == '/' {
        p1.take(p1.len() - 1)
    } else {
        p1
    };
    if trail {
        assert(p1[p1.len() - 1] == '/');
    } else {
        assert(p1[p1.len() - 1] == g[gl - 1]);
        assert(g[gl - 1] != '/');
    }
    assert(p2.len() == ol + 1 + gl);
    assert(forall|j: int| 0 <= j < p2.len() ==> p2[j] == w[19 + j]);

    // exactly two segments: the owner and the final segment
    assert forall|j: int| 0 <= j < ol implies p2[j] != '/' by {
        assert(p2[j] == o[j]);
    }
    assert(p2[ol] == '/');
    lemma_find_char_is(p2, '/', ol);
    let rseg = p2.skip(ol + 1);
    assert(rseg =~= g);
    lemma_find_char_none(g, '/');
    assert(p2.take(ol) =~= o);
    assert(split_repo_path(p2) == Some((o, g)));
}

/// The canonical identifier of validated segments is a fixed point of
/// canonicalization.
pub proof fn lemma_canonical_fixed_point(o: Seq<char>, r: Seq<char>)
    requires
        valid_owner_seq(o),
        valid_repo_seq(r),
    ensures
        canon_spec(canonical_of(lower_seq(o), lower_seq(r))) == Some(
            canonical_of(lower_seq(o), lower_seq(r)),
        ),
{
    let lo = lower_seq(o);
    let lr = lower_seq(r);
    let g = lr + git_suffix();
    assert(canonical_of(lo, lr) =~= repo_url_of(lo, g));
    assert forall|i: int| 0 <= i < lo.len() implies #[trigger] lo[i] != '/' && lo[i] != '?'
        && lo[i] != '#' by {
        lemma_lower_char_props(o[i]);
        assert(is_owner_char(lo[i]));
    }
    assert forall|i: int| 0 <= i < g.len() implies #[trigger] g[i] != '/' && g[i] != '?' && g[i]
        != '#' by {
        if i < lr.len() {
            lemma_lower_char_props(r[i]);
            assert(is_repo_char(lr[i]));
        } else {
            assert(g[i] == git_suffix()[i - lr.len()]);
        }
    }
    lemma_canon_spec_split(lo, g, false);
    assert(ends_with_git(g)) by {
        assert(g[g.len() - 4] == git_suffix()[0]);
        assert(g[g.len() - 3] == git_suffix()[1]);
        assert(g[g.len() - 2] == git_suffix()[2]);
        assert(g[g.len() - 1] == git_suffix()[3]);
    }
    assert(strip_git(g) =~= lr);
    lemma_valid_owner_lower(o);
    lemma_valid_repo_lower(r);
    lemma_lower_seq_idempotent(o);
    lemma_lower_seq_idempotent(r);
}

/// Every accepted reference canonicalizes to the canonical identifier of a
/// pair of validated segments.
pub proof fn lemma_canon_spec_shape(s: Seq<char>)
    requires
        canon_spec(s) is Some,
    ensures
        exists|o: Seq<char>, r: Seq<char>|
            valid_owner_seq(o) && valid_repo_seq(r) && canon_spec(s) == Some(
                canonical_of(lower_seq(o), lower_seq(r)),
            ),
{
    let rest = s.skip(8);
    let he = if find_char(rest, '/') < 0 {
        rest.len() as int
    } else {
        find_char(rest, '/')
    };
    let path = rest.skip(he);
    let p1 = path.skip(1);
    let p2 = if p1.len() > 0 && p1[p1.len() - 1] == '/' {
        p1.take(p1.len() - 1)
    } else {
        p1
    };
    match split_repo_path(p2) {
        Some((owner, rseg)) => {
            let repo = strip_git(rseg);
            assert(valid_owner_seq(owner) && valid_repo_seq(repo));
            assert(canon_spec(s) == Some(canonical_of(lower_seq(owner), lower_seq(repo))));
        },
        None => {
            assert(false);
        },
    }
}

/// A canonical identifier carries no white space at either end, so
/// trimming leaves it unchanged.
proof fn lemma_canonical_not_padded(o: Seq<char>, r: Seq<char>)
    ensures
        trim_spec(canonical_of(o, r)) == canonical_of(o, r),
{
    let c = canonical_of(o, r);
    assert(c.len() >= 24);
    assert(c[0] == https_prefix()[0]);
    assert(c[c.len() - 1] == git_suffix()[3]);
    assert(!is_space_char(c[0]));
    assert(!is_space_char(c[c.len() - 1]));
    lemma_trim_fixes(c);
}

/// Canonicalization is idempotent: feeding an accepted reference's
/// canonical identifier back in returns the identifier unchanged.
pub proof fn lemma_canonicalize_idempotent(s: Seq<char>)
    requires
        canon_spec(trim_spec(s)) is Some,
    ensures
        canon_spec(trim_spec(s)) matches Some(c) && trim_spec(c) == c && canon_spec(c) == Some(c),
{
    lemma_canon_spec_shape(trim_spec(s));
    let (o, r) = choose|o: Seq<char>, r: Seq<char>|
        valid_owner_seq(o) && valid_repo_seq(r) && canon_spec(trim_spec(s)) == Some(
            canonical_of(lower_seq(o), lower_seq(r)),
        );
    lemma_canonical_fixed_point(o, r);
    lemma_canonical_not_padded(lower_seq(o), lower_seq(r));
}

/// Case, `.git`-suffix and trailing-slash invariance: the plain reference,
/// the reference with a `.git` suffix, and the reference with a trailing
/// slash all canonicalize to the same lower-cased identifier. (A repository
/// name that itself ends in `.git` is excluded: the plain form would strip
/// that suffix.)
pub proof fn lemma_case_suffix_slash_invariance(o: Seq<char>, r: Seq<char>)
    requires
        valid_owner_seq(o),
        valid_repo_seq(r),
        !ends_with_git(r),
    ensures
        canon_spec(repo_url_of(o, r)) == Some(canonical_of(lower_seq(o), lower_seq(r))),
        canon_spec(repo_url_of(o, r + git_suffix())) == Some(
            canonical_of(lower_seq(o), lower_seq(r)),
        ),
        canon_spec(repo_url_of(o, r).push('/')) == Some(canonical_of(lower_seq(o), lower_seq(r))),
{
    assert forall|i: int| 0 <= i < o.len() implies #[trigger] o[i] != '/' && o[i] != '?' && o[i]
        != '#' by {
        assert(is_owner_char(o[i]));
    }
    assert forall|i: int| 0 <= i < r.len() implies #[trigger] r[i] != '/' && r[i] != '?' && r[i]
        != '#' by {
        assert(is_repo_char(r[i]));
    }
    let g = r + git_suffix();
    assert forall|i: int| 0 <= i < g.len() implies #[trigger] g[i] != '/' && g[i] != '?' && g[i]
        != '#' by {
        if i < r.len() {
            assert(g[i] == r[i]);
            assert(is_repo_char(r[i]));
        } else {
            assert(g[i] == git_suffix()[i - r.len()]);
        }
    }
    assert(strip_git(r) == r);
    assert(ends_with_git(g)) by {
        assert(g[g.len() - 4] == git_suffix()[0]);
        assert(g[g.len() - 3] == git_suffix()[1]);
        assert(g[g.len() - 2] == git_suffix()[2]);
        assert(g[g.len() - 1] == git_suffix()[3]);
    }
    assert(strip_git(g) =~= r);
    lemma_canon_spec_split(o, r, false);
    lemma_canon_spec_split(o, g, false);
    lemma_canon_spec_split(o, r, true);
}

/// Canonicalizes and validates a GitHub repository reference.
///
/// White space at either end is ignored, as a URL parser would ignore it.
/// Returns the canonical identifier exactly where [`canon_spec`] accepts
/// the trimmed input, and a [`Error::InvalidGithubUrl`] naming the
/// violated rule everywhere else.
#[verifier::rlimit(100)]
pub fn canonicalize(raw: &str) -> (r: Result<String, Error>)
    ensures
        r matches Ok(c) ==> canon_spec(trim_spec(raw@)) == Some(c@),
        r is Err ==> canon_spec(trim_spec(raw@)) is None,
        r matches Err(e) ==> e matches Error::InvalidGithubUrl(_),
{
    let reference = trim_str(raw);
    let v = str_chars(reference.as_str());
    let n = v.len();
    let ghost s = trim_spec(raw@);

    // an empty or whitespace-only reference gets its own message
    if n == 0 {
        return Err(Error::InvalidGithubUrl(String::from_str("URL cannot be empty")));
    }

    // scheme: the reference must start with https://
    if !check_prefix(&v) {
        let has_colon = scan_char(&v, 0, n, ':');
        let msg = if has_colon.is_some() {
            "URL scheme must be https"
        } else {
            "Invalid URL format"
        };
        return Err(Error::InvalidGithubUrl(String::from_str(msg)));
    }
    let ghost rest = s.skip(8);

    // the authority part runs to the first slash
    let he = match scan_char(&v, 8, n, '/') {
        Some(k) => k,
        None => n,
    };
    proof {
        assert(rest =~= v@.subrange(8, n as int));
    }
    let ghost he_spec = if find_char(rest, '/') < 0 {
        rest.len() as int
    } else {
        find_char(rest, '/')
    };
    let ghost auth = rest.take(he_spec);
    let ghost path = rest.skip(he_spec);
    proof {
        assert(he_spec == he - 8);
        assert(auth =~= v@.subrange(8, he as int));
        assert(path =~= v@.subrange(he as int, n as int));
    }

    // host, and an optional port after a colon
    let ci = scan_char(&v, 8, he, ':');
    let hend = match ci {
        Some(q) => q,
        None => he,
    };
    proof {
        if ci is Some {
            let q = ci.unwrap() as int;
            assert(find_char(auth, ':') == q - 8);
            assert(auth.take(q - 8) =~= v@.subrange(8, q));
            assert(auth.skip(q - 8 + 1) =~= v@.subrange(q + 1, he as int));
        } else {
            assert(find_char(auth, ':') == -1);
        }
    }
    if !check_host_range(&v, 8, hend) {
        return Err(Error::InvalidGithubUrl(String::from_str("URL must be from github.com")));
    }
    if let Some(q) = ci {
        if !check_port_range(&v, q + 1, he) {
            return Err(Error::InvalidGithubUrl(String::from_str("Invalid URL format")));
        }
    }
    proof {
        assert(authority_ok(auth));
    }

    // the path must hold exactly the owner and repository segments
    if he == n {
        proof {
            assert(path.len() == 0);
        }
        return Err(
            Error::InvalidGithubUrl(
                String::from_str("GitHub URL must be in format: https://github.com/owner/repo"),
            ),
        );
    }
    if scan_char(&v, he, n, '#').is_some() {
        return Err(Error::InvalidGithubUrl(String::from_str("URL cannot contain fragments (#)")));
    }
    if scan_char(&v, he, n, '?').is_some() {
        return Err(
            Error::InvalidGithubUrl(String::from_str("URL cannot contain query parameters (?)")),
        );
    }

    // trim a single leading and a single trailing slash
    let ghost p1 = path.skip(1);
    let pe = if n > he + 1 && v[n - 1] == '/' {
        n - 1
    } else {
        n
    };
    let ghost p2 = if p1.len() > 0 && p1[p1.len() - 1] == '/' {
        p1.take(p1.len() - 1)
    } else {
        p1
    };
    proof {
        assert(p1 =~= v@.subrange(he + 1, n as int));
        assert(p1.len() > 0 ==> p1[p1.len() - 1] == v@[n - 1]);
        assert(p2 =~= v@.subrange(he + 1, pe as int));
    }
    let k = match scan_char(&v, he + 1, pe, '/') {
        Some(k) => k,
        None => {
            proof {
                assert(find_char(p2, '/') == -1);
            }
            return Err(
                Error::InvalidGithubUrl(
                    String::from_str("GitHub URL must be in format: https://github.com/owner/repo"),
                ),
            );
        },
    };
    proof {
        assert(find_char(p2, '/') == k - (he + 1));
    }
    if k == he + 1 || k + 1 == pe {
        return Err(
            Error::InvalidGithubUrl(
                String::from_str("GitHub URL must be in format: https://github.com/owner/repo"),
            ),
        );
    }
    proof {
        assert(p2.skip(k - (he + 1) + 1) =~= v@.subrange(k + 1, pe as int));
    }
    if scan_char(&v, k + 1, pe, '/').is_some() {
        return Err(
            Error::InvalidGithubUrl(
                String::from_str("GitHub URL must be in format: https://github.com/owner/repo"),
            ),
        );
    }
    let ghost owner_spec = p2.take(k - (he + 1));
    let ghost rseg = p2.skip(k - (he + 1) + 1);
    proof {
        assert(split_repo_path(p2) == Some((owner_spec, rseg)));
        assert(owner_spec =~= v@.subrange(he + 1, k as int));
    }

    // strip a single optional trailing .git from the repository segment
    let re = if pe - (k + 1) >= 4 && v[pe - 4] == '.' && v[pe - 3] == 'g' && v[pe - 2] == 'i' && v[
        pe - 1] == 't' {
        pe - 4
    } else {
        pe
    };
    proof {
        assert(rseg.len() == pe - (k + 1));
        assert(rseg.len() >= 4 ==> rseg[rseg.len() - 4] == v@[pe - 4] && rseg[rseg.len() - 3]
            == v@[pe - 3] && rseg[rseg.len() - 2] == v@[pe - 2] && rseg[rseg.len() - 1] == v@[pe
            - 1]);
        if ends_with_git(rseg) {
            assert(re == pe - 4);
            assert(strip_git(rseg) =~= v@.subrange(k + 1, re as int));
        } else {
            assert(re == pe);
            assert(strip_git(rseg) =~= v@.subrange(k + 1, re as int));
        }
    }
    let owner = subvec(&v, he + 1, k);
    let repo = subvec(&v, k + 1, re);

    // validate both segments
    if let Err(e) = validate_owner_chars(&owner) {
        return Err(e);
    }
    if let Err(e) = validate_repo_chars(&repo) {
        return Err(e);
    }

    // emit https://github.com/{owner}/{repo}.git, lower-cased
    proof {
        lemma_canonical_prefix_lit();
        lemma_git_suffix_lit();
    }
    let lo = lower_vec(&owner);
    let lr = lower_vec(&repo);
    let mut out_v = str_chars("https://github.com/");
    extend_vec(&mut out_v, &lo);
    out_v.push('/');
    extend_vec(&mut out_v, &lr);
    let tail = str_chars(".git");
    extend_vec(&mut out_v, &tail);
    let out = chars_string(&out_v);
    proof {
        assert(out_v@ =~= canonical_of(lower_seq(owner@), lower_seq(repo@)));
        assert(owner_spec == owner@);
        assert(strip_git(rseg) == repo@);
        assert(canon_spec(s) == Some(out@));
    }
    Ok(out)
}

} // verus!
