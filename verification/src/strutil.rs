//! Small verified helpers for moving between `str`, `String` and
//! `Vec<char>`, the representation the validation routines work on.

use vstd::prelude::*;

use crate::chars::{check_space_char, is_space_char, lower_char, lower_seq, to_lower_char};

verus! {

/// Relies on `String::push`: appends exactly the given character.
#[verifier::external_body]
pub(crate) fn push_char(s: &mut String, c: char)
    ensures
        final(s)@ == old(s)@.push(c),
{
    s.push(c);
}

/// The characters of `s`, in order.
pub fn str_chars(s: &str) -> (v: Vec<char>)
    ensures
        v@ == s@,
{
    let n = s.unicode_len();
    let mut v: Vec<char> = Vec::new();
    let mut i: usize = 0;
    while i < n
        invariant
            i <= n,
            n == s@.len(),
            v@ == s@.take(i as int),
        decreases n - i,
    {
        v.push(s.get_char(i));
        proof {
            assert(s@.take(i + 1) =~= s@.take(i as int).push(s@[i as int]));
        }
        i += 1;
    }
    proof {
        assert(s@.take(n as int) =~= s@);
    }
    v
}

/// A `String` holding exactly the characters of `v`.
pub fn chars_string(v: &Vec<char>) -> (s: String)
    ensures
        s@ == v@,
{
    let mut s = String::new();
    let mut i: usize = 0;
    while i < v.len()
        invariant
            i <= v.len(),
            s@ == v@.take(i as int),
        decreases v.len() - i,
    {
        push_char(&mut s, v[i]);
        proof {
            assert(v@.take(i + 1) =~= v@.take(i as int).push(v@[i as int]));
        }
        i += 1;
    }
    proof {
        assert(v@.take(v.len() as int) =~= v@);
    }
    s
}

/// A copy of the range `[from, to)` of `v`.
pub fn subvec(v: &Vec<char>, from: usize, to: usize) -> (r: Vec<char>)
    requires
        from <= to <= v.len(),
    ensures
        r@ == v@.subrange(from as int, to as int),
{
    let mut r: Vec<char> = Vec::new();
    let mut i: usize = from;
    while i < to
        invariant
            from <= i <= to <= v.len(),
            r@ == v@.subrange(from as int, i as int),
        decreases to - i,
    {
        r.push(v[i]);
        proof {
            assert(v@.subrange(from as int, i + 1) =~= v@.subrange(from as int, i as int).push(
                v@[i as int],
            ));
        }
        i += 1;
    }
    r
}

/// Appends all characters of `src` to `dst`.
pub fn extend_vec(dst: &mut Vec<char>, src: &Vec<char>)
    ensures
        final(dst)@ == old(dst)@ + src@,
{
    let mut i: usize = 0;
    while i < src.len()
        invariant
            i <= src.len(),
            dst@ == old(dst)@ + src@.take(i as int),
        decreases src.len() - i,
    {
        dst.push(src[i]);
        proof {
            assert(old(dst)@ + src@.take(i + 1) =~= (old(dst)@ + src@.take(i as int)).push(
                src@[i as int],
            ));
        }
        i += 1;
    }
    proof {
        assert(old(dst)@ + src@.take(src.len() as int) =~= old(dst)@ + src@);
    }
}

/// The ASCII lower-casing of `v`, character by character.
pub fn lower_vec(v: &Vec<char>) -> (r: Vec<char>)
    ensures
        r@ == lower_seq(v@),
{
    let mut r: Vec<char> = Vec::new();
    let mut i: usize = 0;
    while i < v.len()
        invariant
            i <= v.len(),
            r@ == lower_seq(v@).take(i as int),
        decreases v.len() - i,
    {
        r.push(to_lower_char(v[i]));
        proof {
            assert(lower_seq(v@).take(i + 1) =~= lower_seq(v@).take(i as int).push(
                lower_char(v@[i as int]),
            ));
        }
        i += 1;
    }
    proof {
        assert(lower_seq(v@).take(v.len() as int) =~= lower_seq(v@));
    }
    r
}

/// Whether two string slices hold the same characters.
pub fn str_eq(a: &str, b: &str) -> (r: bool)
    ensures
        r == (a@ == b@),
{
    let n = a.unicode_len();
    let m = b.unicode_len();
    if n != m {
        return false;
    }
    let mut i: usize = 0;
    while i < n
        invariant
            i <= n,
            n == a@.len(),
            n == b@.len(),
            forall|j: int| 0 <= j < i ==> a@[j] == b@[j],
        decreases n - i,
    {
        if a.get_char(i) != b.get_char(i) {
            return false;
        }
        i += 1;
    }
    proof {
        assert(a@ =~= b@);
    }
    true
}

/// `s` with its leading white space removed.
pub open spec fn trim_start_spec(s: Seq<char>) -> Seq<char>
    decreases s.len(),
{
    if s.len() > 0 && is_space_char(s[0]) {
        trim_start_spec(s.skip(1))
    } else {
        s
    }
}

/// `s` with its trailing white space removed.
pub open spec fn trim_end_spec(s: Seq<char>) -> Seq<char>
    decreases s.len(),
{
    if s.len() > 0 && is_space_char(s[s.len() - 1]) {
        trim_end_spec(s.take(s.len() - 1))
    } else {
        s
    }
}

/// `s` with white space removed at both ends, as `str::trim` leaves it.
pub open spec fn trim_spec(s: Seq<char>) -> Seq<char> {
    trim_start_spec(trim_end_spec(s))
}

/// [`trim_start_spec`] drops exactly the leading white space.
proof fn lemma_trim_start_at(s: Seq<char>, a: int)
    requires
        0 <= a <= s.len(),
        forall|i: int| 0 <= i < a ==> is_space_char(#[trigger] s[i]),
        a < s.len() ==> !is_space_char(s[a]),
    ensures
        trim_start_spec(s) == s.skip(a),
    decreases a,
{
    if a == 0 {
        assert(s.skip(0) =~= s);
    } else {
        let t = s.skip(1);
        assert forall|i: int| 0 <= i < a - 1 implies is_space_char(#[trigger] t[i]) by {
            assert(t[i] == s[i + 1]);
        }
        assert(a - 1 < t.len() ==> !is_space_char(t[a - 1]));
        lemma_trim_start_at(t, a - 1);
        assert(t.skip(a - 1) =~= s.skip(a));
    }
}

/// [`trim_end_spec`] drops exactly the trailing white space.
proof fn lemma_trim_end_at(s: Seq<char>, b: int)
    requires
        0 <= b <= s.len(),
        forall|i: int| b <= i < s.len() ==> is_space_char(#[trigger] s[i]),
        b > 0 ==> !is_space_char(s[b - 1]),
    ensures
        trim_end_spec(s) == s.take(b),
    decreases s.len(),
{
    if b == s.len() {
        if s.len() > 0 && is_space_char(s[s.len() - 1]) {
            assert(false);
        }
        assert(s.take(b) =~= s);
    } else {
        let t = s.take(s.len() - 1);
        assert forall|i: int| b <= i < t.len() implies is_space_char(#[trigger] t[i]) by {
            assert(t[i] == s[i]);
        }
        lemma_trim_end_at(t, b);
        assert(t.take(b) =~= s.take(b));
    }
}

/// Trimming leaves a string without white space at either end unchanged.
pub proof fn lemma_trim_fixes(s: Seq<char>)
    requires
        s.len() > 0,
        !is_space_char(s[0]),
        !is_space_char(s[s.len() - 1]),
    ensures
        trim_spec(s) == s,
{
    lemma_trim_end_at(s, s.len() as int);
    assert(s.take(s.len() as int) =~= s);
    lemma_trim_start_at(s, 0);
    assert(s.skip(0) =~= s);
}

/// Removes white space at both ends of `q`.
pub fn trim_str(q: &str) -> (r: String)
    ensures
        r@ == trim_spec(q@),
{
    let v = str_chars(q);
    let n = v.len();
    let mut b: usize = n;
    while b > 0 && check_space_char(v[b - 1])
        invariant
            b <= n,
            n == v@.len(),
            forall|i: int| b <= i < n ==> is_space_char(#[trigger] v@[i]),
        decreases b,
    {
        b -= 1;
    }
    proof {
        lemma_trim_end_at(q@, b as int);
    }
    let mut a: usize = 0;
    while a < b && check_space_char(v[a])
        invariant
            a <= b,
            b <= n,
            n == v@.len(),
            forall|i: int| 0 <= i < a ==> is_space_char(#[trigger] v@[i]),
        decreases b - a,
    {
        a += 1;
    }
    proof {
        let t = q@.take(b as int);
        assert forall|i: int| 0 <= i < a implies is_space_char(#[trigger] t[i]) by {
            assert(t[i] == v@[i]);
        }
        assert(a < b ==> !is_space_char(t[a as int]));
        lemma_trim_start_at(t, a as int);
        assert(t.skip(a as int) =~= v@.subrange(a as int, b as int));
    }
    chars_string(&subvec(&v, a, b))
}

} // verus!
