//! Syntactic URL validation.
//!
//! A string is admitted when it begins with an alphanumeric scheme of 3 to
//! 9 characters, then `://`, then at least one character, a literal `.`,
//! and at least one further character, where the characters surrounding
//! the dot are not line breaks. This is a sanity check on the shape of the
//! text, not a full parse.

use vstd::prelude::*;
use vstd::string::StrSliceExecFns;

verus! {

/// An ASCII letter or digit, the only characters a scheme may contain.
pub open spec fn is_alnum(c: char) -> bool {
    ('0' as u32 <= c as u32 && c as u32 <= '9' as u32) || ('A' as u32 <= c as u32 && c as u32
        <= 'Z' as u32) || ('a' as u32 <= c as u32 && c as u32 <= 'z' as u32)
}

/// The first `k` characters form a scheme of admissible length and are
/// followed by the `://` separator.
pub open spec fn scheme_at(s: Seq<char>, k: int) -> bool {
    &&& 3 <= k <= 9
    &&& k + 3 <= s.len()
    &&& forall|i: int| 0 <= i < k ==> is_alnum(#[trigger] s[i])
    &&& s[k] == ':'
    &&& s[k + 1] == '/'
    &&& s[k + 2] == '/'
}

/// At position `d`, past `from`, stands a dot with at least one character
/// before it (from `from` on) and one after it, none of them a line break.
pub open spec fn dotted_tail_at(s: Seq<char>, from: int, d: int) -> bool {
    &&& from < d
    &&& d + 1 < s.len()
    &&& s[d] == '.'
    &&& forall|i: int| from <= i < d ==> #[trigger] s[i] != '\n'
    &&& s[d + 1] != '\n'
}

/// The shape a string must have to be admitted as a URL: a scheme of 3 to
/// 9 alphanumeric characters, `://`, and a dotted remainder.
pub open spec fn valid_url(s: Seq<char>) -> bool {
    exists|k: int, d: int|
        #![trigger scheme_at(s, k), dotted_tail_at(s, k + 3, d)]
        scheme_at(s, k) && dotted_tail_at(s, k + 3, d)
}

/// Decides `is_alnum` on a single character.
fn alnum_char(c: char) -> (r: bool)
    ensures
        r == is_alnum(c),
{
    let u = c as u32;
    ('0' as u32 <= u && u <= '9' as u32) || ('A' as u32 <= u && u <= 'Z' as u32) || ('a' as u32
        <= u && u <= 'z' as u32)
}

/// If the alphanumeric prefix of `s` ends at `j`, then only `j` itself can
/// head the `://` separator of a scheme.
proof fn lemma_scheme_forces(s: Seq<char>, j: int)
    requires
        0 <= j <= s.len(),
        j <= 10,
        forall|i: int| 0 <= i < j ==> is_alnum(#[trigger] s[i]),
        j == s.len() || j == 10 || !is_alnum(s[j]),
    ensures
        forall|k: int| scheme_at(s, k) ==> k == j,
{
    assert forall|k: int| scheme_at(s, k) implies k == j by {
        if k < j {
            assert(is_alnum(s[k]));
            assert(s[k] == ':');
            assert(false);
        } else if k > j {
            assert(j < s.len() && j != 10);
            assert(is_alnum(s[j]));
            assert(false);
        }
    }
}

/// A string whose only possible scheme end `j` heads no scheme has no URL
/// shape.
proof fn lemma_no_url_without_scheme(s: Seq<char>, j: int)
    requires
        forall|k: int| scheme_at(s, k) ==> k == j,
        !scheme_at(s, j),
    ensures
        !valid_url(s),
{
    assert forall|k: int, d: int|
        #![trigger scheme_at(s, k), dotted_tail_at(s, k + 3, d)]
        !(scheme_at(s, k) && dotted_tail_at(s, k + 3, d)) by {
        if scheme_at(s, k) {
            assert(k == j);
        }
    }
}

/// A string whose only possible scheme ends at `j` and whose remainder has
/// no well-placed dot has no URL shape.
proof fn lemma_no_url_without_dot(s: Seq<char>, j: int)
    requires
        forall|k: int| scheme_at(s, k) ==> k == j,
        forall|dd: int| !#[trigger] dotted_tail_at(s, j + 3, dd),
    ensures
        !valid_url(s),
{
    assert forall|k: int, d: int|
        #![trigger scheme_at(s, k), dotted_tail_at(s, k + 3, d)]
        !(scheme_at(s, k) && dotted_tail_at(s, k + 3, d)) by {
        if scheme_at(s, k) {
            assert(k == j);
        }
    }
}

/// Whether `s` looks like a URL: an alphanumeric scheme of 3 to 9
/// characters, the `://` separator, and a dotted, non-empty remainder.
pub fn is_valid_url(s: &str) -> (r: bool)
    ensures
        r == valid_url(s@),
{
    let n = s.unicode_len();
    let mut j: usize = 0;
    loop
        invariant
            n == s@.len(),
            j <= n,
            j <= 10,
            forall|i: int| 0 <= i < j ==> is_alnum(#[trigger] s@[i]),
        ensures
            j <= n,
            j <= 10,
            forall|i: int| 0 <= i < j ==> is_alnum(#[trigger] s@[i]),
            j == n || j == 10 || !is_alnum(s@[j as int]),
        decreases n - j,
    {
        if j >= n || j >= 10 {
            break ;
        }
        let c = s.get_char(j);
        if !alnum_char(c) {
            break ;
        }
        j = j + 1;
    }
    proof {
        lemma_scheme_forces(s@, j as int);
    }
    if j < 3 || j > 9 {
        proof {
            lemma_no_url_without_scheme(s@, j as int);
        }
        return false;
    }
    if j + 3 > n {
        proof {
            lemma_no_url_without_scheme(s@, j as int);
        }
        return false;
    }
    if s.get_char(j) != ':' || s.get_char(j + 1) != '/' || s.get_char(j + 2) != '/' {
        proof {
            lemma_no_url_without_scheme(s@, j as int);
        }
        return false;
    }
    let from = j + 3;
    assert(scheme_at(s@, j as int));
    if from >= n {
        return false;
    }
    let mut clean = s.get_char(from) != '\n';
    let mut d = from + 1;
    loop
        invariant
            n == s@.len(),
            scheme_at(s@, j as int),
            from == j + 3,
            from < d <= n,
            clean <==> (forall|i: int| from <= i < d ==> #[trigger] s@[i] != '\n'),
            forall|dd: int| from < dd < d ==> !dotted_tail_at(s@, from as int, dd),
            forall|k: int| scheme_at(s@, k) ==> k == j,
        ensures
            forall|dd: int| !dotted_tail_at(s@, from as int, dd),
            forall|k: int| scheme_at(s@, k) ==> k == j,
        decreases n - d,
    {
        if d >= n - 1 {
            assert forall|dd: int| !dotted_tail_at(s@, from as int, dd) by {
                if from < dd < d {
                } else {
                    assert(!(dd + 1 < n && from < dd));
                }
            }
            break ;
        }
        let c = s.get_char(d);
        if clean && c == '.' {
            let c2 = s.get_char(d + 1);
            if c2 != '\n' {
                assert(dotted_tail_at(s@, from as int, d as int));
                assert(valid_url(s@));
                return true;
            }
        }
        clean = clean && c != '\n';
        d = d + 1;
    }
    proof {
        lemma_no_url_without_dot(s@, j as int);
    }
    false
}

} // verus!
