//! The entry model: building a storable record from raw inputs.
//!
//! A raw URL is validated, its host label is derived as the third
//! `/`-delimited segment, and the URL and display name are escaped before
//! the record is assembled.

use vstd::prelude::*;
use vstd::string::StrSliceExecFns;
use crate::codec::encode;
use crate::codec::encoded;
use crate::url::is_valid_url;
use crate::url::scheme_at;
use crate::url::valid_url;

verus! {

/// Why a command is rejected before it reaches the store.
#[derive(Clone, Copy, Debug, PartialEq, Eq, Structural)]
pub enum ValidationError {
    /// The raw URL does not look like a URL.
    MalformedUrl,
    /// The raw URL has too few `/`-delimited segments to carry a host.
    UnparsableHost,
    /// The named menu does not exist.
    UnknownMenu,
    /// The menu would be its own parent.
    CyclicParent,
}

/// A storable bookmark record: the escaped URL (the key), the escaped
/// display name, the derived host label, and the owning menu's name.
#[derive(Debug)]
pub struct Entry {
    pub entry_url: String,
    pub entry_name: String,
    pub entry_shorturl: String,
    pub menu_name: String,
}

/// The segments of `s` between occurrences of `sep`: splitting an empty
/// sequence, or one without the separator, gives that sequence alone.
pub open spec fn split_char(s: Seq<char>, sep: char) -> Seq<Seq<char>>
    decreases s.len(),
{
    if s.len() == 0 {
        seq![s]
    } else if s[0] == sep {
        seq![Seq::<char>::empty()] + split_char(s.drop_first(), sep)
    } else {
        let r = split_char(s.drop_first(), sep);
        seq![seq![s[0]] + r[0]] + r.drop_first()
    }
}

/// Splitting yields at least one segment.
proof fn lemma_split_nonempty(s: Seq<char>, sep: char)
    ensures
        split_char(s, sep).len() >= 1,
    decreases s.len(),
{
    if s.len() != 0 {
        lemma_split_nonempty(s.drop_first(), sep);
    }
}

/// A sequence without the separator splits into itself alone.
proof fn lemma_split_no_sep(s: Seq<char>, sep: char)
    requires
        forall|q: int| 0 <= q < s.len() ==> s[q] != sep,
    ensures
        split_char(s, sep) == seq![s],
    decreases s.len(),
{
    if s.len() == 0 {
        assert(split_char(s, sep) =~= seq![s]);
    } else {
        lemma_split_no_sep(s.drop_first(), sep);
        let r = split_char(s.drop_first(), sep);
        assert(seq![s[0]] + s.drop_first() =~= s);
        assert(r.drop_first() =~= Seq::<Seq<char>>::empty());
        assert(split_char(s, sep) =~= seq![s]);
    }
}

/// Splitting at the first separator takes what stands before it and splits
/// the rest.
proof fn lemma_split_first_sep(s: Seq<char>, sep: char, m: int)
    requires
        0 <= m < s.len(),
        s[m] == sep,
        forall|q: int| 0 <= q < m ==> s[q] != sep,
    ensures
        split_char(s, sep) == seq![s.take(m)] + split_char(s.skip(m + 1), sep),
    decreases m,
{
    if m == 0 {
        assert(s.take(0) =~= Seq::<char>::empty());
        assert(s.skip(1) =~= s.drop_first());
        assert(split_char(s, sep) =~= seq![s.take(0)] + split_char(s.skip(1), sep));
    } else {
        let d = s.drop_first();
        lemma_split_first_sep(d, sep, m - 1);
        lemma_split_nonempty(d.skip(m as int), sep);
        let r = split_char(d, sep);
        assert(r[0] == d.take(m - 1));
        assert(seq![s[0]] + d.take(m - 1) =~= s.take(m));
        assert(r.drop_first() =~= split_char(d.skip(m as int), sep));
        assert(d.skip(m as int) =~= s.skip(m + 1));
        assert(split_char(s, sep) =~= seq![s.take(m)] + split_char(s.skip(m + 1), sep));
    }
}

/// A sequence holding the separator splits into at least two segments.
proof fn lemma_split_one_sep(s: Seq<char>, sep: char, i: int)
    requires
        0 <= i < s.len(),
        s[i] == sep,
    ensures
        split_char(s, sep).len() >= 2,
    decreases s.len(),
{
    if s[0] == sep {
        lemma_split_nonempty(s.drop_first(), sep);
    } else {
        lemma_split_one_sep(s.drop_first(), sep, i - 1);
    }
}

/// A sequence holding the separator twice splits into at least three
/// segments.
proof fn lemma_split_two_seps(s: Seq<char>, sep: char, i1: int, i2: int)
    requires
        0 <= i1 < i2 < s.len(),
        s[i1] == sep,
        s[i2] == sep,
    ensures
        split_char(s, sep).len() >= 3,
    decreases s.len(),
{
    if s[0] == sep {
        if i1 == 0 {
            lemma_split_one_sep(s.drop_first(), sep, i2 - 1);
        } else {
            lemma_split_two_seps(s.drop_first(), sep, i1 - 1, i2 - 1);
        }
    } else {
        lemma_split_two_seps(s.drop_first(), sep, i1 - 1, i2 - 1);
    }
}

/// A string of URL shape splits on `/` into at least three segments: the
/// separator `://` supplies two slashes.
pub proof fn lemma_valid_url_segments(s: Seq<char>)
    requires
        valid_url(s),
    ensures
        split_char(s, '/').len() >= 3,
{
    let (k, d) = choose|k: int, d: int|
        #![trigger scheme_at(s, k), crate::url::dotted_tail_at(s, k + 3, d)]
        scheme_at(s, k) && crate::url::dotted_tail_at(s, k + 3, d);
    lemma_split_two_seps(s, '/', k + 1, k + 2);
}

/// Splits a string at every `/`, keeping empty segments, as the splitting
/// specification says.
pub fn split_slash(s: &str) -> (r: Vec<String>)
    ensures
        r.deep_view() == split_char(s@, '/'),
{
    let n = s.unicode_len();
    let mut r: Vec<String> = Vec::new();
    let mut start: usize = 0;
    let mut i: usize = 0;
    proof {
        assert(s@.skip(0) =~= s@);
        assert(r.deep_view() + split_char(s@, '/') =~= split_char(s@, '/'));
    }
    while i < n
        invariant
            n == s@.len(),
            start <= i <= n,
            forall|q: int| start <= q < i ==> s@[q] != '/',
            split_char(s@, '/') == r.deep_view() + split_char(s@.skip(start as int), '/'),
        decreases n - i,
    {
        let c = s.get_char(i);
        if c == '/' {
            let ghost dv = r.deep_view();
            let seg = s.substring_char(start, i);
            r.push(seg.to_owned());
            proof {
                let t = s@.skip(start as int);
                assert(t[(i - start) as int] == s@[i as int]);
                assert forall|q: int| 0 <= q < i - start implies t[q] != '/' by {
                    assert(t[q] == s@[q + start]);
                }
                lemma_split_first_sep(t, '/', (i - start) as int);
                assert(t.take((i - start) as int) =~= seg@);
                assert(t.skip((i - start) as int + 1) =~= s@.skip(i + 1));
                assert(r.deep_view() =~= dv + seq![seg@]);
                assert((dv + seq![seg@]) + split_char(s@.skip(i + 1), '/') =~= dv + (seq![seg@]
                    + split_char(s@.skip(i + 1), '/')));
            }
            start = i + 1;
        }
        i = i + 1;
    }
    let ghost dv = r.deep_view();
    let seg = s.substring_char(start, n);
    r.push(seg.to_owned());
    proof {
        let t = s@.skip(start as int);
        assert forall|q: int| 0 <= q < t.len() implies t[q] != '/' by {
            assert(t[q] == s@[q + start]);
        }
        lemma_split_no_sep(t, '/');
        assert(t =~= seg@);
        assert(r.deep_view() =~= dv + seq![seg@]);
    }
    r
}

/// Builds a storable record from a raw URL, a raw display name and a menu
/// name: the URL must look like a URL and carry a host segment; URL and
/// name are escaped, the host label is the third `/`-delimited segment of
/// the raw URL, and the menu name is taken as given.
pub fn build_entry(raw_url: &str, raw_name: &str, menu_name: &str) -> (r: Result<
    Entry,
    ValidationError,
>)
    ensures
        r == Err::<Entry, ValidationError>(ValidationError::MalformedUrl) <==> !valid_url(
            raw_url@,
        ),
        r == Err::<Entry, ValidationError>(ValidationError::UnparsableHost) <==> (valid_url(
            raw_url@,
        ) && split_char(raw_url@, '/').len() < 3),
        r is Ok <==> (valid_url(raw_url@) && split_char(raw_url@, '/').len() >= 3),
        r matches Ok(e) ==> {
            &&& e.entry_url@ == encoded(raw_url@)
            &&& e.entry_name@ == encoded(raw_name@)
            &&& e.entry_shorturl@ == split_char(raw_url@, '/')[2]
            &&& e.menu_name@ == menu_name@
        },
{
    if !is_valid_url(raw_url) {
        return Err(ValidationError::MalformedUrl);
    }
    let mut parts = split_slash(raw_url);
    proof {
        lemma_valid_url_segments(raw_url@);
    }
    if parts.len() < 3 {
        return Err(ValidationError::UnparsableHost);
    }
    let host = parts.remove(2);
    assert(host@ == split_char(raw_url@, '/')[2]);
    Ok(
        Entry {
            entry_url: encode(raw_url),
            entry_name: encode(raw_name),
            entry_shorturl: host,
            menu_name: menu_name.to_owned(),
        },
    )
}

} // verus!
