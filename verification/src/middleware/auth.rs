//! Session cookie parsing: finds the `sid` cookie in a `Cookie:` header and
//! checks its HMAC signature.

use vstd::prelude::*;

use crate::utils::chars::{chars_of, is_whitespace, string_from_chars, trim_end_seq, trim_seq, trim_start_seq};
use crate::utils::profile::{find_char, first_index_of, has_prefix};
use crate::utils::signed_cookie::{verified_session_id, verify_and_extract};

verus! {

/// The value of the first `;`-separated pair that, trimmed, starts with
/// `sid=`: the rest of that pair.
pub open spec fn sid_cookie(s: Seq<char>) -> Option<Seq<char>>
    decreases s.len(),
{
    let i = first_index_of(s, ';');
    let pair = trim_seq(s.subrange(0, i));
    if has_prefix(pair, "sid="@) {
        Some(pair.subrange(4, pair.len() as int))
    } else if i < s.len() {
        proof {
            crate::utils::profile::lemma_first_index_of(s, ';');
        }
        sid_cookie(s.subrange(i + 1, s.len() as int))
    } else {
        None
    }
}

/// Bounds `(a, b)` such that `v[a..b]` is `v[lo..hi]` trimmed.
fn trim_range(v: &Vec<char>, lo: usize, hi: usize) -> (r: (usize, usize))
    requires
        lo <= hi <= v.len(),
    ensures
        lo <= r.0 <= r.1 <= hi,
        v@.subrange(r.0 as int, r.1 as int) == trim_seq(v@.subrange(lo as int, hi as int)),
{
    let ghost s = v@.subrange(lo as int, hi as int);
    let mut a = lo;
    while a < hi && is_whitespace(v[a])
        invariant
            lo <= a <= hi <= v.len(),
            s == v@.subrange(lo as int, hi as int),
            trim_start_seq(v@.subrange(a as int, hi as int)) == trim_start_seq(s),
        decreases hi - a,
    {
        assert(v@.subrange(a as int, hi as int).drop_first() =~= v@.subrange(a + 1, hi as int));
        a += 1;
    }
    assert(trim_start_seq(v@.subrange(a as int, hi as int)) == v@.subrange(a as int, hi as int));
    let mut b = hi;
    while b > a && is_whitespace(v[b - 1])
        invariant
            lo <= a <= b <= hi <= v.len(),
            s == v@.subrange(lo as int, hi as int),
            trim_end_seq(v@.subrange(a as int, b as int)) == trim_seq(s),
        decreases b - a,
    {
        assert(v@.subrange(a as int, b as int).drop_last() =~= v@.subrange(a as int, b - 1));
        b -= 1;
    }
    (a, b)
}

/// Whether `v[a..b]` begins with `sid=`.
fn starts_with_sid(v: &Vec<char>, a: usize, b: usize) -> (r: bool)
    requires
        a <= b <= v.len(),
    ensures
        r == has_prefix(v@.subrange(a as int, b as int), "sid="@),
        r ==> b - a >= 4,
{
    proof {
        reveal_strlit("sid=");
    }
    let r = b - a >= 4 && v[a] == 's' && v[a + 1] == 'i' && v[a + 2] == 'd' && v[a + 3] == '=';
    proof {
        let seg = v@.subrange(a as int, b as int);
        if r {
            assert(seg.subrange(0, 4) =~= "sid="@);
        } else if b - a >= 4 {
            assert(seg.subrange(0, 4)[0] == v@[a as int]);
            assert(seg.subrange(0, 4)[1] == v@[a + 1]);
            assert(seg.subrange(0, 4)[2] == v@[a + 2]);
            assert(seg.subrange(0, 4)[3] == v@[a + 3]);
        }
    }
    r
}

/// Index of the first `c` in `v[from..]`, or `v.len()`.
fn find_char_from(v: &Vec<char>, c: char, from: usize) -> (r: usize)
    requires
        from <= v.len(),
    ensures
        from <= r <= v.len(),
        r - from == first_index_of(v@.subrange(from as int, v.len() as int), c),
{
    let ghost s = v@.subrange(from as int, v.len() as int);
    proof {
        crate::utils::profile::lemma_first_index_of(s, c);
    }
    let mut i = from;
    while i < v.len() && v[i] != c
        invariant
            from <= i <= v.len(),
            s == v@.subrange(from as int, v.len() as int),
            i - from <= first_index_of(s, c),
            0 <= first_index_of(s, c) <= s.len(),
            forall|j: int| 0 <= j < first_index_of(s, c) ==> s[j] != c,
            first_index_of(s, c) < s.len() ==> s[first_index_of(s, c)] == c,
        decreases v.len() - i,
    {
        assert(s[i - from] == v@[i as int]);
        i += 1;
    }
    proof {
        if i < v.len() {
            assert(s[i - from] == v@[i as int]);
        }
    }
    i
}

/// Extract the value of the `sid` cookie from a raw `Cookie:` header value.
pub fn extract_sid_cookie(cookie_header: &str) -> (r: Option<String>)
    ensures
        match r {
            Some(v) => sid_cookie(cookie_header@) == Some(v@),
            None => sid_cookie(cookie_header@) is None,
        },
{
    let v = chars_of(cookie_header);
    let n = v.len();
    let mut start: usize = 0;
    assert(v@.subrange(0, n as int) =~= v@);
    loop
        invariant
            start <= n == v.len(),
            v@ == cookie_header@,
            sid_cookie(v@.subrange(start as int, n as int)) == sid_cookie(cookie_header@),
        decreases n - start,
    {
        let ghost rest = v@.subrange(start as int, n as int);
        let end = find_char_from(&v, ';', start);
        assert(v@.subrange(start as int, end as int) =~= rest.subrange(0, end - start));
        let (a, b) = trim_range(&v, start, end);
        if starts_with_sid(&v, a, b) {
            let value = string_from_chars(&v, a + 4, b);
            assert(value@ =~= v@.subrange(a as int, b as int).subrange(4, b - a));
            return Some(value);
        }
        if end == n {
            return None;
        }
        assert(v@.subrange(end + 1, n as int) =~= rest.subrange(end - start + 1, rest.len() as int));
        start = end + 1;
    }
}

/// The session ID carried by a `Cookie:` header: the `sid` cookie's value,
/// when its signature verifies under `secret`.
pub open spec fn header_session_id(header: Seq<char>, secret: Seq<char>) -> Option<Seq<char>> {
    match sid_cookie(header) {
        None => None,
        Some(signed) => verified_session_id(signed, secret),
    }
}

/// The verified session ID of a `Cookie:` header, if any.
pub fn session_id_from_cookie_header(cookie_header: &str, secret: &str) -> (r: Option<String>)
    ensures
        match r {
            Some(v) => header_session_id(cookie_header@, secret@) == Some(v@),
            None => header_session_id(cookie_header@, secret@) is None,
        },
{
    match extract_sid_cookie(cookie_header) {
        None => None,
        Some(signed) => verify_and_extract(signed.as_str(), secret),
    }
}

} // verus!
