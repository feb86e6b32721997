//! Conditional-request evaluation: a request is "not modified" when an
//! `If-None-Match` value — split on commas, each candidate trimmed of
//! surrounding whitespace — contains the exact ETag, or when an
//! `If-Modified-Since` value is exactly string-equal to the computed
//! `Last-Modified` value.  The date comparison is deliberately literal
//! string equality, not a chronological comparison.

use vstd::prelude::*;
use vstd::string::*;

verus! {

pub open spec fn is_ws(c: char) -> bool {
    c == ' ' || c == '\t' || c == '\r' || c == '\n'
}

pub open spec fn trim_start_ws(s: Seq<char>) -> Seq<char>
    decreases s.len(),
{
    if s.len() > 0 && is_ws(s[0]) {
        trim_start_ws(s.drop_first())
    } else {
        s
    }
}

pub open spec fn trim_end_ws(s: Seq<char>) -> Seq<char>
    decreases s.len(),
{
    if s.len() > 0 && is_ws(s.last()) {
        trim_end_ws(s.drop_last())
    } else {
        s
    }
}

/// `s` with surrounding whitespace removed.
pub open spec fn trimmed(s: Seq<char>) -> Seq<char> {
    trim_end_ws(trim_start_ws(s))
}

/// `[i, j)` delimits one comma-separated candidate of `s`: bounded by
/// the string's ends or by commas, with no comma inside.
pub open spec fn is_segment(s: Seq<char>, i: int, j: int) -> bool {
    &&& 0 <= i <= j <= s.len()
    &&& (i == 0 || s[i - 1] == ',')
    &&& (j == s.len() || s[j] == ',')
    &&& forall|k: int| i <= k < j ==> s[k] != ','
}

/// Some comma-separated, whitespace-trimmed candidate of `value` is
/// exactly `etag`.
pub open spec fn none_match_contains(value: Seq<char>, etag: Seq<char>) -> bool {
    exists|i: int, j: int| is_segment(value, i, j) && trimmed(value.subrange(i, j)) == etag
}

fn char_is_ws(c: char) -> (r: bool)
    ensures
        r == is_ws(c),
{
    c == ' ' || c == '\t' || c == '\r' || c == '\n'
}

/// Whether the candidate `[i, j)` of `s`, trimmed, equals `t`.
fn segment_matches(s: &str, i: usize, j: usize, t: &str) -> (r: bool)
    requires
        i <= j <= s@.len(),
    ensures
        r == (trimmed(s@.subrange(i as int, j as int)) == t@),
{
    let mut a = i;
    while a < j && char_is_ws(s.get_char(a))
        invariant
            i <= a <= j <= s@.len(),
            trim_start_ws(s@.subrange(i as int, j as int)) == trim_start_ws(
                s@.subrange(a as int, j as int),
            ),
        decreases j - a,
    {
        proof {
            assert(s@.subrange(a as int, j as int).drop_first() =~= s@.subrange(
                a + 1,
                j as int,
            ));
        }
        a = a + 1;
    }
    proof {
        assert(trim_start_ws(s@.subrange(a as int, j as int)) == s@.subrange(a as int, j as int));
    }
    let mut b = j;
    while b > a && char_is_ws(s.get_char(b - 1))
        invariant
            a <= b <= j <= s@.len(),
            trim_end_ws(s@.subrange(a as int, j as int)) == trim_end_ws(
                s@.subrange(a as int, b as int),
            ),
        decreases b,
    {
        proof {
            assert(s@.subrange(a as int, b as int).drop_last() =~= s@.subrange(
                a as int,
                b - 1,
            ));
        }
        b = b - 1;
    }
    proof {
        assert(trim_end_ws(s@.subrange(a as int, b as int)) == s@.subrange(a as int, b as int));
        assert(trimmed(s@.subrange(i as int, j as int)) == s@.subrange(a as int, b as int));
    }
    let tlen = t.unicode_len();
    if b - a != tlen {
        return false;
    }
    for k in 0..tlen
        invariant
            i <= a <= b <= j <= s@.len(),
            tlen == t@.len(),
            b - a == tlen,
            trimmed(s@.subrange(i as int, j as int)) == s@.subrange(a as int, b as int),
            forall|q: int| 0 <= q < k ==> s@[a + q] == t@[q],
    {
        if s.get_char(a + k) != t.get_char(k) {
            proof {
                assert(s@.subrange(a as int, b as int)[k as int] != t@[k as int]);
            }
            return false;
        }
    }
    proof {
        assert(s@.subrange(a as int, b as int) =~= t@);
    }
    true
}

/// Whether the comma-separated, whitespace-trimmed candidates of
/// `value` contain an exact match of `etag`.
pub fn if_none_match_contains(value: &str, etag: &str) -> (r: bool)
    ensures
        r == none_match_contains(value@, etag@),
{
    let len = value.unicode_len();
    let mut i: usize = 0;
    loop
        invariant
            len == value@.len(),
            0 <= i <= len,
            i == 0 || value@[i - 1] == ',',
            forall|i2: int, j2: int|
                is_segment(value@, i2, j2) && i2 < i ==> trimmed(value@.subrange(i2, j2)) != etag@,
        decreases len - i,
    {
        let mut j = i;
        while j < len && value.get_char(j) != ','
            invariant
                i <= j <= len,
                len == value@.len(),
                forall|k: int| i <= k < j ==> value@[k] != ',',
            decreases len - j,
        {
            j = j + 1;
        }
        if segment_matches(value, i, j, etag) {
            proof {
                assert(is_segment(value@, i as int, j as int));
            }
            return true;
        }
        if j == len {
            proof {
                assert forall|i2: int, j2: int|
                    is_segment(value@, i2, j2) implies trimmed(value@.subrange(i2, j2))
                    != etag@ by {
                    if i2 >= i {
                        if i2 > i {
                            assert(value@[i2 - 1] == ',');
                        }
                        assert(i2 == i);
                        if j2 < len {
                            assert(value@[j2] == ',');
                        }
                        assert(j2 == len as int);
                    }
                }
            }
            return false;
        }
        proof {
            assert(value@[j as int] == ',');
            assert forall|i2: int, j2: int|
                is_segment(value@, i2, j2) && i2 < j + 1 implies trimmed(value@.subrange(i2, j2))
                != etag@ by {
                if i2 >= i {
                    if i2 > i {
                        assert(value@[i2 - 1] == ',');
                    }
                    assert(i2 == i);
                    if j2 < j {
                        assert(value@[j2] == ',');
                    }
                    if j2 > j {
                        assert(value@[j as int] != ',');
                    }
                    assert(j2 == j as int);
                }
            }
        }
        i = j + 1;
    }
}

pub open spec fn opt_view(o: Option<&str>) -> Option<Seq<char>> {
    match o {
        Some(s) => Some(s@),
        None => None,
    }
}

/// The conditional-request rule: the ETag is listed in
/// `If-None-Match`, or `If-Modified-Since` equals the computed
/// `Last-Modified` value literally.
pub open spec fn not_modified(
    inm: Option<Seq<char>>,
    ims: Option<Seq<char>>,
    etag: Seq<char>,
    lm: Option<Seq<char>>,
) -> bool {
    ||| (inm matches Some(v) && none_match_contains(v, etag))
    ||| (ims matches Some(v) && lm matches Some(l) && v == l)
}

pub fn is_not_modified(
    if_none_match: Option<&str>,
    if_modified_since: Option<&str>,
    etag: &str,
    last_modified: Option<&str>,
) -> (r: bool)
    ensures
        r == not_modified(
            opt_view(if_none_match),
            opt_view(if_modified_since),
            etag@,
            opt_view(last_modified),
        ),
{
    if let Some(v) = if_none_match {
        if if_none_match_contains(v, etag) {
            return true;
        }
    }
    if let Some(v) = if_modified_since {
        if let Some(l) = last_modified {
            if crate::strutil::str_eq(v, l) {
                return true;
            }
        }
    }
    false
}

} // verus!
