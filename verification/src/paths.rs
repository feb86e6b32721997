//! Path safety: detection of parent-directory and root-anchoring
//! components, mount-prefix normalization, and joining a sanitized
//! relative path under the configured root directory.

use vstd::prelude::*;
use vstd::string::*;

use crate::strutil::str_eq;

verus! {

/// A `..` path segment stands at position `i`: bounded by the string's
/// ends or by `/` separators on both sides.
pub open spec fn dotdot_segment_at(p: Seq<char>, i: int) -> bool {
    &&& 0 <= i
    &&& i + 2 <= p.len()
    &&& p[i] == '.'
    &&& p[i + 1] == '.'
    &&& (i == 0 || p[i - 1] == '/')
    &&& (i + 2 == p.len() || p[i + 2] == '/')
}

/// The path is root-anchored (leading `/`) or contains a
/// parent-directory (`..`) segment.
pub open spec fn has_illegal_component(p: Seq<char>) -> bool {
    ||| p.len() > 0 && p[0] == '/'
    ||| exists|i: int| dotdot_segment_at(p, i)
}

/// Rejects paths that could escape the configured root: a leading `/`
/// or any `..` segment.
pub fn contains_illegal_component(path: &str) -> (r: bool)
    ensures
        r == has_illegal_component(path@),
{
    let len = path.unicode_len();
    if len > 0 && path.get_char(0) == '/' {
        return true;
    }
    let mut i: usize = 0;
    while i < len
        invariant
            len == path@.len(),
            0 <= i <= len,
            forall|k: int| 0 <= k < i ==> !dotdot_segment_at(path@, k),
        decreases len - i,
    {
        if len - i >= 2
            && path.get_char(i) == '.'
            && path.get_char(i + 1) == '.'
            && (i == 0 || path.get_char(i - 1) == '/')
            && (i + 2 == len || path.get_char(i + 2) == '/')
        {
            proof {
                assert(dotdot_segment_at(path@, i as int));
            }
            return true;
        }
        i = i + 1;
    }
    false
}

/// `s` with every trailing `/` removed.
pub open spec fn trim_trailing_slashes(s: Seq<char>) -> Seq<char>
    decreases s.len(),
{
    if s.len() > 0 && s.last() == '/' {
        trim_trailing_slashes(s.take(s.len() - 1))
    } else {
        s
    }
}

/// What a configured mount prefix normalizes to: `/` for the empty
/// prefix, the root prefix `/` kept as it is, and otherwise a leading
/// `/` supplied where missing and every trailing `/` dropped — falling
/// back to `/` where that would leave nothing (an all-slash prefix).
pub open spec fn normalised_prefix(p: Seq<char>) -> Seq<char> {
    if p.len() == 0 {
        "/"@
    } else if p == "/"@ {
        p
    } else {
        let t = if p[0] == '/' {
            trim_trailing_slashes(p)
        } else {
            trim_trailing_slashes("/"@ + p)
        };
        if t.len() == 0 {
            "/"@
        } else {
            t
        }
    }
}

/// Trimming trailing slashes keeps a prefix of the input, and what is
/// left never ends in `/`.
proof fn lemma_trim_trailing_slashes_props(s: Seq<char>)
    ensures
        trim_trailing_slashes(s).len() <= s.len(),
        trim_trailing_slashes(s) == s.take(trim_trailing_slashes(s).len() as int),
        trim_trailing_slashes(s).len() > 0 ==> trim_trailing_slashes(s).last() != '/',
    decreases s.len(),
{
    if s.len() > 0 && s.last() == '/' {
        lemma_trim_trailing_slashes_props(s.take(s.len() - 1));
        let t = trim_trailing_slashes(s);
        assert(s.take(s.len() - 1).take(t.len() as int) =~= s.take(t.len() as int));
    } else {
        assert(s.take(s.len() as int) =~= s);
    }
}

/// Law: a normalized mount prefix is a well-formed absolute prefix —
/// never empty, starting with `/`, and without a trailing `/` unless
/// it is exactly the root prefix `/`.
pub proof fn lemma_normalised_prefix_wf(p: Seq<char>)
    ensures
        normalised_prefix(p).len() > 0,
        normalised_prefix(p)[0] == '/',
        normalised_prefix(p) != "/"@ ==> normalised_prefix(p).last() != '/',
{
    reveal_strlit("/");
    if p.len() == 0 || p == "/"@ {
    } else {
        let c = if p[0] == '/' {
            p
        } else {
            "/"@ + p
        };
        lemma_trim_trailing_slashes_props(c);
        let t = trim_trailing_slashes(c);
        if t.len() > 0 {
            assert(t[0] == c.take(t.len() as int)[0]);
        }
    }
}

pub fn normalise_prefix(prefix: &str) -> (r: String)
    ensures
        r@ == normalised_prefix(prefix@),
{
    if prefix.unicode_len() == 0 {
        return "/".to_owned();
    }
    if str_eq(prefix, "/") {
        return prefix.to_owned();
    }
    let cleaned: String = if prefix.get_char(0) == '/' {
        prefix.to_owned()
    } else {
        "/".to_owned().concat(prefix)
    };
    let mut end = cleaned.as_str().unicode_len();
    proof {
        assert(cleaned@.take(end as int) =~= cleaned@);
    }
    while end > 0 && cleaned.as_str().get_char(end - 1) == '/'
        invariant
            end <= cleaned@.len(),
            trim_trailing_slashes(cleaned@) == trim_trailing_slashes(cleaned@.take(end as int)),
        decreases end,
    {
        proof {
            assert(cleaned@.take(end as int).take(end - 1) =~= cleaned@.take(end - 1));
        }
        end = end - 1;
    }
    proof {
        if end > 0 {
            assert(cleaned@.take(end as int).last() == cleaned@[end - 1]);
        }
        assert(trim_trailing_slashes(cleaned@.take(end as int)) == cleaned@.take(end as int));
    }
    if end == 0 {
        return "/".to_owned();
    }
    let trimmed = cleaned.as_str().substring_char(0, end);
    proof {
        assert(trimmed@ =~= cleaned@.take(end as int));
    }
    trimmed.to_owned()
}

/// The filesystem path formed by joining the configured root with a
/// relative path: a `/` separator is supplied unless the root already
/// ends in one or is empty.
pub open spec fn joined_path(root: Seq<char>, rel: Seq<char>) -> Seq<char> {
    if root.len() == 0 {
        rel
    } else if root.last() == '/' {
        root + rel
    } else {
        root + "/"@ + rel
    }
}

pub fn join_under_root(root: &str, rel: &str) -> (r: String)
    ensures
        r@ == joined_path(root@, rel@),
{
    let rlen = root.unicode_len();
    if rlen == 0 {
        rel.to_owned()
    } else if root.get_char(rlen - 1) == '/' {
        root.to_owned().concat(rel)
    } else {
        root.to_owned().concat("/").concat(rel)
    }
}

} // verus!
