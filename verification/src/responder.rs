//! The asset responder: given a resolved candidate and what the
//! filesystem reported about it, decides the response — fall through
//! to the upstream, fail the request, 404, 304, or a full 200 — and
//! computes every header of it: ETag, Last-Modified, Content-Length,
//! Content-Type, Cache-Control and the cross-origin set.

use vstd::prelude::*;
use vstd::string::*;

use crate::assets::ResolvedFile;
use crate::conditional::{is_not_modified, is_ws, not_modified, opt_view};
use crate::cors::{append_cors_headers, cors_header_views};
use crate::strutil::{
    digit_char, hex_of, is_suffix_of, pair_views, push_dec, push_hex, str_eq, str_ends_with,
    string_push, u64_to_dec,
};

verus! {

/// Timestamps at or beyond the year 10000 have no HTTP-date rendering.
pub const HTTP_DATE_MAX_SECS: u64 = 253402300800;

/// What a stat of a regular file reported: its length and, when
/// available, its modification time in whole seconds since the epoch.
pub struct FileInfo {
    pub len: u64,
    pub mtime_secs: Option<u64>,
}

/// What the filesystem said about the resolved path.
pub enum StatOutcome {
    /// No such file: the request falls through to the upstream.
    Missing,
    /// The path exists but is not a regular file.
    NotAFile,
    /// Stat failed for another reason: the request must fail, not be
    /// silently converted to a miss.
    ReadError,
    /// A regular file.
    Found(FileInfo),
}

/// A response to write: status, headers in order, an optional literal
/// body (`None` on a 200 means the file itself is streamed), whether
/// to omit the body, and the keepalive to set afterwards.
pub struct ResponsePlan {
    pub status: u16,
    pub headers: Vec<(String, String)>,
    pub body: Option<String>,
    pub head_only: bool,
    pub keepalive_seconds: Option<u64>,
}

/// The responder's decision for one request.
pub enum ServeAction {
    /// Not handled here: forward to the upstream.
    Fallthrough,
    /// Surface a file-read failure as a failed request.
    Fail,
    /// Write this response.
    Respond(ResponsePlan),
}

/// The ETag of a file: the hex length and, when the modification time
/// is known, the hex seconds, quoted.
pub open spec fn etag_chars(len: u64, mtime_secs: Option<u64>) -> Seq<char> {
    match mtime_secs {
        Some(s) => seq!['"'] + hex_of(len as nat) + seq!['-'] + hex_of(s as nat) + seq!['"'],
        None => seq!['"'] + hex_of(len as nat) + seq!['"'],
    }
}

pub fn build_etag(len: u64, mtime_secs: Option<u64>) -> (r: String)
    ensures
        r@ == etag_chars(len, mtime_secs),
{
    let mut out = String::new();
    string_push(&mut out, '"');
    push_hex(&mut out, len);
    if let Some(s) = mtime_secs {
        string_push(&mut out, '-');
        push_hex(&mut out, s);
    }
    string_push(&mut out, '"');
    proof {
        assert(out@ =~= etag_chars(len, mtime_secs));
    }
    out
}

/// The HTTP-date rendering of a timestamp, a function of the seconds
/// alone.
pub uninterp spec fn http_date_of(secs: u64) -> Seq<char>;

/// Relies on httpdate::fmt_http_date: formats a timestamp as an
/// IMF-fixdate string, computed from the seconds alone; it panics at
/// or beyond the year 10000, hence the bound.
#[verifier::external_body]
pub(crate) fn format_http_date(secs: u64) -> (r: String)
    requires
        secs < HTTP_DATE_MAX_SECS,
    ensures
        r@ == http_date_of(secs),
{
    httpdate::fmt_http_date(std::time::UNIX_EPOCH + std::time::Duration::from_secs(secs))
}

/// The best-effort content type guessed from a path's extension, a
/// function of the path alone.
pub uninterp spec fn mime_for(path: Seq<char>) -> Option<Seq<char>>;

/// Relies on mime_guess::MimeGuess::from_path and Mime::essence_str: a
/// content type derived from the path's extension alone, `None` when
/// the extension is unknown.
#[verifier::external_body]
pub(crate) fn content_type_for(path: &str) -> (r: Option<String>)
    ensures
        match r {
            Some(s) => mime_for(path@) == Some(s@),
            None => mime_for(path@) is None,
        },
{
    mime_guess::MimeGuess::from_path(path).first().map(|mime| mime.essence_str().to_string())
}

/// The cache-control policy: HTML entry points must always
/// revalidate; manifest-derived (content-hashed) assets are immutable
/// for the long TTL; everything else gets the default TTL.
pub open spec fn cache_control_of(
    logical: Seq<char>,
    from_manifest: bool,
    immutable_ttl: u64,
    default_ttl: u64,
) -> Seq<char> {
    if is_suffix_of(".html"@, logical) {
        "no-cache, must-revalidate"@
    } else if from_manifest {
        "public, max-age="@ + crate::strutil::dec_of(immutable_ttl as nat) + ", immutable"@
    } else {
        "public, max-age="@ + crate::strutil::dec_of(default_ttl as nat)
    }
}

pub fn cache_control_value(
    logical: &str,
    from_manifest: bool,
    immutable_ttl: u64,
    default_ttl: u64,
) -> (r: String)
    ensures
        r@ == cache_control_of(logical@, from_manifest, immutable_ttl, default_ttl),
{
    if str_ends_with(logical, ".html") {
        "no-cache, must-revalidate".to_owned()
    } else if from_manifest {
        let mut out = "public, max-age=".to_owned();
        push_dec(&mut out, immutable_ttl);
        out.append(", immutable");
        out
    } else {
        let mut out = "public, max-age=".to_owned();
        push_dec(&mut out, default_ttl);
        out
    }
}

/// The `Last-Modified` value owed for a modification time.
pub open spec fn lm_of(mtime_secs: Option<u64>) -> Option<Seq<char>> {
    match mtime_secs {
        Some(s) => Some(http_date_of(s)),
        None => None,
    }
}

/// The headers of a 304 response: validators and the cross-origin
/// set, nothing else.
pub open spec fn not_modified_headers(
    etag: Seq<char>,
    lm: Option<Seq<char>>,
    origin: Option<Seq<char>>,
) -> Seq<(Seq<char>, Seq<char>)> {
    seq![("ETag"@, etag)] + (match lm {
        Some(l) => seq![("Last-Modified"@, l)],
        None => Seq::<(Seq<char>, Seq<char>)>::empty(),
    }) + cors_header_views(origin)
}

/// The headers of the 404 for a path that exists but is not a regular
/// file.
pub open spec fn not_found_headers(origin: Option<Seq<char>>) -> Seq<(Seq<char>, Seq<char>)> {
    seq![("Content-Type"@, "text/plain; charset=utf-8"@)] + cors_header_views(origin)
}

/// The headers of a full 200 response, in order.
pub open spec fn success_headers(
    info: FileInfo,
    logical: Seq<char>,
    from_manifest: bool,
    immutable_ttl: u64,
    default_ttl: u64,
    origin: Option<Seq<char>>,
) -> Seq<(Seq<char>, Seq<char>)> {
    seq![("Content-Length"@, crate::strutil::dec_of(info.len as nat))] + (match mime_for(logical) {
        Some(m) => seq![("Content-Type"@, m)],
        None => Seq::<(Seq<char>, Seq<char>)>::empty(),
    }) + seq![("ETag"@, etag_chars(info.len, info.mtime_secs))] + (match lm_of(info.mtime_secs) {
        Some(l) => seq![("Last-Modified"@, l)],
        None => Seq::<(Seq<char>, Seq<char>)>::empty(),
    }) + seq![("Cache-Control"@, cache_control_of(logical, from_manifest, immutable_ttl, default_ttl))]
        + cors_header_views(origin)
}

/// What the responder owes: any method but GET and HEAD is not
/// applicable and falls through.  Otherwise, per stat outcome: a miss
/// falls through, a read error fails the request, a non-file is a 404
/// with a plain body, and a regular file is answered 304 when the
/// request's validators match, else 200 with the full header set;
/// HEAD omits the body and GET sets the configured keepalive.
pub open spec fn respond_plan_ok(
    r: ServeAction,
    method: Seq<char>,
    logical: Seq<char>,
    from_manifest: bool,
    stat: StatOutcome,
    inm: Option<Seq<char>>,
    ims: Option<Seq<char>>,
    origin: Option<Seq<char>>,
    immutable_ttl: u64,
    default_ttl: u64,
    keepalive: u64,
) -> bool {
    if !(method == "GET"@ || method == "HEAD"@) {
        r is Fallthrough
    } else {
        match stat {
        StatOutcome::Missing => r is Fallthrough,
        StatOutcome::ReadError => r is Fail,
        StatOutcome::NotAFile => r matches ServeAction::Respond(p) && p.status == 404
            && pair_views(p.headers@) == not_found_headers(origin) && (p.body matches Some(b)
            && b@ == "404 not found"@) && !p.head_only && p.keepalive_seconds is None,
        StatOutcome::Found(info) => if not_modified(
            inm,
            ims,
            etag_chars(info.len, info.mtime_secs),
            lm_of(info.mtime_secs),
        ) {
            r matches ServeAction::Respond(p) && p.status == 304 && pair_views(p.headers@)
                == not_modified_headers(
                etag_chars(info.len, info.mtime_secs),
                lm_of(info.mtime_secs),
                origin,
            ) && p.body is None && p.head_only && p.keepalive_seconds is None
        } else {
            r matches ServeAction::Respond(p) && p.status == 200 && pair_views(p.headers@)
                == success_headers(info, logical, from_manifest, immutable_ttl, default_ttl, origin)
                && p.body is None && p.head_only == (method == "HEAD"@) && p.keepalive_seconds == (
            if method == "HEAD"@ {
                Option::<u64>::None
            } else {
                Option::<u64>::Some(keepalive)
            })
        },
        }
    }
}

proof fn lemma_hex_of_plain_chars(n: nat)
    ensures
        forall|k: int|
            0 <= k < hex_of(n).len() ==> !is_ws(#[trigger] hex_of(n)[k]) && hex_of(n)[k] != ','
                && hex_of(n)[k] != ' ',
    decreases n,
{
    assert(forall|d: int| !is_ws(#[trigger] digit_char(d)) && digit_char(d) != ',');
    if n >= 16 {
        lemma_hex_of_plain_chars(n / 16);
        assert forall|k: int| 0 <= k < hex_of(n).len() implies !is_ws(#[trigger] hex_of(n)[k])
            && hex_of(n)[k] != ',' by {
            if k < hex_of(n / 16).len() {
                assert(hex_of(n)[k] == hex_of(n / 16)[k]);
            } else {
                assert(hex_of(n)[k] == digit_char((n % 16) as int));
            }
        }
    }
}

/// Law: the ETag of a fixed file is a pure function of its length and
/// modification time — deterministic and stable across calls — and a
/// request that presents exactly that ETag in `If-None-Match` is
/// evaluated as "not modified", whatever else it carries.
pub proof fn lemma_exact_etag_not_modified(
    len: u64,
    mtime_secs: Option<u64>,
    ims: Option<Seq<char>>,
    lm: Option<Seq<char>>,
)
    ensures
        not_modified(Some(etag_chars(len, mtime_secs)), ims, etag_chars(len, mtime_secs), lm),
{
    let e = etag_chars(len, mtime_secs);
    let l = e.len() as int;
    lemma_hex_of_plain_chars(len as nat);
    if let Some(s) = mtime_secs {
        lemma_hex_of_plain_chars(s as nat);
    }
    assert forall|k: int| 0 <= k < l implies e[k] != ',' && !(k == 0 && is_ws(e[k])) && !(k == l
        - 1 && is_ws(e[k])) by {
        let hl = hex_of(len as nat).len() as int;
        match mtime_secs {
            Some(s) => {
                if k == 0 || k == l - 1 {
                } else if 1 <= k < 1 + hl {
                    assert(e[k] == hex_of(len as nat)[k - 1]);
                } else if k == 1 + hl {
                    assert(e[k] == '-');
                } else {
                    assert(e[k] == hex_of(s as nat)[k - hl - 2]);
                }
            },
            None => {
                if k == 0 || k == l - 1 {
                } else {
                    assert(e[k] == hex_of(len as nat)[k - 1]);
                }
            },
        }
    }
    assert(crate::conditional::is_segment(e, 0, l));
    assert(e.subrange(0, l) =~= e);
    assert(e[0] == '"' && !is_ws(e[0]));
    assert(crate::conditional::trim_start_ws(e) == e);
    assert(e.last() == '"' && !is_ws(e.last()));
    assert(crate::conditional::trim_end_ws(e) == e);
    assert(crate::conditional::trimmed(e.subrange(0, l)) == e);
    assert(crate::conditional::none_match_contains(e, e));
}

/// Law: an asset whose logical path ends in `.html` is always served
/// with `Cache-Control: no-cache, must-revalidate`, whether or not a
/// manifest substitution happened.
pub proof fn lemma_html_always_revalidates(
    logical: Seq<char>,
    from_manifest: bool,
    immutable_ttl: u64,
    default_ttl: u64,
)
    requires
        is_suffix_of(".html"@, logical),
    ensures
        cache_control_of(logical, from_manifest, immutable_ttl, default_ttl)
            == "no-cache, must-revalidate"@,
{
}

/// Law: a manifest-substituted asset whose logical path does not end
/// in `.html` is served immutable, with the long TTL.
pub proof fn lemma_manifest_assets_immutable(
    logical: Seq<char>,
    immutable_ttl: u64,
    default_ttl: u64,
)
    requires
        !is_suffix_of(".html"@, logical),
    ensures
        cache_control_of(logical, true, immutable_ttl, default_ttl) == "public, max-age="@
            + crate::strutil::dec_of(immutable_ttl as nat) + ", immutable"@,
{
}

/// Law: HEAD and GET on the same file, with the same validators and
/// origin, are answered with the same status and identical headers;
/// only HEAD omits the body.
pub proof fn lemma_head_get_same_headers(
    r1: ServeAction,
    r2: ServeAction,
    logical: Seq<char>,
    from_manifest: bool,
    info: FileInfo,
    inm: Option<Seq<char>>,
    ims: Option<Seq<char>>,
    origin: Option<Seq<char>>,
    immutable_ttl: u64,
    default_ttl: u64,
    keepalive: u64,
)
    requires
        respond_plan_ok(
            r1,
            "GET"@,
            logical,
            from_manifest,
            StatOutcome::Found(info),
            inm,
            ims,
            origin,
            immutable_ttl,
            default_ttl,
            keepalive,
        ),
        respond_plan_ok(
            r2,
            "HEAD"@,
            logical,
            from_manifest,
            StatOutcome::Found(info),
            inm,
            ims,
            origin,
            immutable_ttl,
            default_ttl,
            keepalive,
        ),
    ensures
        r1 matches ServeAction::Respond(p1) && r2 matches ServeAction::Respond(p2) && p1.status
            == p2.status && pair_views(p1.headers@) == pair_views(p2.headers@) && p2.head_only,
{
    reveal_strlit("GET");
    reveal_strlit("HEAD");
    assert("GET"@.len() == 3 && "HEAD"@.len() == 4);
}

/// Decides the response for a resolved candidate, given what the
/// filesystem reported and the request's conditional and origin
/// headers.
pub fn respond_plan(
    method: &str,
    resolved: &ResolvedFile,
    stat: &StatOutcome,
    if_none_match: Option<&str>,
    if_modified_since: Option<&str>,
    origin: Option<&str>,
    immutable_ttl: u64,
    default_ttl: u64,
    keepalive: u64,
) -> (r: ServeAction)
    requires
        match *stat {
            StatOutcome::Found(info) => info.mtime_secs matches Some(s) ==> s
                < HTTP_DATE_MAX_SECS,
            _ => true,
        },
    ensures
        respond_plan_ok(
            r,
            method@,
            resolved.logical_path@,
            resolved.from_manifest,
            *stat,
            opt_view(if_none_match),
            opt_view(if_modified_since),
            opt_view(origin),
            immutable_ttl,
            default_ttl,
            keepalive,
        ),
{
    if !(str_eq(method, "GET") || str_eq(method, "HEAD")) {
        return ServeAction::Fallthrough;
    }
    match stat {
        StatOutcome::Missing => ServeAction::Fallthrough,
        StatOutcome::ReadError => ServeAction::Fail,
        StatOutcome::NotAFile => {
            let mut headers: Vec<(String, String)> = Vec::new();
            headers.push(("Content-Type".to_owned(), "text/plain; charset=utf-8".to_owned()));
            append_cors_headers(&mut headers, origin);
            proof {
                assert(pair_views(headers@) =~= not_found_headers(opt_view(origin)));
            }
            ServeAction::Respond(
                ResponsePlan {
                    status: 404,
                    headers,
                    body: Some("404 not found".to_owned()),
                    head_only: false,
                    keepalive_seconds: None,
                },
            )
        },
        StatOutcome::Found(info) => {
            let etag = build_etag(info.len, info.mtime_secs);
            let last_modified: Option<String> = match info.mtime_secs {
                Some(s) => Some(format_http_date(s)),
                None => None,
            };
            let lm_ref: Option<&str> = match &last_modified {
                Some(l) => Some(l.as_str()),
                None => None,
            };
            if is_not_modified(if_none_match, if_modified_since, etag.as_str(), lm_ref) {
                let mut headers: Vec<(String, String)> = Vec::new();
                headers.push(("ETag".to_owned(), etag));
                if let Some(l) = last_modified {
                    headers.push(("Last-Modified".to_owned(), l));
                }
                append_cors_headers(&mut headers, origin);
                proof {
                    assert(pair_views(headers@) =~= not_modified_headers(
                        etag_chars(info.len, info.mtime_secs),
                        lm_of(info.mtime_secs),
                        opt_view(origin),
                    ));
                }
                ServeAction::Respond(
                    ResponsePlan {
                        status: 304,
                        headers,
                        body: None,
                        head_only: true,
                        keepalive_seconds: None,
                    },
                )
            } else {
                let mut headers: Vec<(String, String)> = Vec::new();
                headers.push(("Content-Length".to_owned(), u64_to_dec(info.len)));
                if let Some(ct) = content_type_for(resolved.logical_path.as_str()) {
                    headers.push(("Content-Type".to_owned(), ct));
                }
                headers.push(("ETag".to_owned(), etag));
                if let Some(l) = last_modified {
                    headers.push(("Last-Modified".to_owned(), l));
                }
                headers.push((
                    "Cache-Control".to_owned(),
                    cache_control_value(
                        resolved.logical_path.as_str(),
                        resolved.from_manifest,
                        immutable_ttl,
                        default_ttl,
                    ),
                ));
                append_cors_headers(&mut headers, origin);
                proof {
                    assert(pair_views(headers@) =~= success_headers(
                        *info,
                        resolved.logical_path@,
                        resolved.from_manifest,
                        immutable_ttl,
                        default_ttl,
                        opt_view(origin),
                    ));
                }
                let head_only = str_eq(method, "HEAD");
                ServeAction::Respond(
                    ResponsePlan {
                        status: 200,
                        headers,
                        body: None,
                        head_only,
                        keepalive_seconds: if head_only {
                            None
                        } else {
                            Some(keepalive)
                        },
                    },
                )
            }
        },
    }
}

} // verus!
