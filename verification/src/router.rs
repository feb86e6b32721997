//! Routing decisions: which methods the static path handles, the
//! OPTIONS preflight response, and the Host value for the upstream
//! leg.

use vstd::prelude::*;
use vstd::string::*;

use crate::conditional::opt_view;
use crate::cors::{append_cors_headers, cors_header_views};
use crate::responder::ResponsePlan;
use crate::strutil::{pair_views, str_eq};

verus! {

/// The static path handles only GET and HEAD; anything else falls
/// through to the router.
pub fn handles_method(method: &str) -> (r: bool)
    ensures
        r == (method@ == "GET"@ || method@ == "HEAD"@),
{
    str_eq(method, "GET") || str_eq(method, "HEAD")
}

pub fn is_options(method: &str) -> (r: bool)
    ensures
        r == (method@ == "OPTIONS"@),
{
    str_eq(method, "OPTIONS")
}

/// What an OPTIONS request is owed: with an `Origin` header, 204 with
/// the cross-origin set plus a day-long `Access-Control-Max-Age` and
/// no body; without one, a bare empty 200 with no cross-origin
/// headers.
pub open spec fn preflight_ok(r: ResponsePlan, origin: Option<Seq<char>>) -> bool {
    match origin {
        Some(o) => r.status == 204 && pair_views(r.headers@) == cors_header_views(Some(o))
            + seq![("Access-Control-Max-Age"@, "86400"@)] && r.body is None && r.head_only
            && r.keepalive_seconds is None,
        None => r.status == 200 && pair_views(r.headers@) == Seq::<(Seq<char>, Seq<char>)>::empty()
            && r.body is None && r.head_only && r.keepalive_seconds is None,
    }
}

pub fn preflight_plan(origin: Option<&str>) -> (r: ResponsePlan)
    ensures
        preflight_ok(r, opt_view(origin)),
{
    match origin {
        Some(o) => {
            let mut headers: Vec<(String, String)> = Vec::new();
            append_cors_headers(&mut headers, Some(o));
            headers.push(("Access-Control-Max-Age".to_owned(), "86400".to_owned()));
            proof {
                assert(pair_views(headers@) =~= cors_header_views(Some(o@)) + seq![
                    ("Access-Control-Max-Age"@, "86400"@),
                ]);
            }
            ResponsePlan {
                status: 204,
                headers,
                body: None,
                head_only: true,
                keepalive_seconds: None,
            }
        },
        None => {
            let headers: Vec<(String, String)> = Vec::new();
            proof {
                assert(pair_views(headers@) =~= Seq::<(Seq<char>, Seq<char>)>::empty());
            }
            ResponsePlan {
                status: 200,
                headers,
                body: None,
                head_only: true,
                keepalive_seconds: None,
            }
        },
    }
}

/// The Host value for the upstream leg: the upstream address up to
/// but not including the first `:`, so a port is stripped.
pub fn upstream_host(addr: &str) -> (r: String)
    ensures
        r@ == addr@.take(r@.len() as int),
        forall|j: int| 0 <= j < r@.len() ==> addr@[j] != ':',
        r@.len() == addr@.len() || addr@[r@.len() as int] == ':',
{
    let len = addr.unicode_len();
    let mut i: usize = 0;
    while i < len && addr.get_char(i) != ':'
        invariant
            len == addr@.len(),
            0 <= i <= len,
            forall|j: int| 0 <= j < i ==> addr@[j] != ':',
        decreases len - i,
    {
        i = i + 1;
    }
    let h = addr.substring_char(0, i);
    proof {
        assert(h@ =~= addr@.take(i as int));
    }
    h.to_owned()
}

} // verus!
