//! Cross-origin headers, applied to every outgoing response: when the
//! request carries an `Origin` header its exact value is reflected
//! (never a wildcard), `Vary: Origin` is appended additively,
//! credentials are allowed, and a fixed method list is advertised.
//! Without an `Origin` header nothing is added.

use vstd::prelude::*;
use vstd::string::*;

use crate::conditional::opt_view;
use crate::strutil::pair_views;

verus! {

/// The cross-origin headers owed to a request with the given `Origin`
/// value, in order.
pub open spec fn cors_header_views(origin: Option<Seq<char>>) -> Seq<(Seq<char>, Seq<char>)> {
    match origin {
        Some(o) => seq![
            ("Access-Control-Allow-Origin"@, o),
            ("Vary"@, "Origin"@),
            ("Access-Control-Allow-Credentials"@, "true"@),
            ("Access-Control-Allow-Methods"@, "GET, POST, PUT, DELETE, OPTIONS, PATCH"@),
        ],
        None => Seq::<(Seq<char>, Seq<char>)>::empty(),
    }
}

/// Appends the cross-origin headers to a header list, leaving what is
/// already there untouched (`Vary` is added, not replaced).
pub fn append_cors_headers(headers: &mut Vec<(String, String)>, origin: Option<&str>)
    ensures
        pair_views(final(headers)@) == pair_views(old(headers)@) + cors_header_views(
            opt_view(origin),
        ),
{
    match origin {
        Some(o) => {
            headers.push(("Access-Control-Allow-Origin".to_owned(), o.to_owned()));
            headers.push(("Vary".to_owned(), "Origin".to_owned()));
            headers.push(("Access-Control-Allow-Credentials".to_owned(), "true".to_owned()));
            headers.push((
                "Access-Control-Allow-Methods".to_owned(),
                "GET, POST, PUT, DELETE, OPTIONS, PATCH".to_owned(),
            ));
            proof {
                assert(pair_views(headers@) =~= pair_views(old(headers)@) + cors_header_views(
                    opt_view(origin),
                ));
            }
        },
        None => {
            proof {
                assert(pair_views(headers@) =~= pair_views(old(headers)@) + cors_header_views(
                    opt_view(origin),
                ));
            }
        },
    }
}

} // verus!
