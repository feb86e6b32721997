use rose_proxy::assets::{ResolvedFile, StaticAssetConfig, StaticAssets};
use rose_proxy::conditional::is_not_modified;
use rose_proxy::responder::{
    build_etag, respond_plan, FileInfo, ResponsePlan, ServeAction, StatOutcome,
};
use rose_proxy::router::preflight_plan;

const IMMUTABLE_TTL: u64 = 31536000;
const DEFAULT_TTL: u64 = 60;
const KEEPALIVE: u64 = 60;

fn resolved(logical: &str, from_manifest: bool) -> ResolvedFile {
    ResolvedFile {
        full_path: format!("/var/www/{logical}"),
        logical_path: logical.to_string(),
        from_manifest,
    }
}

fn plan(
    method: &str,
    logical: &str,
    from_manifest: bool,
    stat: StatOutcome,
    inm: Option<&str>,
    ims: Option<&str>,
    origin: Option<&str>,
) -> ServeAction {
    respond_plan(
        method,
        &resolved(logical, from_manifest),
        &stat,
        inm,
        ims,
        origin,
        IMMUTABLE_TTL,
        DEFAULT_TTL,
        KEEPALIVE,
    )
}

fn expect_response(action: ServeAction) -> ResponsePlan {
    match action {
        ServeAction::Respond(p) => p,
        _ => panic!("expected a response plan"),
    }
}

fn header<'a>(p: &'a ResponsePlan, name: &str) -> Option<&'a str> {
    p.headers.iter().find(|(n, _)| n == name).map(|(_, v)| v.as_str())
}

fn file(len: u64, mtime_secs: Option<u64>) -> StatOutcome {
    StatOutcome::Found(FileInfo { len, mtime_secs })
}

#[test]
fn etag_is_hex_length_and_mtime() {
    assert_eq!(build_etag(255, Some(4096)), "\"ff-1000\"");
    assert_eq!(build_etag(0, None), "\"0\"");
    assert_eq!(build_etag(10, Some(0)), "\"a-0\"");
}

#[test]
fn etag_is_deterministic() {
    assert_eq!(build_etag(1234, Some(99999)), build_etag(1234, Some(99999)));
}

#[test]
fn last_modified_is_an_http_date() {
    let p = expect_response(plan("GET", "a.js", false, file(1, Some(784111777)), None, None, None));
    assert_eq!(header(&p, "Last-Modified"), Some("Sun, 06 Nov 1994 08:49:37 GMT"));
}

#[test]
fn content_type_is_guessed_from_extension() {
    let p = expect_response(plan("GET", "a/b.js", false, file(1, None), None, None, None));
    assert_eq!(header(&p, "Content-Type"), Some("text/javascript"));
    let p = expect_response(plan("GET", "page.html", false, file(1, None), None, None, None));
    assert_eq!(header(&p, "Content-Type"), Some("text/html"));
    let p = expect_response(plan("GET", "noext", false, file(1, None), None, None, None));
    assert_eq!(header(&p, "Content-Type"), None);
}

#[test]
fn missing_file_falls_through() {
    assert!(matches!(
        plan("GET", "a.js", false, StatOutcome::Missing, None, None, None),
        ServeAction::Fallthrough
    ));
}

#[test]
fn read_error_fails_the_request() {
    assert!(matches!(
        plan("GET", "a.js", false, StatOutcome::ReadError, None, None, None),
        ServeAction::Fail
    ));
}

#[test]
fn non_file_is_404_with_plain_body() {
    let p = expect_response(plan(
        "GET",
        "dir",
        false,
        StatOutcome::NotAFile,
        None,
        None,
        Some("https://example.com"),
    ));
    assert_eq!(p.status, 404);
    assert_eq!(p.body.as_deref(), Some("404 not found"));
    assert_eq!(header(&p, "Content-Type"), Some("text/plain; charset=utf-8"));
    assert_eq!(
        header(&p, "Access-Control-Allow-Origin"),
        Some("https://example.com")
    );
}

#[test]
fn full_response_headers() {
    let p = expect_response(plan(
        "GET",
        "css/site.css",
        false,
        file(123, Some(0)),
        None,
        None,
        Some("https://example.com"),
    ));
    assert_eq!(p.status, 200);
    assert!(p.body.is_none());
    assert!(!p.head_only);
    assert_eq!(p.keepalive_seconds, Some(KEEPALIVE));
    let names: Vec<&str> = p.headers.iter().map(|(n, _)| n.as_str()).collect();
    assert_eq!(
        names,
        vec![
            "Content-Length",
            "Content-Type",
            "ETag",
            "Last-Modified",
            "Cache-Control",
            "Access-Control-Allow-Origin",
            "Vary",
            "Access-Control-Allow-Credentials",
            "Access-Control-Allow-Methods",
        ]
    );
    assert_eq!(header(&p, "Content-Length"), Some("123"));
    assert_eq!(header(&p, "Content-Type"), Some("text/css"));
    assert_eq!(header(&p, "ETag"), Some("\"7b-0\""));
    assert_eq!(
        header(&p, "Last-Modified"),
        Some("Thu, 01 Jan 1970 00:00:00 GMT")
    );
    assert_eq!(header(&p, "Cache-Control"), Some("public, max-age=60"));
    assert_eq!(header(&p, "Vary"), Some("Origin"));
    assert_eq!(header(&p, "Access-Control-Allow-Credentials"), Some("true"));
    assert_eq!(
        header(&p, "Access-Control-Allow-Methods"),
        Some("GET, POST, PUT, DELETE, OPTIONS, PATCH")
    );
}

#[test]
fn no_origin_means_no_cors_headers() {
    let p = expect_response(plan("GET", "a.js", false, file(1, None), None, None, None));
    assert_eq!(header(&p, "Access-Control-Allow-Origin"), None);
    assert_eq!(header(&p, "Vary"), None);
    assert_eq!(header(&p, "Access-Control-Allow-Credentials"), None);
}

#[test]
fn html_gets_no_cache_even_when_manifest_derived() {
    let p = expect_response(plan(
        "GET",
        "index.html",
        false,
        file(10, Some(5)),
        None,
        None,
        None,
    ));
    assert_eq!(header(&p, "Cache-Control"), Some("no-cache, must-revalidate"));
    let p = expect_response(plan(
        "GET",
        "sub/page.html",
        true,
        file(10, Some(5)),
        None,
        None,
        None,
    ));
    assert_eq!(header(&p, "Cache-Control"), Some("no-cache, must-revalidate"));
}

#[test]
fn manifest_derived_assets_are_immutable() {
    let p = expect_response(plan(
        "GET",
        "app.js",
        true,
        file(10, Some(5)),
        None,
        None,
        None,
    ));
    assert_eq!(
        header(&p, "Cache-Control"),
        Some("public, max-age=31536000, immutable")
    );
}

#[test]
fn plain_assets_get_the_default_ttl() {
    let p = expect_response(plan(
        "GET",
        "plain.txt",
        false,
        file(10, Some(5)),
        None,
        None,
        None,
    ));
    assert_eq!(header(&p, "Cache-Control"), Some("public, max-age=60"));
}

#[test]
fn exact_etag_in_if_none_match_gives_304_without_body() {
    let p = expect_response(plan(
        "GET",
        "a.js",
        false,
        file(123, Some(0)),
        Some("\"7b-0\""),
        None,
        Some("https://example.com"),
    ));
    assert_eq!(p.status, 304);
    assert!(p.body.is_none());
    assert!(p.head_only);
    assert_eq!(header(&p, "ETag"), Some("\"7b-0\""));
    assert_eq!(
        header(&p, "Last-Modified"),
        Some("Thu, 01 Jan 1970 00:00:00 GMT")
    );
    assert_eq!(
        header(&p, "Access-Control-Allow-Origin"),
        Some("https://example.com")
    );
    assert_eq!(header(&p, "Content-Length"), None);
    assert_eq!(header(&p, "Cache-Control"), None);
}

#[test]
fn etag_list_is_split_and_trimmed() {
    let p = expect_response(plan(
        "GET",
        "a.js",
        false,
        file(123, Some(0)),
        Some("W/\"weak\" ,  \"7b-0\" , \"other\""),
        None,
        None,
    ));
    assert_eq!(p.status, 304);
    let p = expect_response(plan(
        "GET",
        "a.js",
        false,
        file(123, Some(0)),
        Some("\"7b-1\", \"7c-0\""),
        None,
        None,
    ));
    assert_eq!(p.status, 200);
}

#[test]
fn if_modified_since_matches_by_exact_string_only() {
    let lm = "Thu, 01 Jan 1970 00:00:00 GMT";
    let p = expect_response(plan(
        "GET",
        "a.js",
        false,
        file(123, Some(0)),
        None,
        Some(lm),
        None,
    ));
    assert_eq!(p.status, 304);
    let p = expect_response(plan(
        "GET",
        "a.js",
        false,
        file(123, Some(0)),
        None,
        Some("Thursday, 01-Jan-70 00:00:00 GMT"),
        None,
    ));
    assert_eq!(p.status, 200);
}

#[test]
fn conditional_rule_directly() {
    assert!(is_not_modified(Some("\"a-1\""), None, "\"a-1\"", None));
    assert!(is_not_modified(None, Some("X"), "\"a-1\"", Some("X")));
    assert!(!is_not_modified(None, Some("X"), "\"a-1\"", Some("Y")));
    assert!(!is_not_modified(None, Some("X"), "\"a-1\"", None));
    assert!(!is_not_modified(None, None, "\"a-1\"", None));
}

#[test]
fn head_and_get_share_headers_and_head_has_no_body() {
    let get = expect_response(plan(
        "GET",
        "css/site.css",
        true,
        file(99, Some(777)),
        None,
        None,
        Some("https://example.com"),
    ));
    let head = expect_response(plan(
        "HEAD",
        "css/site.css",
        true,
        file(99, Some(777)),
        None,
        None,
        Some("https://example.com"),
    ));
    assert_eq!(get.status, head.status);
    assert_eq!(get.headers, head.headers);
    assert!(!get.head_only);
    assert!(head.head_only);
    assert_eq!(get.keepalive_seconds, Some(KEEPALIVE));
    assert_eq!(head.keepalive_seconds, None);
}

#[test]
fn configured_ttls_flow_into_headers() {
    let a = StaticAssets::new(StaticAssetConfig {
        mount_path: "/".to_string(),
        root: "/srv".to_string(),
        index_file: "index.html".to_string(),
        manifest_path: None,
        immutable_cache_seconds: 1234,
        default_cache_seconds: 9,
        keepalive_seconds: 33,
    });
    let r = resolved("app.js", true);
    let p = expect_response(a.respond("GET", &r, &file(5, None), None, None, None));
    assert_eq!(header(&p, "Cache-Control"), Some("public, max-age=1234, immutable"));
    assert_eq!(p.keepalive_seconds, Some(33));
    let r = resolved("other.js", false);
    let p = expect_response(a.respond("GET", &r, &file(5, None), None, None, None));
    assert_eq!(header(&p, "Cache-Control"), Some("public, max-age=9"));
}

#[test]
fn preflight_with_origin_is_204_with_cors() {
    let p = preflight_plan(Some("https://example.com"));
    assert_eq!(p.status, 204);
    assert!(p.body.is_none());
    assert!(p.head_only);
    assert_eq!(
        header(&p, "Access-Control-Allow-Origin"),
        Some("https://example.com")
    );
    assert_eq!(header(&p, "Access-Control-Max-Age"), Some("86400"));
    assert_eq!(header(&p, "Access-Control-Allow-Credentials"), Some("true"));
    assert_eq!(header(&p, "Vary"), Some("Origin"));
}

#[test]
fn preflight_without_origin_is_bare_200() {
    let p = preflight_plan(None);
    assert_eq!(p.status, 200);
    assert!(p.body.is_none());
    assert!(p.headers.is_empty());
}

#[test]
fn cors_headers_are_appended_not_replacing() {
    let mut headers = vec![("Vary".to_string(), "Accept-Encoding".to_string())];
    rose_proxy::cors::append_cors_headers(&mut headers, Some("https://a.example"));
    let varies: Vec<&str> = headers
        .iter()
        .filter(|(n, _)| n == "Vary")
        .map(|(_, v)| v.as_str())
        .collect();
    assert_eq!(varies, vec!["Accept-Encoding", "Origin"]);
}

#[test]
fn other_methods_are_not_applicable() {
    assert!(matches!(
        plan("POST", "a.js", false, file(1, None), None, None, None),
        ServeAction::Fallthrough
    ));
    assert!(matches!(
        plan("OPTIONS", "a.js", false, file(1, None), None, None, None),
        ServeAction::Fallthrough
    ));
}
