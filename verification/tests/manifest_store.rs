use rose_proxy::manifest::{manifest_value_file, parse_manifest_entries, ManifestState, ManifestValue, Mtime};

#[test]
fn both_value_shapes_build_the_same_table() {
    let direct = parse_manifest_entries(
        r#"{"app.js":"app.1.js","site.css":"site.2.css"}"#,
    )
    .expect("direct shape parses");
    let wrapped = parse_manifest_entries(
        r#"{"app.js":{"file":"app.1.js"},"site.css":{"file":"site.2.css"}}"#,
    )
    .expect("object shape parses");
    assert_eq!(direct, wrapped);
}

#[test]
fn mixed_shapes_parse() {
    let entries = parse_manifest_entries(
        r#"{"a.js":"a.9.js","b.css":{"file":"b.8.css"}}"#,
    )
    .expect("mixed shapes parse");
    let mut entries = entries;
    entries.sort();
    assert_eq!(
        entries,
        vec![
            ("a.js".to_string(), "a.9.js".to_string()),
            ("b.css".to_string(), "b.8.css".to_string()),
        ]
    );
}

#[test]
fn entry_objects_may_carry_extra_members() {
    let entries = parse_manifest_entries(r#"{"a.js":{"file":"a.1.js","integrity":"sha-x"}}"#)
        .expect("extra members are ignored");
    assert_eq!(entries, vec![("a.js".to_string(), "a.1.js".to_string())]);
}

#[test]
fn malformed_manifests_are_parse_errors() {
    assert!(parse_manifest_entries("not json").is_err());
    assert!(parse_manifest_entries(r#"[1, 2]"#).is_err());
    assert!(parse_manifest_entries(r#""just a string""#).is_err());
    assert!(parse_manifest_entries(r#"{"a.js":1}"#).is_err());
    assert!(parse_manifest_entries(r#"{"a.js":{"path":"x"}}"#).is_err());
    assert!(parse_manifest_entries(r#"{"a.js":{"file":2}}"#).is_err());
    assert!(parse_manifest_entries(r#"{"a.js":null}"#).is_err());
}

#[test]
fn lookup_hits_and_misses() {
    let st = ManifestState::from_contents(r#"{"app.js":"app.1.js"}"#, None).expect("parses");
    assert_eq!(st.lookup("app.js").as_deref(), Some("app.1.js"));
    assert_eq!(st.lookup("other.js"), None);
}

#[test]
fn empty_store_has_no_entries() {
    let st = ManifestState::empty();
    assert_eq!(st.lookup("anything"), None);
}

#[test]
fn unchanged_mtime_needs_no_reload() {
    let t = Some(Mtime { secs: 100, nanos: 7 });
    let st = ManifestState::from_contents(r#"{"a":"b"}"#, t).expect("parses");
    assert!(!st.needs_reload(t));
    assert!(st.needs_reload(Some(Mtime { secs: 100, nanos: 8 })));
    assert!(st.needs_reload(Some(Mtime { secs: 101, nanos: 7 })));
    assert!(st.needs_reload(None));
}

#[test]
fn changed_file_is_reloaded() {
    let t0 = Some(Mtime { secs: 100, nanos: 0 });
    let t1 = Some(Mtime { secs: 200, nanos: 0 });
    let st = ManifestState::from_contents(r#"{"app.js":"app.old.js"}"#, t0).expect("parses");
    let parsed = parse_manifest_entries(r#"{"app.js":"app.a1b2c3.js"}"#);
    let st = st.with_reloaded(t1, parsed);
    assert_eq!(st.lookup("app.js").as_deref(), Some("app.a1b2c3.js"));
    assert!(!st.needs_reload(t1));
}

#[test]
fn failed_reload_retains_previous_snapshot() {
    let t0 = Some(Mtime { secs: 100, nanos: 0 });
    let t1 = Some(Mtime { secs: 200, nanos: 0 });
    let st = ManifestState::from_contents(r#"{"app.js":"app.old.js"}"#, t0).expect("parses");
    let parsed = parse_manifest_entries("{broken");
    let st = st.with_reloaded(t1, parsed);
    assert_eq!(st.lookup("app.js").as_deref(), Some("app.old.js"));
    assert!(st.needs_reload(t1));
}

#[test]
fn startup_parse_failure_is_fatal() {
    assert!(ManifestState::from_contents("{oops", None).is_err());
}

#[test]
fn value_shapes_denote_the_same_file() {
    let a = manifest_value_file(ManifestValue::Direct("app.1.js".to_string()));
    let b = manifest_value_file(ManifestValue::Entry { file: "app.1.js".to_string() });
    assert_eq!(a, b);
    assert_eq!(a, "app.1.js");
}

#[test]
fn snapshot_from_parsed_entries() {
    let entries = parse_manifest_entries(r#"{"a.js":"a.1.js"}"#).expect("parses");
    let st = ManifestState::new(entries, Some(Mtime { secs: 1, nanos: 2 }));
    assert_eq!(st.lookup("a.js").as_deref(), Some("a.1.js"));
    assert!(!st.needs_reload(Some(Mtime { secs: 1, nanos: 2 })));
}
