use fswalk::batch::{BatchSender, FileEntry, BATCH_SIZE};
use fswalk::exclusion::{ConfigError, ExclusionMatcher};
use fswalk::extension_filter::ExtensionFilter;
use fswalk::filter::{EntryKind, PathFilter, Step};
use fswalk::options::{plan_walk, WalkOptions};

fn strings(v: &[&str]) -> Vec<String> {
    v.iter().map(|s| s.to_string()).collect()
}

fn options(paths: &[&str]) -> WalkOptions {
    WalkOptions {
        paths: strings(paths),
        include_hidden: None,
        exclusion_patterns: None,
        extensions: None,
        threads: None,
        include_metadata: None,
    }
}

#[test]
fn extension_filter_normalizes_case_and_dot() {
    let f = ExtensionFilter::new(&strings(&["TXT", ".md", "txt"]));
    assert!(f.is_match("/a/b.txt"));
    assert!(f.is_match("/a/B.TxT"));
    assert!(f.is_match("/a/readme.MD"));
    assert!(!f.is_match("/a/main.rs"));
    assert!(!f.is_match("/a/Makefile"));
    assert!(!f.is_match("/a/.txt"));
}

#[test]
fn empty_extension_filter_matches_everything() {
    let f = ExtensionFilter::new(&[]);
    assert!(f.is_match("/a/Makefile"));
    assert!(f.is_match("/a/b.rs"));
}

#[test]
fn extension_filter_with_many_members() {
    let f = ExtensionFilter::new(&strings(&["zip", "a", "rs", "Gz", ".json", "c", "md", "zip"]));
    for p in ["x.zip", "x.a", "x.rs", "x.gz", "x.JSON", "x.c", "x.md"] {
        assert!(f.is_match(p), "{p}");
    }
    for p in ["x.b", "x.zipx", "x.r", "x.txt", "x.jso"] {
        assert!(!f.is_match(p), "{p}");
    }
}

#[test]
fn exclusion_matches_case_insensitively() {
    let m = ExclusionMatcher::compile(&strings(&["**/node_modules/**", "*.LOG"])).ok().unwrap();
    assert!(m.matches("/proj/node_modules/pkg/index.js"));
    assert!(m.matches("/proj/Node_Modules/pkg"));
    assert!(m.matches("/var/app.log"));
    assert!(!m.matches("/proj/src/main.js"));
}

#[test]
fn exclusion_rejects_malformed_pattern() {
    match ExclusionMatcher::compile(&strings(&["*.rs", "a[", "b{"])) {
        Err(ConfigError::InvalidPattern { index, pattern, .. }) => {
            assert_eq!(index, 1);
            assert_eq!(pattern, "a[");
        }
        _ => panic!("expected an invalid pattern"),
    }
}

#[test]
fn scenario_hidden_and_extension() {
    let f = PathFilter::new(&[], &strings(&["txt"])).ok().unwrap();
    assert_eq!(f.decide(false, "/tmp/a/x.txt", EntryKind::File), Step::Accept);
    assert_eq!(f.decide(false, "/tmp/a/y.md", EntryKind::File), Step::Pass);
    assert_eq!(f.decide(false, "/tmp/a", EntryKind::Dir), Step::Pass);
}

#[test]
fn scenario_node_modules_pruned() {
    let f = PathFilter::new(&strings(&["**/node_modules/**"]), &[]).ok().unwrap();
    assert_eq!(f.decide(false, "/proj/node_modules/pkg", EntryKind::Dir), Step::Prune);
    assert_eq!(f.decide(false, "/proj/node_modules/pkg/index.js", EntryKind::File), Step::Pass);
    assert_eq!(f.decide(false, "/proj/src", EntryKind::Dir), Step::Pass);
    assert_eq!(f.decide(false, "/proj/src/main.js", EntryKind::File), Step::Accept);
}

#[test]
fn cancelled_walk_quits() {
    let f = PathFilter::new(&[], &[]).ok().unwrap();
    assert_eq!(f.decide(true, "/a/b.txt", EntryKind::File), Step::Quit);
    assert_eq!(f.decide(false, "/a/b.txt", EntryKind::File), Step::Accept);
    assert_eq!(f.decide(false, "/a/link", EntryKind::Other), Step::Pass);
}

#[test]
fn batch_of_paths_is_json_array() {
    let mut b = BatchSender::new();
    assert!(b.send("/a/x.txt").is_none());
    assert!(b.send("/a/\"q\".txt").is_none());
    let out = b.flush().unwrap();
    assert_eq!(String::from_utf8(out).unwrap(), "[\"/a/x.txt\",\"/a/\\\"q\\\".txt\"]");
    assert!(b.flush().is_none());
}

#[test]
fn batch_holds_at_most_batch_size() {
    let mut b = BatchSender::new();
    for i in 0..BATCH_SIZE - 1 {
        assert!(b.send(&format!("f{i}")).is_none());
    }
    let full = b.send("last").unwrap();
    let items: Vec<String> = serde_json::from_slice(&full).unwrap();
    assert_eq!(items.len(), BATCH_SIZE);
    assert_eq!(items[0], "f0");
    assert_eq!(items[BATCH_SIZE - 1], "last");
    assert!(b.flush().is_none());
    assert!(b.send("again").is_none());
    assert_eq!(b.flush().unwrap(), b"[\"again\"]".to_vec());
}

#[test]
fn entry_records_with_and_without_created() {
    let mut b = BatchSender::new();
    let e1 = FileEntry { path: "/a/x".to_string(), modified: "17".to_string(), created: Some("5".to_string()) };
    let e2 = FileEntry { path: "/a/y".to_string(), modified: "18".to_string(), created: None };
    assert!(b.send_entry(&e1).is_none());
    assert!(b.send_entry(&e2).is_none());
    let out = String::from_utf8(b.flush().unwrap()).unwrap();
    assert_eq!(
        out,
        "[{\"path\":\"/a/x\",\"modified\":\"17\",\"created\":\"5\"},{\"path\":\"/a/y\",\"modified\":\"18\"}]"
    );
}

#[test]
fn empty_roots_plan_nothing() {
    let mut o = options(&[]);
    o.exclusion_patterns = Some(strings(&["a["]));
    assert!(matches!(plan_walk(o), Ok(None)));
}

#[test]
fn plan_applies_defaults_and_keeps_roots() {
    let plan = plan_walk(options(&["/r1", "/r2"])).ok().unwrap().unwrap();
    assert_eq!(plan.roots, strings(&["/r1", "/r2"]));
    assert!(!plan.include_hidden);
    assert!(!plan.include_metadata);
    assert_eq!(plan.threads, 0);
    assert_eq!(plan.filter.decide(false, "/r1/a.bin", EntryKind::File), Step::Accept);
    assert_eq!(plan.filter.decide(false, "/r2/b", EntryKind::File), Step::Accept);
}

#[test]
fn plan_fails_on_malformed_pattern() {
    let mut o = options(&["/r"]);
    o.exclusion_patterns = Some(strings(&["{a,b"]));
    o.threads = Some(3);
    assert!(matches!(plan_walk(o), Err(ConfigError::InvalidPattern { index: 0, .. })));
}

#[test]
fn same_configuration_decides_alike() {
    let pats = strings(&["**/target/**", "*.tmp"]);
    let exts = strings(&[".RS", "toml"]);
    let a = PathFilter::new(&pats, &exts).ok().unwrap();
    let b = PathFilter::new(&pats, &exts).ok().unwrap();
    let entries = [
        ("/p/src/lib.rs", EntryKind::File),
        ("/p/target/debug", EntryKind::Dir),
        ("/p/Cargo.toml", EntryKind::File),
        ("/p/x.tmp", EntryKind::File),
        ("/p/README", EntryKind::File),
    ];
    for _ in 0..2 {
        for (p, k) in entries {
            assert_eq!(a.decide(false, p, k), b.decide(false, p, k));
        }
    }
    assert_eq!(a.decide(false, "/p/src/lib.rs", EntryKind::File), Step::Accept);
    assert_eq!(a.decide(false, "/p/target/debug", EntryKind::Dir), Step::Prune);
    assert_eq!(a.decide(false, "/p/x.tmp", EntryKind::File), Step::Pass);
    assert_eq!(a.decide(false, "/p/README", EntryKind::File), Step::Pass);
}

#[test]
fn excluded_file_is_skipped_not_pruned() {
    let f = PathFilter::new(&strings(&["*.LOCK"]), &[]).ok().unwrap();
    assert_eq!(f.decide(false, "/p/Cargo.lock", EntryKind::File), Step::Pass);
    assert_eq!(f.decide(false, "/p/dir.lock", EntryKind::Dir), Step::Prune);
}

#[test]
fn paths_are_escaped_as_json_strings() {
    let mut b = BatchSender::new();
    assert!(b.send("a\\b\n\t\u{1}\u{1f}é\u{8}\u{c}\r").is_none());
    let out = String::from_utf8(b.flush().unwrap()).unwrap();
    assert_eq!(out, "[\"a\\\\b\\n\\t\\u0001\\u001fé\\b\\f\\r\"]");
}

#[test]
fn upper_case_pattern_compiles_and_matches_lower_case() {
    let m = ExclusionMatcher::compile(&strings(&["**/NODE_MODULES/**"])).ok().unwrap();
    assert!(m.matches("/proj/node_modules/pkg"));
    assert!(m.matches("/proj/node_modules/pkg/index.js"));
    assert!(!m.matches("/proj/src/main.js"));
}
