use infiniloom_cli::filters::{
    apply_default_ignores, apply_scan_patterns, passes_default_ignores, sample_size, scan_excludes, scan_includes,
};
use infiniloom_cli::index::is_index_fresh;

fn strings(v: &[&str]) -> Vec<String> {
    v.iter().map(|s| s.to_string()).collect()
}

#[test]
fn scan_exclusion_matches_substrings_prefixes_and_parts() {
    let ex = strings(&["node_modules", "target/"]);
    assert!(scan_excludes("web/node_modules/x.js", &ex));
    assert!(scan_excludes("target/debug/a", &ex));
    assert!(!scan_excludes("src/main.rs", &ex));
    assert!(!scan_excludes("src/main.rs", &vec![]));
}

#[test]
fn scan_inclusion_uses_globs_only_with_a_star() {
    let inc = strings(&["*.rs"]);
    assert!(scan_includes("src/main.rs", &inc));
    assert!(!scan_includes("src/main.py", &inc));
    let plain = strings(&["src/"]);
    assert!(scan_includes("src/main.py", &plain));
    assert!(!scan_includes("lib/main.py", &plain));
    let broken = strings(&["[*"]);
    assert!(!scan_includes("[*", &broken));
}

#[test]
fn scan_patterns_exclude_then_include() {
    let mut files = strings(&["src/a.rs", "src/b.py", "vendor/c.rs", "README.md"]);
    apply_scan_patterns(&mut files, &strings(&["vendor"]), &strings(&["*.rs", "README"]));
    assert_eq!(files, strings(&["src/a.rs", "README.md"]));
    let mut all = strings(&["x", "y"]);
    apply_scan_patterns(&mut all, &vec![], &vec![]);
    assert_eq!(all, strings(&["x", "y"]));
}

#[test]
fn sampling_only_when_fewer_files_are_asked_for() {
    assert_eq!(sample_size(Some(10), 100), Some(10));
    assert_eq!(sample_size(Some(100), 100), None);
    assert_eq!(sample_size(Some(0), 100), None);
    assert_eq!(sample_size(None, 100), None);
}

#[test]
fn index_freshness_follows_git() {
    let head = Some("abc".to_owned());
    assert!(is_index_fresh(false, None, &None, &None));
    assert!(!is_index_fresh(true, None, &head, &head));
    assert!(!is_index_fresh(true, Some(false), &head, &head));
    assert!(is_index_fresh(true, Some(true), &head, &head));
    assert!(!is_index_fresh(true, Some(true), &head, &Some("def".to_owned())));
    assert!(is_index_fresh(true, Some(true), &None, &Some("def".to_owned())));
    assert!(is_index_fresh(true, Some(true), &head, &None));
}

#[test]
fn default_ignores_drop_ignored_tests_and_docs() {
    use_default_ignores_cases();
}

fn use_default_ignores_cases() {
    assert!(passes_default_ignores(false, false, false, true, true, true));
    assert!(!passes_default_ignores(true, true, true, true, false, false));
    assert!(!passes_default_ignores(true, false, true, false, true, false));
    assert!(passes_default_ignores(true, true, false, false, true, false));
    assert!(!passes_default_ignores(true, true, false, false, false, true));
    assert!(passes_default_ignores(true, false, false, false, false, false));
}

#[test]
fn default_ignores_filter_file_lists() {
    let mut files = strings(&["node_modules/x.js", "src/a.rs", "tests/a.rs", "docs/a.md"]);
    let ignored = vec![true, false, false, false];
    let tests = vec![false, false, true, false];
    let docs = vec![false, false, false, true];
    let mut kept = files.clone();
    apply_default_ignores(&mut kept, true, false, false, &ignored, &tests, &docs);
    assert_eq!(kept, strings(&["src/a.rs"]));
    let mut with_tests = files.clone();
    apply_default_ignores(&mut with_tests, true, true, false, &ignored, &tests, &docs);
    assert_eq!(with_tests, strings(&["src/a.rs", "tests/a.rs"]));
    apply_default_ignores(&mut files, false, false, false, &ignored, &tests, &docs);
    assert_eq!(files.len(), 4);
}
