use infiniloom_cli::filters::{GlobPattern, pattern_matches_file, compile_patterns, matches_any_pattern, filter_stdin_paths, apply_include_patterns, apply_exclude_patterns};

#[test]
fn pack_test_pattern_matches_file_exact_extension() {
    let pattern = GlobPattern::new("*.rs").unwrap();
    assert!(pattern_matches_file(&pattern, "main.rs"));
    assert!(pattern_matches_file(&pattern, "src/lib.rs"));
    assert!(!pattern_matches_file(&pattern, "main.py"));
}

#[test]
fn pack_test_pattern_matches_file_directory_glob() {
    let pattern = GlobPattern::new("src/**/*.rs").unwrap();
    assert!(pattern_matches_file(&pattern, "src/main.rs"));
    assert!(pattern_matches_file(&pattern, "src/utils/helper.rs"));
    assert!(!pattern_matches_file(&pattern, "tests/test.rs"));
}

#[test]
fn pack_test_pattern_matches_file_filename_only() {
    let pattern = GlobPattern::new("Cargo.toml").unwrap();
    assert!(pattern_matches_file(&pattern, "Cargo.toml"));
    assert!(pattern_matches_file(&pattern, "subdir/Cargo.toml"));
}

#[test]
fn pack_test_pattern_matches_file_no_match() {
    let pattern = GlobPattern::new("*.txt").unwrap();
    assert!(!pattern_matches_file(&pattern, "main.rs"));
    assert!(!pattern_matches_file(&pattern, "src/lib.py"));
}

#[test]
fn tests_test_pattern_matches_file_exact_extension() {
    let pattern = GlobPattern::new("*.rs").unwrap();
    assert!(pattern_matches_file(&pattern, "main.rs"));
    assert!(pattern_matches_file(&pattern, "src/lib.rs"));
    assert!(!pattern_matches_file(&pattern, "main.py"));
}

#[test]
fn tests_test_pattern_matches_file_directory_glob() {
    let pattern = GlobPattern::new("src/**/*.rs").unwrap();
    assert!(pattern_matches_file(&pattern, "src/main.rs"));
    assert!(pattern_matches_file(&pattern, "src/utils/helper.rs"));
    assert!(!pattern_matches_file(&pattern, "tests/test.rs"));
}

#[test]
fn tests_test_pattern_matches_file_filename_only() {
    let pattern = GlobPattern::new("Cargo.toml").unwrap();
    assert!(pattern_matches_file(&pattern, "Cargo.toml"));
    assert!(pattern_matches_file(&pattern, "subdir/Cargo.toml"));
}

#[test]
fn tests_test_pattern_matches_file_no_match() {
    let pattern = GlobPattern::new("*.txt").unwrap();
    assert!(!pattern_matches_file(&pattern, "main.rs"));
    assert!(!pattern_matches_file(&pattern, "src/lib.py"));
}

#[test]
fn invalid_glob_is_rejected() {
    assert!(GlobPattern::new("a***b").is_none());
    assert!(GlobPattern::new("[abc").is_none());
    assert!(GlobPattern::new("src/**/*.rs").is_some());
}

#[test]
fn compile_patterns_drops_invalid_ones() {
    let pats = vec!["*.rs".to_string(), "[bad".to_string(), "*.md".to_string()];
    let compiled = compile_patterns(&pats);
    assert_eq!(compiled.len(), 2);
    assert_eq!(compiled[0].as_str(), "*.rs");
    assert_eq!(compiled[1].as_str(), "*.md");
    assert!(matches_any_pattern(&compiled, "docs/readme.md"));
    assert!(!matches_any_pattern(&compiled, "docs/readme.txt"));
}

#[test]
fn stdin_paths_keep_exact_and_suffix_matches() {
    let mut files = vec!["src/main.rs".to_string(), "src/lib.rs".to_string(), "README.md".to_string()];
    filter_stdin_paths(&mut files, &Some(vec!["lib.rs".to_string(), "README.md".to_string()]));
    assert_eq!(files, vec!["src/lib.rs".to_string(), "README.md".to_string()]);
    let mut all = vec!["a".to_string(), "b".to_string()];
    filter_stdin_paths(&mut all, &None);
    assert_eq!(all, vec!["a".to_string(), "b".to_string()]);
}

#[test]
fn include_then_exclude_narrow_the_file_list() {
    let mut files = vec!["src/main.rs".to_string(), "src/gen.rs".to_string(), "notes.txt".to_string()];
    let inc = apply_include_patterns(&mut files, vec!["*.rs".to_string()]);
    assert_eq!(inc.len(), 1);
    assert_eq!(files, vec!["src/main.rs".to_string(), "src/gen.rs".to_string()]);
    let exc = apply_exclude_patterns(&mut files, vec!["gen.rs".to_string()]);
    assert_eq!(exc.len(), 1);
    assert_eq!(files, vec!["src/main.rs".to_string()]);
}

#[test]
fn include_with_no_valid_pattern_keeps_everything() {
    let mut files = vec!["a.rs".to_string(), "b.py".to_string()];
    let inc = apply_include_patterns(&mut files, vec!["[oops".to_string()]);
    assert!(inc.is_empty());
    assert_eq!(files, vec!["a.rs".to_string(), "b.py".to_string()]);
}
