use infiniloom_cli::git_output::{
    changed_line_ranges, hunk_spans_fit, parse_name_status, parse_untracked, split_base_ref,
    untracked_file_diff, whole_file_range, BaseRef, ChangeType,
};

#[test]
fn test_resolve_base_ref_range() {
    // For range refs like "main..HEAD", we want the left side
    let base = split_base_ref(Some("main..HEAD"));
    assert!(matches!(base, BaseRef::Range(ref b) if b == "main"));
}

#[test]
fn test_resolve_base_ref_triple_dot_range() {
    // Also handles triple dot ranges
    let base = split_base_ref(Some("develop...feature"));
    assert!(matches!(base, BaseRef::Range(ref b) if b == "develop"));
}

#[test]
fn single_refs_are_checked_as_they_are() {
    assert!(matches!(split_base_ref(None), BaseRef::Single(ref b) if b == "HEAD"));
    assert!(matches!(split_base_ref(Some("HEAD~1")), BaseRef::Single(ref b) if b == "HEAD~1"));
    assert!(matches!(split_base_ref(Some("..HEAD")), BaseRef::Single(ref b) if b == "..HEAD"));
}

#[test]
fn name_status_lines_are_read() {
    let out = "M\tsrc/lib.rs\nA\tnew.rs\nD\told.rs\nR100\tfrom.rs\tto.rs\nX\tweird.rs\nbroken\n";
    let got = parse_name_status(out);
    assert_eq!(got.len(), 5);
    assert_eq!(got[0].file_path, "src/lib.rs");
    assert_eq!(got[0].change_type, ChangeType::Modified);
    assert_eq!(got[1].change_type, ChangeType::Added);
    assert_eq!(got[2].change_type, ChangeType::Deleted);
    assert_eq!(got[3].file_path, "to.rs");
    assert_eq!(got[3].old_path.as_deref(), Some("from.rs"));
    assert_eq!(got[3].change_type, ChangeType::Renamed);
    assert_eq!(got[4].change_type, ChangeType::Modified);
    assert!(got[4].old_path.is_none());
}

#[test]
fn untracked_files_are_the_question_marked_lines() {
    let out = " M src/lib.rs\n?? notes.txt\n?? dir/new.rs\nA  added.rs\n";
    assert_eq!(parse_untracked(out), vec!["notes.txt".to_owned(), "dir/new.rs".to_owned()]);
}

#[test]
fn hunk_headers_give_new_side_ranges() {
    let diff = "diff --git a/x b/x\n@@ -1,2 +3,4 @@ fn x\n-a\n+b\n@@ -10 +20 @@\n@@ -5,3 +7,0 @@\n";
    assert!(hunk_spans_fit(diff));
    assert_eq!(changed_line_ranges(diff, None), vec![(3, 6), (20, 20), (7, 7)]);
}

#[test]
fn no_hunks_means_the_whole_file() {
    assert_eq!(changed_line_ranges("", Some("a\nb\nc\n")), vec![(1, 3)]);
    assert_eq!(changed_line_ranges("", None), vec![(1, 1)]);
    assert_eq!(changed_line_ranges("", Some("")), vec![(1, 1)]);
    assert_eq!(whole_file_range(Some("x\ny")), (1, 2));
}

#[test]
fn overflowing_hunk_is_detected() {
    assert!(!hunk_spans_fit("@@ -1 +4294967295,3 @@\n"));
}

#[test]
fn untracked_file_becomes_one_added_hunk() {
    assert_eq!(untracked_file_diff("fn a() {}\nfn b() {}\n"), "@@ -0,0 +1,2 @@\n+fn a() {}\n+fn b() {}");
}
