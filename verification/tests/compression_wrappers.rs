use infiniloom_cli::compression::{remove_comments_from_content, remove_empty_lines_from_content};

#[test]
fn test_wrapper_remove_empty_lines() {
    let content = "line1\n\nline2\n";
    let result = remove_empty_lines_from_content(content, false);
    assert_eq!(result, "line1\nline2");
}

#[test]
fn test_wrapper_remove_comments() {
    let content = "// Comment\nfn main() {}\n";
    let result = remove_comments_from_content(content, "rust", false);
    assert!(!result.contains("// Comment"));
    assert!(result.contains("fn main()"));
}
