use infiniloom_cli::snippets::{is_word_char, line_contains_symbol_name, merge_snippet_ranges, SnippetRange};

#[test]
fn test_is_word_char_letters() {
    assert!(is_word_char('a'));
    assert!(is_word_char('Z'));
    assert!(is_word_char('m'));
}

#[test]
fn test_is_word_char_digits() {
    assert!(is_word_char('0'));
    assert!(is_word_char('5'));
    assert!(is_word_char('9'));
}

#[test]
fn test_is_word_char_underscore() {
    assert!(is_word_char('_'));
}

#[test]
fn test_is_word_char_not_punctuation() {
    assert!(!is_word_char('.'));
    assert!(!is_word_char('-'));
    assert!(!is_word_char('('));
    assert!(!is_word_char(')'));
    assert!(!is_word_char('['));
    assert!(!is_word_char(']'));
    assert!(!is_word_char(' '));
    assert!(!is_word_char('\t'));
    assert!(!is_word_char('\n'));
}

#[test]
fn test_line_contains_symbol_name_basic() {
    assert!(line_contains_symbol_name("def foo():", "foo"));
    assert!(line_contains_symbol_name("fn main() {", "main"));
    assert!(line_contains_symbol_name("const MAX_SIZE = 100", "MAX_SIZE"));
}

#[test]
fn test_line_contains_symbol_name_not_substring() {
    // "foo" should not match "foobar"
    assert!(!line_contains_symbol_name("def foobar():", "foo"));
    assert!(!line_contains_symbol_name("def barfoo():", "foo"));
}

#[test]
fn test_line_contains_symbol_name_with_boundaries() {
    assert!(line_contains_symbol_name("foo()", "foo"));
    assert!(line_contains_symbol_name("(foo)", "foo"));
    assert!(line_contains_symbol_name("[foo]", "foo"));
    assert!(line_contains_symbol_name("foo;", "foo"));
    assert!(line_contains_symbol_name("foo,bar", "foo"));
    assert!(line_contains_symbol_name("foo,bar", "bar"));
}

#[test]
fn test_line_contains_symbol_name_empty() {
    assert!(!line_contains_symbol_name("def foo():", ""));
    assert!(!line_contains_symbol_name("", "foo"));
    assert!(!line_contains_symbol_name("", ""));
}

#[test]
fn test_line_contains_symbol_name_multiple_occurrences() {
    assert!(line_contains_symbol_name("foo + foo * foo", "foo"));
}

#[test]
fn test_line_contains_symbol_name_at_line_start() {
    assert!(line_contains_symbol_name("foo = 1", "foo"));
}

#[test]
fn test_line_contains_symbol_name_at_line_end() {
    assert!(line_contains_symbol_name("return foo", "foo"));
}

#[test]
fn test_line_contains_symbol_name_with_underscore() {
    assert!(line_contains_symbol_name("my_func()", "my_func"));
    assert!(!line_contains_symbol_name("my_function()", "my_func"));
}

#[test]
fn test_merge_snippet_ranges_empty() {
    let ranges: Vec<SnippetRange> = vec![];
    let merged = merge_snippet_ranges(ranges);
    assert!(merged.is_empty());
}

#[test]
fn test_merge_snippet_ranges_single() {
    let ranges = vec![SnippetRange { start: 1, end: 5, reasons: vec!["test".to_owned()] }];
    let merged = merge_snippet_ranges(ranges);
    assert_eq!(merged.len(), 1);
    assert_eq!(merged[0].start, 1);
    assert_eq!(merged[0].end, 5);
}

#[test]
fn test_merge_snippet_ranges_non_overlapping() {
    let ranges = vec![
        SnippetRange { start: 1, end: 5, reasons: vec!["reason1".to_owned()] },
        SnippetRange { start: 10, end: 15, reasons: vec!["reason2".to_owned()] },
    ];
    let merged = merge_snippet_ranges(ranges);
    assert_eq!(merged.len(), 2);
}

#[test]
fn test_merge_snippet_ranges_overlapping() {
    let ranges = vec![
        SnippetRange { start: 1, end: 10, reasons: vec!["reason1".to_owned()] },
        SnippetRange { start: 5, end: 15, reasons: vec!["reason2".to_owned()] },
    ];
    let merged = merge_snippet_ranges(ranges);
    assert_eq!(merged.len(), 1);
    assert_eq!(merged[0].start, 1);
    assert_eq!(merged[0].end, 15);
    assert_eq!(merged[0].reasons.len(), 2);
}

#[test]
fn test_merge_snippet_ranges_adjacent() {
    // Adjacent ranges (end+1 == start of next) should merge
    let ranges = vec![
        SnippetRange { start: 1, end: 5, reasons: vec!["reason1".to_owned()] },
        SnippetRange { start: 6, end: 10, reasons: vec!["reason2".to_owned()] },
    ];
    let merged = merge_snippet_ranges(ranges);
    assert_eq!(merged.len(), 1);
    assert_eq!(merged[0].start, 1);
    assert_eq!(merged[0].end, 10);
}

#[test]
fn test_merge_snippet_ranges_unsorted() {
    // Should sort before merging
    let ranges = vec![
        SnippetRange { start: 10, end: 15, reasons: vec!["reason2".to_owned()] },
        SnippetRange { start: 1, end: 5, reasons: vec!["reason1".to_owned()] },
    ];
    let merged = merge_snippet_ranges(ranges);
    assert_eq!(merged.len(), 2);
    assert_eq!(merged[0].start, 1);
    assert_eq!(merged[1].start, 10);
}

#[test]
fn test_merge_snippet_ranges_duplicate_reasons() {
    let ranges = vec![
        SnippetRange { start: 1, end: 10, reasons: vec!["reason".to_owned()] },
        SnippetRange { start: 5, end: 15, reasons: vec!["reason".to_owned()] },
    ];
    let merged = merge_snippet_ranges(ranges);
    assert_eq!(merged.len(), 1);
    // Duplicate reasons should not be added
    assert_eq!(merged[0].reasons.len(), 1);
}

#[test]
fn test_merge_snippet_ranges_contained() {
    // One range completely contained in another
    let ranges = vec![
        SnippetRange { start: 1, end: 20, reasons: vec!["outer".to_owned()] },
        SnippetRange { start: 5, end: 10, reasons: vec!["inner".to_owned()] },
    ];
    let merged = merge_snippet_ranges(ranges);
    assert_eq!(merged.len(), 1);
    assert_eq!(merged[0].start, 1);
    assert_eq!(merged[0].end, 20);
    assert_eq!(merged[0].reasons.len(), 2);
}
