use infiniloom_cli::snippet_selection::{select_snippets, SymbolSpan};

const TEXT: &str = "a\nb\nc\nfoo()\ne\nf\ng\nh\ni\nj";

#[test]
fn hunk_is_widened_by_three_lines() {
    let got = select_snippets(TEXT, &vec![(5, 5)], &vec![], &vec![], false, &vec![], false).unwrap();
    assert_eq!(got.len(), 1);
    assert_eq!((got[0].start_line, got[0].end_line), (2, 8));
    assert_eq!(got[0].reason, "diff hunk");
    assert_eq!(got[0].content, "b\nc\nfoo()\ne\nf\ng\nh");
}

#[test]
fn test_mentions_merge_with_hunks() {
    let names = vec!["foo".to_owned()];
    let got = select_snippets(TEXT, &vec![(5, 5)], &vec![], &vec![], true, &names, false).unwrap();
    assert_eq!(got.len(), 1);
    assert_eq!((got[0].start_line, got[0].end_line), (1, 8));
    assert_eq!(got[0].reason, "references changed symbol: foo; diff hunk");
    assert_eq!(got[0].content, "a\nb\nc\nfoo()\ne\nf\ng\nh");
}

#[test]
fn mentions_only_count_in_tests() {
    let names = vec!["foo".to_owned()];
    let got = select_snippets(TEXT, &vec![], &vec![], &vec![], false, &names, false).unwrap();
    assert!(got.is_empty());
}

#[test]
fn symbols_are_clipped_to_the_file() {
    let changed = vec![SymbolSpan { name: "foo".to_owned(), start_line: 9, end_line: 40 }];
    let dependent = vec![SymbolSpan { name: "bar".to_owned(), start_line: 0, end_line: 0 }];
    let got = select_snippets(TEXT, &vec![], &changed, &dependent, false, &vec![], false).unwrap();
    assert_eq!(got.len(), 2);
    assert_eq!((got[0].start_line, got[0].end_line), (1, 1));
    assert_eq!(got[0].reason, "dependent symbol: bar");
    assert_eq!(got[0].content, "a");
    assert_eq!((got[1].start_line, got[1].end_line), (9, 10));
    assert_eq!(got[1].reason, "changed symbol: foo");
    assert_eq!(got[1].content, "i\nj");
}

#[test]
fn removed_file_shows_its_start() {
    let got = select_snippets("x\ny\nz", &vec![], &vec![], &vec![], false, &vec![], true).unwrap();
    assert_eq!(got.len(), 1);
    assert_eq!((got[0].start_line, got[0].end_line), (1, 3));
    assert_eq!(got[0].reason, "file removed");
    assert_eq!(got[0].content, "x\ny\nz");
}

#[test]
fn empty_file_keeps_its_snippets() {
    assert!(select_snippets("", &vec![(1, 2)], &vec![], &vec![], false, &vec![], true).is_none());
}
