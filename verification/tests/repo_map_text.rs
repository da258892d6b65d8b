use infiniloom_cli::repo_map::{
    format_repo_map, FileIndexEntry, KeySymbolEntry, ModuleEdge, ModuleNode, RepoMapView,
};

fn empty_map() -> RepoMapView {
    RepoMapView {
        token_count: 0,
        summary: "Nothing here".to_owned(),
        key_symbols: vec![],
        nodes: vec![],
        edges: vec![],
        file_index: vec![],
    }
}

#[test]
fn empty_map_says_none_in_each_section() {
    let text = format_repo_map(&empty_map(), 2000);
    assert_eq!(
        text,
        "Repository Map (budget: 2000, estimated tokens: 0)\n\nSummary\n-------\nNothing here\n\n\
         Key Symbols\n-----------\n(none)\n\nModule Graph\n------------\n(none)\n\n\
         File Index\n----------\n(none)\n"
    );
}

#[test]
fn full_map_text_is_exact() {
    let map = RepoMapView {
        token_count: 321,
        summary: "A small crate".to_owned(),
        key_symbols: vec![
            KeySymbolEntry {
                rank: 1,
                kind: "function".to_owned(),
                name: "main".to_owned(),
                file: "src/main.rs".to_owned(),
                line: 3,
                references: 7,
                importance: "0.95".to_owned(),
                summary: Some("Entry point".to_owned()),
                signature: Some("  fn main()  \r\n{".to_owned()),
            },
            KeySymbolEntry {
                rank: 12,
                kind: "struct".to_owned(),
                name: "Config".to_owned(),
                file: "src/config.rs".to_owned(),
                line: 10,
                references: 2,
                importance: "0.40".to_owned(),
                summary: None,
                signature: Some(String::new()),
            },
        ],
        nodes: vec![
            ModuleNode { name: "src".to_owned(), files: 2, tokens: 300 },
            ModuleNode { name: "tests".to_owned(), files: 1, tokens: 21 },
        ],
        edges: vec![ModuleEdge { from: "tests".to_owned(), to: "src".to_owned(), weight: 4 }],
        file_index: vec![FileIndexEntry {
            path: "src/main.rs".to_owned(),
            tokens: 120,
            importance: "high".to_owned(),
        }],
    };
    let expected = "Repository Map (budget: 500, estimated tokens: 321)\n\n\
        Summary\n-------\nA small crate\n\n\
        Key Symbols\n-----------\n\
        \x201. function main - src/main.rs:3 (refs: 7, importance: 0.95)\n\
        \x20   summary: Entry point\n\
        \x20   signature: fn main()\n\
        12. struct Config - src/config.rs:10 (refs: 2, importance: 0.40)\n\n\
        Module Graph\n------------\n\
        - src (files: 2, tokens: 300)\n\
        - tests (files: 1, tokens: 21)\n\
        Dependencies:\n\
        \x20 tests -> src (weight: 4)\n\n\
        File Index\n----------\n\
        - src/main.rs (tokens: 120, importance: high)\n";
    assert_eq!(format_repo_map(&map, 500), expected);
}

#[test]
fn modules_without_edges_have_no_dependencies_line() {
    let mut map = empty_map();
    map.nodes = vec![ModuleNode { name: "core".to_owned(), files: 5, tokens: 900 }];
    let text = format_repo_map(&map, 100);
    assert!(text.contains("- core (files: 5, tokens: 900)\n\nFile Index"));
    assert!(!text.contains("Dependencies:"));
}
