use infiniloom_cli::chunks::{
    chunk_file_name, effective_strategy, needs_symbols, prioritize_chunks, strategy_label,
    ChunkOutline, ChunkStrategy,
};

fn outline(index: usize, total: usize, focus: &str, files: &[&str]) -> ChunkOutline {
    ChunkOutline {
        index,
        total,
        focus: focus.to_string(),
        file_paths: files.iter().map(|f| f.to_string()).collect(),
        tokens: 100,
        cross_references: 0,
        has_overlap: false,
    }
}

fn focuses(chunks: &[ChunkOutline]) -> Vec<String> {
    chunks.iter().map(|c| c.focus.clone()).collect()
}

#[test]
fn priority_first_puts_entry_points_first() {
    let chunks = vec![
        outline(0, 3, "docs", &["README.md"]),
        outline(1, 3, "tests", &["tests/test_api.py"]),
        outline(2, 3, "entry", &["src/main.rs", "Cargo.toml"]),
    ];
    let ordered = prioritize_chunks(chunks);
    assert_eq!(focuses(&ordered), vec!["entry", "tests", "docs"]);
    for (i, c) in ordered.iter().enumerate() {
        assert_eq!(c.index, i);
        assert_eq!(c.total, 3);
    }
    assert_eq!(ordered[0].file_paths, vec!["src/main.rs".to_string(), "Cargo.toml".to_string()]);
}

#[test]
fn priority_first_keeps_ties_in_order_and_empty_chunks_last() {
    let chunks = vec![
        outline(0, 4, "empty", &[]),
        outline(1, 4, "a", &["src/a.rs"]),
        outline(2, 4, "b", &["src/b.rs"]),
        outline(3, 4, "mixed", &["src/main.rs", "README.md"]),
    ];
    let ordered = prioritize_chunks(chunks);
    // averages: 0, 60, 60, 55
    assert_eq!(focuses(&ordered), vec!["a", "b", "mixed", "empty"]);
    assert_eq!(ordered[3].index, 3);
}

#[test]
fn priority_first_leaves_a_single_chunk_alone() {
    let chunks = vec![outline(7, 9, "only", &["README.md"])];
    let ordered = prioritize_chunks(chunks);
    assert_eq!(ordered.len(), 1);
    assert_eq!(ordered[0].index, 7);
    assert_eq!(ordered[0].total, 9);
}

#[test]
fn chunk_file_names_are_zero_padded() {
    assert_eq!(chunk_file_name(&outline(0, 12, "x", &[]), "md"), "chunk_001_of_012.md");
    assert_eq!(chunk_file_name(&outline(41, 300, "x", &[]), "xml"), "chunk_042_of_300.xml");
    assert_eq!(chunk_file_name(&outline(999, 1000, "x", &[]), "txt"), "chunk_1000_of_1000.txt");
}

#[test]
fn strategy_labels_and_symbol_needs() {
    assert_eq!(strategy_label(ChunkStrategy::Fixed { size: 10 }), "fixed");
    assert_eq!(strategy_label(ChunkStrategy::File), "file");
    assert_eq!(strategy_label(ChunkStrategy::Module), "module");
    assert_eq!(strategy_label(ChunkStrategy::Symbol), "symbol");
    assert_eq!(strategy_label(ChunkStrategy::Semantic), "semantic");
    assert_eq!(strategy_label(ChunkStrategy::Dependency), "dependency");
    assert!(needs_symbols(ChunkStrategy::Dependency));
    assert!(needs_symbols(ChunkStrategy::Symbol));
    assert!(!needs_symbols(ChunkStrategy::Module));
    assert!(!needs_symbols(ChunkStrategy::Fixed { size: 1 }));
}

#[test]
fn fixed_strategy_cuts_at_the_token_limit() {
    assert_eq!(
        effective_strategy(ChunkStrategy::Fixed { size: 8000 }, 2000),
        ChunkStrategy::Fixed { size: 2000 }
    );
    assert_eq!(effective_strategy(ChunkStrategy::Semantic, 2000), ChunkStrategy::Semantic);
}
