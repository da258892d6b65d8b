use infiniloom_cli::diff_budget::{apply_diff_budget, snippet_reason_bonus, SnippetMeasure};
use infiniloom_cli::diff_output::{ContextFile, ContextSymbol, DiffSnippet, ExpandedContext, ImpactSummary};

fn file(path: &str, tokens: u32, snippets: Vec<DiffSnippet>) -> ContextFile {
    ContextFile {
        path: path.to_owned(),
        language: "rust".to_owned(),
        relevance_reason: "test".to_owned(),
        relevance: "0.50".to_owned(),
        relevance_short: "0.5".to_owned(),
        tokens,
        diff_content: None,
        snippets,
    }
}

fn snip(start: u32, reason: &str) -> DiffSnippet {
    DiffSnippet {
        start_line: start,
        end_line: start + 2,
        reason: reason.to_owned(),
        content: format!("line {}", start),
    }
}

fn symbol(name: &str, path: &str) -> ContextSymbol {
    ContextSymbol {
        name: name.to_owned(),
        kind: "function".to_owned(),
        file_path: path.to_owned(),
        start_line: 1,
        relevance_reason: String::new(),
        relevance: "0.00".to_owned(),
        relevance_short: "0.0".to_owned(),
    }
}

fn m(tokens: u32, rank: u64) -> SnippetMeasure {
    SnippetMeasure { tokens, rank }
}

fn context(
    changed: Vec<ContextFile>,
    dependent: Vec<ContextFile>,
    tests: Vec<ContextFile>,
    symbols: Vec<ContextSymbol>,
) -> ExpandedContext {
    ExpandedContext {
        changed_files: changed,
        changed_symbols: vec![],
        dependent_files: dependent,
        dependent_symbols: symbols,
        related_tests: tests,
        call_chains: vec![],
        impact_summary: ImpactSummary {
            level: "low".to_owned(),
            description: String::new(),
            direct_files: 0,
            transitive_files: 0,
            affected_symbols: 0,
            affected_tests: 0,
        },
        total_tokens: 0,
    }
}

fn starts(f: &ContextFile) -> Vec<u32> {
    f.snippets.iter().map(|s| s.start_line).collect()
}

#[test]
fn budget_keeps_the_highest_ranked_snippets_that_fit() {
    let mut ctx = context(
        vec![file("src/lib.rs", 50, vec![])],
        vec![file("src/a.rs", 70, vec![snip(1, "dependent symbol: a"), snip(10, "diff hunk")])],
        vec![file("tests/a.rs", 15, vec![snip(5, "references changed symbol: a")])],
        vec![],
    );
    let dep = vec![vec![m(30, 10), m(40, 5)]];
    let tests = vec![vec![m(15, 7)]];
    apply_diff_budget(&mut ctx, 100, &dep, &tests);
    assert_eq!(ctx.dependent_files.len(), 1);
    assert_eq!(starts(&ctx.dependent_files[0]), vec![1]);
    assert_eq!(ctx.dependent_files[0].tokens, 30);
    assert_eq!(ctx.related_tests.len(), 1);
    assert_eq!(ctx.related_tests[0].tokens, 15);
    assert_eq!(ctx.changed_files[0].tokens, 50);
    assert_eq!(ctx.total_tokens, 95);
}

#[test]
fn budget_drops_files_without_snippets_and_their_symbols() {
    let mut ctx = context(
        vec![file("src/lib.rs", 10, vec![])],
        vec![
            file("src/big.rs", 500, vec![snip(1, "dependent symbol: big")]),
            file("src/small.rs", 5, vec![snip(3, "dependent symbol: small")]),
        ],
        vec![],
        vec![symbol("big", "src/big.rs"), symbol("small", "src/small.rs"), symbol("lib", "src/lib.rs")],
    );
    let dep = vec![vec![m(500, 9)], vec![m(5, 1)]];
    apply_diff_budget(&mut ctx, 40, &dep, &vec![]);
    assert_eq!(ctx.dependent_files.len(), 1);
    assert_eq!(ctx.dependent_files[0].path, "src/small.rs");
    let names: Vec<&str> = ctx.dependent_symbols.iter().map(|s| s.name.as_str()).collect();
    assert_eq!(names, vec!["small", "lib"]);
    assert_eq!(ctx.total_tokens, 15);
}

#[test]
fn budget_prefers_the_cheaper_of_equal_rank() {
    let mut ctx = context(
        vec![],
        vec![file("src/a.rs", 0, vec![snip(1, "x"), snip(20, "y")])],
        vec![],
        vec![],
    );
    let dep = vec![vec![m(8, 3), m(6, 3)]];
    apply_diff_budget(&mut ctx, 10, &dep, &vec![]);
    assert_eq!(starts(&ctx.dependent_files[0]), vec![20]);
    assert_eq!(ctx.total_tokens, 6);
}

#[test]
fn budget_smaller_than_the_changed_files_keeps_only_them() {
    let mut ctx = context(
        vec![file("src/lib.rs", 200, vec![snip(1, "changed symbol: f")])],
        vec![file("src/a.rs", 3, vec![snip(1, "dependent symbol: a")])],
        vec![file("tests/t.rs", 3, vec![snip(1, "diff hunk")])],
        vec![symbol("a", "src/a.rs")],
    );
    apply_diff_budget(&mut ctx, 100, &vec![vec![m(3, 1)]], &vec![vec![m(3, 1)]]);
    assert!(ctx.dependent_files.is_empty());
    assert!(ctx.related_tests.is_empty());
    assert!(ctx.dependent_symbols.is_empty());
    assert_eq!(ctx.changed_files[0].snippets.len(), 1);
    assert_eq!(ctx.total_tokens, 200);
}

#[test]
fn zero_budget_keeps_every_file_and_adds_up_the_tokens() {
    let mut ctx = context(
        vec![file("src/lib.rs", 20, vec![])],
        vec![file("src/a.rs", 30, vec![snip(1, "dependent symbol: a")]), file("src/e.rs", 0, vec![])],
        vec![file("tests/t.rs", 5, vec![])],
        vec![symbol("a", "src/a.rs"), symbol("gone", "src/gone.rs")],
    );
    apply_diff_budget(&mut ctx, 0, &vec![vec![m(30, 1)], vec![]], &vec![vec![]]);
    assert_eq!(ctx.dependent_files.len(), 2);
    assert_eq!(ctx.related_tests.len(), 1);
    assert_eq!(ctx.dependent_symbols.len(), 1);
    assert_eq!(ctx.dependent_symbols[0].name, "a");
    assert_eq!(ctx.total_tokens, 55);
}

#[test]
fn reason_bonuses() {
    assert_eq!(snippet_reason_bonus("changed symbol: parse"), 30);
    assert_eq!(snippet_reason_bonus("references changed symbol: parse"), 30);
    assert_eq!(snippet_reason_bonus("dependent symbol: run"), 20);
    assert_eq!(snippet_reason_bonus("diff hunk; dependent symbol: run"), 20);
    assert_eq!(snippet_reason_bonus("diff hunk"), 10);
    assert_eq!(snippet_reason_bonus("file removed"), 25);
    assert_eq!(snippet_reason_bonus("something else"), 0);
}
