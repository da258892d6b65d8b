use infiniloom_cli::diff_output::{
    diff_preamble, format_diff_context, format_diff_context_markdown, format_diff_context_plain, format_diff_context_toon,
    format_diff_context_xml, format_diff_context_yaml, CallChain, Commit, ContextFile, ContextSymbol,
    DiffSnippet, ExpandedContext, FileCommits, ImpactSummary,
};
use infiniloom_cli::models::OutputFormat;

fn impact(level: &str) -> ImpactSummary {
    ImpactSummary {
        level: level.to_owned(),
        description: String::new(),
        direct_files: 0,
        transitive_files: 0,
        affected_symbols: 0,
        affected_tests: 0,
    }
}

fn create_test_context_file(path: &str, tokens: u32) -> ContextFile {
    ContextFile {
        path: path.to_owned(),
        language: "rust".to_owned(),
        relevance_reason: "test".to_owned(),
        relevance: "1.00".to_owned(),
        relevance_short: "1.0".to_owned(),
        tokens,
        diff_content: None,
        snippets: vec![],
    }
}

fn empty_context(level: &str, total_tokens: u32) -> ExpandedContext {
    ExpandedContext {
        changed_files: vec![],
        changed_symbols: vec![],
        dependent_files: vec![],
        dependent_symbols: vec![],
        related_tests: vec![],
        call_chains: vec![],
        impact_summary: impact(level),
        total_tokens,
    }
}

fn snippet(start: u32, end: u32, reason: &str, content: &str) -> DiffSnippet {
    DiffSnippet { start_line: start, end_line: end, reason: reason.to_owned(), content: content.to_owned() }
}

fn sample_context() -> ExpandedContext {
    let mut changed = create_test_context_file("src/lib.rs", 42);
    changed.diff_content = Some("+fn a() {}".to_owned());
    changed.snippets = vec![snippet(3, 5, "changed \"a\"", "fn a() {}\n")];
    let mut test = create_test_context_file("tests/a.rs", 7);
    test.snippets = vec![snippet(1, 1, "calls a", "a();")];
    ExpandedContext {
        changed_files: vec![changed],
        changed_symbols: vec![ContextSymbol {
            name: "a".to_owned(),
            kind: "function".to_owned(),
            file_path: "src/lib.rs".to_owned(),
            start_line: 3,
            relevance_reason: String::new(),
            relevance: "0.00".to_owned(),
            relevance_short: "0.0".to_owned(),
        }],
        dependent_files: vec![],
        dependent_symbols: vec![ContextSymbol {
            name: "b".to_owned(),
            kind: "function".to_owned(),
            file_path: "src/b.rs".to_owned(),
            start_line: 9,
            relevance_reason: "calls a".to_owned(),
            relevance: "0.75".to_owned(),
            relevance_short: "0.8".to_owned(),
        }],
        related_tests: vec![test],
        call_chains: vec![CallChain { symbols: vec!["b".to_owned(), "a".to_owned()] }],
        impact_summary: ImpactSummary {
            level: "low".to_owned(),
            description: "One function".to_owned(),
            direct_files: 1,
            transitive_files: 2,
            affected_symbols: 3,
            affected_tests: 1,
        },
        total_tokens: 49,
    }
}

fn sample_history() -> Vec<FileCommits> {
    vec![FileCommits {
        path: "src/lib.rs".to_owned(),
        commits: vec![Commit {
            short_hash: "abc1234".to_owned(),
            author: "Ann".to_owned(),
            date: "2024-01-02".to_owned(),
            message: "Add a".to_owned(),
        }],
    }]
}

#[test]
fn test_diff_preamble() {
    let context = empty_context("low", 1000);
    let preamble = diff_preamble(&context);
    // The preamble describes how to use the context
    assert!(preamble.contains("diff context"));
    assert!(preamble.contains("Impact"));
}

#[test]
fn test_diff_preamble_with_content() {
    let mut context = empty_context("medium", 500);
    context.changed_files = vec![
        create_test_context_file("src/main.rs", 100),
        create_test_context_file("src/lib.rs", 200),
    ];
    context.dependent_files = vec![create_test_context_file("src/utils.rs", 50)];
    context.related_tests = vec![create_test_context_file("tests/test.rs", 150)];
    let preamble = diff_preamble(&context);
    assert!(preamble.contains("medium"));
}

const PREAMBLE: &str = "Use this diff context to understand changes. Start with changed file snippets, then dependent symbols/files/tests. Impact: low.";

#[test]
fn markdown_rendering_exact() {
    let out = format_diff_context_markdown(&sample_context(), &sample_history());
    let expected = [
        "# Diff Context\n\n> {PRE}\n\n## Impact Summary\n\n**Level:** low\n\nOne function\n\n",
        "- Direct files: 1\n- Transitive files: 2\n- Affected symbols: 3\n- Affected tests: 1\n- Total tokens: 49\n\n",
        "## Changed Files\n\n### `src/lib.rs`\n\n- Language: rust\n- Tokens: 42\n\n",
        "**Recent History**\n\n| Commit | Author | Date | Message |\n|--------|--------|------|--------|\n",
        "| `abc1234` | Ann | 2024-01-02 | Add a |\n\n",
        "```diff\n+fn a() {}\n```\n\n**Snippets**\n\n- changed \"a\" (lines 3-5)\n\n```text\nfn a() {}\n```\n\n",
        "## Changed Symbols\n\n| Symbol | Kind | File | Line |\n|--------|------|------|------|\n| `a` | function | src/lib.rs | 3 |\n\n",
        "## Dependent Symbols\n\n| Symbol | Kind | File | Line | Relevance |\n|--------|------|------|------|-----------|\n",
        "| `b` | function | src/b.rs | 9 | 0.75 |\n\n",
        "## Related Tests\n\n### `tests/a.rs`\n\n- calls a (lines 1-1)\n\n```text\na();\n```\n\n",
        "## Call Graph\n\n- b → a\n\n",
        ].concat().replace("{PRE}", PREAMBLE);
    assert_eq!(out, expected);
}

#[test]
fn markdown_test_without_snippets_says_so() {
    let mut context = empty_context("low", 0);
    context.related_tests = vec![create_test_context_file("tests/x.rs", 1)];
    let out = format_diff_context_markdown(&context, &vec![]);
    assert!(out.ends_with("## Related Tests\n\n### `tests/x.rs`\n\n- No focused snippets selected\n\n"));
}

#[test]
fn yaml_rendering_exact() {
    let out = format_diff_context_yaml(&sample_context(), &sample_history());
    let expected = [
        "# Diff Context\n\npreamble: |\n  {PRE}\n\nimpact:\n  level: low\n  description: \"One function\"\n",
        "  direct_files: 1\n  transitive_files: 2\n  affected_symbols: 3\n  affected_tests: 1\ntotal_tokens: 49\n\n",
        "changed_files:\n  - path: \"src/lib.rs\"\n    language: rust\n    tokens: 42\n",
        "    history:\n      - hash: \"abc1234\"\n        author: \"Ann\"\n        date: \"2024-01-02\"\n        message: \"Add a\"\n",
        "    diff: |\n      +fn a() {}\n",
        "    snippets:\n      - start_line: 3\n        end_line: 5\n        reason: \"changed \\\"a\\\"\"\n        content: |\n          fn a() {}\n",
        "\nchanged_symbols:\n  - name: \"a\"\n    kind: function\n    file: \"src/lib.rs\"\n    line: 3\n",
        "\ndependent_symbols:\n  - name: \"b\"\n    kind: function\n    file: \"src/b.rs\"\n    line: 9\n    reason: \"calls a\"\n    relevance: 0.75\n",
        "\nrelated_tests:\n  - path: \"tests/a.rs\"\n    snippets:\n      - start_line: 1\n        end_line: 1\n        reason: \"calls a\"\n        content: |\n          a();\n",
        "\ncall_chains:\n  - \"b → a\"\n",
        ].concat().replace("{PRE}", PREAMBLE);
    assert_eq!(out, expected);
}

#[test]
fn toon_rendering_exact() {
    let out = format_diff_context_toon(&sample_context(), &sample_history());
    let expected = [
        "DIFF|low|d1t2s3T49\nPRE|{PRE}\nFILES:\nF|src/lib.rs|rust|42\nH|abc1234|Ann|2024-01-02|Add a\n",
        "D{\n+fn a() {}\n}D\nN|3|5|changed \"a\"\nC{\nfn a() {}\n}C\n",
        "SYMS:\nS|a|function|src/lib.rs|3\nDEPSYMS:\nS|b|function|src/b.rs|9|0.8\n",
        "TESTS:\nT|tests/a.rs\nN|1|1|calls a\nC{\na();\n}C\n",
        ].concat().replace("{PRE}", PREAMBLE);
    assert_eq!(out, expected);
}

#[test]
fn plain_rendering_exact() {
    let out = format_diff_context_plain(&sample_context(), &sample_history());
    let expected = [
        "=== DIFF CONTEXT ===\n\n{PRE}\n\nImpact: low - One function\n",
        "Stats: 1 direct files, 2 transitive, 3 symbols, 1 tests\nTotal tokens: 49\n\n--- CHANGED FILES ---\n",
        "\nsrc/lib.rs (rust, 42 tokens)\nRecent history:\n  abc1234 (Ann, 2024-01-02) Add a\n+fn a() {}\n",
        "Snippets:\n- changed \"a\" (lines 3-5)\nfn a() {}\n",
        "\n--- CHANGED SYMBOLS ---\na (function) in src/lib.rs line 3\n",
        "\n--- DEPENDENT SYMBOLS ---\nb (function) in src/b.rs line 9 (relevance: 0.75)\n",
        "\n--- RELATED TESTS ---\ntests/a.rs\nSnippets:\n- calls a (lines 1-1)\na();\n",
        ].concat().replace("{PRE}", PREAMBLE);
    assert_eq!(out, expected);
}

#[test]
fn xml_rendering_exact() {
    let out = format_diff_context_xml(&sample_context(), &sample_history());
    let expected = [
        "<?xml version=\"1.0\" encoding=\"UTF-8\"?>\n<diff_context>\n  <summary>\n    <preamble>{PRE}</preamble>\n",
        "    <impact level=\"low\">One function</impact>\n    <stats files=\"3\" symbols=\"3\" tests=\"1\"/>\n  </summary>\n",
        "  <changed_files>\n    <file path=\"src/lib.rs\" language=\"rust\" tokens=\"42\">\n",
        "      <history>\n        <commit hash=\"abc1234\" date=\"2024-01-02\" author=\"Ann\">\n          Add a\n        </commit>\n      </history>\n",
        "      <diff>\n<![CDATA[\n+fn a() {}]]>\n      </diff>\n",
        "      <snippets>\n        <snippet start=\"3\" end=\"5\" reason=\"changed &quot;a&quot;\">\n<![CDATA[\nfn a() {}\n]]>\n        </snippet>\n      </snippets>\n",
        "    </file>\n  </changed_files>\n",
        "  <changed_symbols>\n    <symbol name=\"a\" kind=\"function\" file=\"src/lib.rs\" line=\"3\"/>\n  </changed_symbols>\n",
        "  <dependent_symbols>\n    <symbol name=\"b\" kind=\"function\" file=\"src/b.rs\" line=\"9\" relevance=\"0.75\" reason=\"calls a\"/>\n  </dependent_symbols>\n",
        "  <related_tests>\n    <test path=\"tests/a.rs\">\n      <snippets>\n        <snippet start=\"1\" end=\"1\" reason=\"calls a\">\n<![CDATA[\na();]]>\n        </snippet>\n      </snippets>\n    </test>\n  </related_tests>\n",
        "  <call_graph>\n    <chain>b → a</chain>\n  </call_graph>\n</diff_context>\n",
        ].concat().replace("{PRE}", PREAMBLE);
    assert_eq!(out, expected);
}

#[test]
fn xml_file_without_details_is_an_empty_element() {
    let mut context = empty_context("high", 5);
    context.changed_files = vec![create_test_context_file("a.rs", 5)];
    context.dependent_files = vec![create_test_context_file("b.rs", 1)];
    let out = format_diff_context_xml(&context, &vec![]);
    assert!(out.contains("    <file path=\"a.rs\" language=\"rust\" tokens=\"5\"/>\n"));
    assert!(out.contains("  <dependent_files>\n    <file path=\"b.rs\" reason=\"test\" relevance=\"1.00\"/>\n  </dependent_files>\n"));
    assert!(!out.contains("<call_graph>"));
}

#[test]
fn format_choice_dispatches_and_leaves_json_out() {
    let ctx = sample_context();
    let history = sample_history();
    assert_eq!(
        format_diff_context(&ctx, OutputFormat::Plain, &history),
        Some(format_diff_context_plain(&ctx, &history))
    );
    assert_eq!(
        format_diff_context(&ctx, OutputFormat::Xml, &history),
        Some(format_diff_context_xml(&ctx, &history))
    );
    assert_eq!(format_diff_context(&ctx, OutputFormat::Json, &history), None);
}
