use infiniloom_cli::symbol_compression::{
    extract_key_symbols_focused, extract_key_symbols_only, extract_signatures_only, Symbol, SymbolKind,
};

fn sym(name: &str, kind: SymbolKind, private: bool, start: u32, end: u32, sig: Option<&str>, doc: Option<&str>) -> Symbol {
    let kind_name = match kind {
        SymbolKind::Function => "function",
        SymbolKind::Struct => "struct",
        SymbolKind::Import => "import",
        _ => "other",
    };
    Symbol {
        name: name.to_owned(),
        kind,
        kind_name: kind_name.to_owned(),
        is_private: private,
        start_line: start,
        end_line: end,
        signature: sig.map(|s| s.to_owned()),
        docstring: doc.map(|s| s.to_owned()),
    }
}

#[test]
fn test_wrapper_extract_signatures() {
    let content = "fn foo() {\n    body\n}\n";
    let result = extract_signatures_only(content, "rust", &vec![]);
    // Should fall back to heuristic
    assert!(result.contains("fn foo()"));
}

#[test]
fn test_wrapper_extract_key_symbols() {
    let content = "fn foo() {}\nfn bar() {}\n";
    let result = extract_key_symbols_only(content, "rust", &vec![]);
    assert!(result.contains("fn foo()"));
}

#[test]
fn test_wrapper_extract_key_symbols_focused() {
    let content = "fn foo() {\n    body\n}\n";
    let result = extract_key_symbols_focused(content, "rust", &vec![]);
    assert!(result.contains("fn foo()"));
}

const CODE: &str = "use x;\n/// adds\nfn add(a: i32) -> i32 {\n    a + 1\n}\nstruct P;\nfn helper() {}\n";

#[test]
fn signatures_use_signature_or_line_once_and_docs() {
    let syms = vec![
        sym("add", SymbolKind::Function, false, 3, 5, Some("fn add(a: i32) -> i32"), Some("adds")),
        sym("P", SymbolKind::Struct, false, 6, 6, None, None),
        sym("P2", SymbolKind::Struct, false, 6, 6, None, Some("")),
    ];
    assert_eq!(extract_signatures_only(CODE, "rust", &syms), "fn add(a: i32) -> i32\n  // adds\nstruct P;\n");
}

#[test]
fn signatures_fall_back_when_symbols_give_nothing() {
    let syms = vec![sym("ghost", SymbolKind::Function, false, 99, 99, None, None)];
    assert_eq!(extract_signatures_only("fn a() {}\nlet x = 1;\n", "rust", &syms), "fn a() {}\n");
}

#[test]
fn key_symbols_prefer_public_key_kinds() {
    let syms = vec![
        sym("x", SymbolKind::Import, false, 1, 1, None, None),
        sym("add", SymbolKind::Function, false, 3, 5, None, None),
        sym("helper", SymbolKind::Function, true, 7, 7, None, None),
    ];
    assert_eq!(extract_key_symbols_only(CODE, "rust", &syms), "// function: add\nfn add(a: i32) -> i32 {\n");
}

#[test]
fn key_symbols_without_key_kinds_skip_imports() {
    let syms = vec![
        sym("x", SymbolKind::Import, false, 1, 1, None, None),
        sym("helper", SymbolKind::Function, true, 7, 7, Some("fn helper()"), None),
    ];
    assert_eq!(extract_key_symbols_only(CODE, "rust", &syms), "// function: helper\nfn helper()\n");
}

#[test]
fn focused_symbols_show_code_around_them() {
    let syms = vec![
        sym("add", SymbolKind::Function, false, 3, 5, None, None),
        sym("P", SymbolKind::Struct, false, 6, 6, None, None),
        sym("far", SymbolKind::Function, false, 0, 0, Some("  fn far()  "), None),
    ];
    let expected = "// Focused symbols: function: add, struct: P\nuse x;\n/// adds\nfn add(a: i32) -> i32 {\n    a + 1\n}\nstruct P;\nfn helper() {}\n\n// Additional signatures\n// function: far\nfn far()\n";
    assert_eq!(extract_key_symbols_focused(CODE, "rust", &syms), expected);
}

#[test]
fn focused_empty_file_is_empty() {
    let syms = vec![sym("a", SymbolKind::Function, false, 1, 1, None, None)];
    assert_eq!(extract_key_symbols_focused("", "rust", &syms), "");
}
