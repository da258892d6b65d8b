use infiniloom_cli::impact_text::{
    file_heading, file_impact_lines, symbol_heading, symbol_impact_lines, FileSymbol, SymbolRef,
};

fn r(name: &str, path: &str) -> Option<SymbolRef> {
    Some(SymbolRef { name: name.to_owned(), path: path.to_owned() })
}

#[test]
fn callers_are_listed_up_to_the_limit() {
    let callers = vec![r("a", "src/a.rs"), None, r("c", "src/c.rs"), r("d", "src/d.rs")];
    let callees = vec![r("x", "src/x.rs")];
    assert_eq!(
        symbol_impact_lines(&callers, &callees, false, 3),
        "  Called by (4):\n    • a (src/a.rs)\n    • c (src/c.rs)\n    ... and 1 more\n"
    );
    assert_eq!(
        symbol_impact_lines(&vec![r("a", "src/a.rs")], &callees, true, 10),
        "  Called by (1):\n    • a (src/a.rs)\n  Calls (1):\n    • x (src/x.rs)\n"
    );
    assert_eq!(symbol_impact_lines(&vec![], &vec![], true, 10), "");
}

#[test]
fn file_symbols_and_importers() {
    let symbols = vec![
        FileSymbol { name: "main".to_owned(), kind: "function".to_owned(), line: 3 },
        FileSymbol { name: "Config".to_owned(), kind: "struct".to_owned(), line: 20 },
    ];
    let importers = vec![Some("src/lib.rs".to_owned()), None];
    assert_eq!(
        file_impact_lines(&symbols, &importers, 1),
        "  Symbols (2):\n    • main (function) L3\n    ... and 1 more\n  Imported by (2):\n    • src/lib.rs\n    ... and 1 more\n"
    );
    assert_eq!(file_impact_lines(&vec![], &importers, 5), "  Imported by (2):\n    • src/lib.rs\n");
}

#[test]
fn headings() {
    assert_eq!(
        symbol_heading(&"parse".to_owned(), &"function".to_owned(), &"src/p.rs".to_owned(), 12),
        "parse (function) in src/p.rs:12"
    );
    assert_eq!(
        file_heading(&"src/p.rs".to_owned(), &"rust".to_owned(), 120, 900),
        "src/p.rs (rust, 120 lines, ~900 tokens)"
    );
}
