use infiniloom_cli::compression::{is_inside_string, remove_comments_from_content, remove_empty_lines_from_content, extract_signatures_heuristic};
use infiniloom_cli::escape::{escape_xml_text, escape_yaml_string, append_yaml_block};

#[test]
fn tests_test_is_inside_string_double_quotes_open() {
    assert!(is_inside_string("\"hello"));
}

#[test]
fn tests_test_is_inside_string_double_quotes_closed() {
    assert!(!is_inside_string("\"hello\""));
}

#[test]
fn tests_test_is_inside_string_single_quotes_open() {
    assert!(is_inside_string("'hello"));
}

#[test]
fn tests_test_is_inside_string_single_quotes_closed() {
    assert!(!is_inside_string("'hello'"));
}

#[test]
fn tests_test_is_inside_string_escaped_quote() {
    assert!(is_inside_string("\"hello\\\"")); // Ends with escaped quote, still open
}

#[test]
fn tests_test_is_inside_string_escaped_then_close() {
    assert!(!is_inside_string("\"hello\\\"world\"")); // Escaped quote then closing
}

#[test]
fn tests_test_is_inside_string_nested_quotes() {
    assert!(!is_inside_string("\"it's a test\"")); // Single inside double
    assert!(!is_inside_string("'he said \"hi\"'")); // Double inside single
}

#[test]
fn tests_test_is_inside_string_empty() {
    assert!(!is_inside_string(""));
}

#[test]
fn tests_test_is_inside_string_no_quotes() {
    assert!(!is_inside_string("hello world"));
}

#[test]
fn tests_test_remove_empty_lines_basic() {
    let input = "line1\n\nline2\n\n\nline3";
    let result = remove_empty_lines_from_content(input, false);
    assert_eq!(result, "line1\nline2\nline3");
}

#[test]
fn tests_test_remove_empty_lines_preserve_numbers() {
    // Line numbers are 1-indexed from original positions
    // line1 at index 0 -> "1:line1", line2 at index 2 -> "3:line2", line3 at index 4 -> "5:line3"
    let input = "line1\n\nline2\n\nline3";
    let result = remove_empty_lines_from_content(input, true);
    assert!(result.contains("1:line1"));
    assert!(result.contains("3:line2")); // Original line 3 (index 2)
    assert!(result.contains("5:line3")); // Original line 5 (index 4)
}

#[test]
fn tests_test_remove_empty_lines_with_embedded_numbers() {
    let input = "1:code here\n2:\n3:more code";
    let result = remove_empty_lines_from_content(input, true);
    assert!(result.contains("1:code here"));
    assert!(result.contains("3:more code"));
    assert!(!result.contains("2:"));
}

#[test]
fn tests_test_remove_empty_lines_whitespace_only() {
    let input = "line1\n   \nline2\n\t\nline3";
    let result = remove_empty_lines_from_content(input, false);
    assert_eq!(result, "line1\nline2\nline3");
}

#[test]
fn tests_test_remove_comments_python() {
    let input = "# comment\ncode = 1\n# another comment\nmore_code = 2";
    let result = remove_comments_from_content(input, "python", false);
    assert!(result.contains("code = 1"));
    assert!(result.contains("more_code = 2"));
    assert!(!result.contains("# comment"));
}

#[test]
fn tests_test_remove_comments_rust_line() {
    let input = "// comment\nlet x = 1;\n// another\nlet y = 2;";
    let result = remove_comments_from_content(input, "rust", false);
    assert!(result.contains("let x = 1;"));
    assert!(result.contains("let y = 2;"));
    assert!(!result.contains("// comment"));
}

#[test]
fn tests_test_remove_comments_rust_block() {
    let input = "/* block comment */\nlet x = 1;";
    let result = remove_comments_from_content(input, "rust", false);
    assert!(result.contains("let x = 1;"));
    assert!(!result.contains("block comment"));
}

#[test]
fn tests_test_remove_comments_javascript() {
    let input = "// single\nconst x = 1;\n/* multi\nline */\nconst y = 2;";
    let result = remove_comments_from_content(input, "javascript", false);
    assert!(result.contains("const x = 1;"));
    assert!(result.contains("const y = 2;"));
    assert!(!result.contains("single"));
    assert!(!result.contains("multi"));
}

#[test]
fn tests_test_remove_comments_html() {
    let input = "<!-- comment -->\n<div>content</div>";
    let result = remove_comments_from_content(input, "html", false);
    assert!(result.contains("<div>content</div>"));
    assert!(!result.contains("comment"));
}

#[test]
fn tests_test_remove_comments_sql() {
    let input = "-- comment\nSELECT * FROM table;\n/* block */\nUPDATE table;";
    let result = remove_comments_from_content(input, "sql", false);
    assert!(result.contains("SELECT * FROM table;"));
    assert!(result.contains("UPDATE table;"));
    assert!(!result.contains("-- comment"));
}

#[test]
fn tests_test_remove_comments_preserves_string_comments() {
    let input = "let x = \"// not a comment\";\nlet y = 1;";
    let result = remove_comments_from_content(input, "rust", false);
    assert!(result.contains("\"// not a comment\""));
}

#[test]
fn tests_test_remove_comments_inline() {
    let input = "let x = 1; // inline comment";
    let result = remove_comments_from_content(input, "rust", false);
    assert!(result.contains("let x = 1;"));
    assert!(!result.contains("inline comment"));
}

#[test]
fn tests_test_extract_signatures_rust() {
    let content =
        "fn main() {\n    println!(\"hello\");\n}\n\nfn helper() {\n    // do something\n}";
    let result = extract_signatures_heuristic(content, "rust");
    assert!(result.contains("fn main()"));
    assert!(result.contains("fn helper()"));
}

#[test]
fn tests_test_extract_signatures_python() {
    let content = "def main():\n    print('hello')\n\ndef helper():\n    pass\n\nclass MyClass:\n    pass";
    let result = extract_signatures_heuristic(content, "python");
    assert!(result.contains("def main()"));
    assert!(result.contains("def helper()"));
    assert!(result.contains("class MyClass"));
}

#[test]
fn tests_test_extract_signatures_javascript() {
    let content = "function main() {\n    console.log('hi');\n}\n\nconst helper = () => {};\n\nclass MyClass {}";
    let result = extract_signatures_heuristic(content, "javascript");
    assert!(result.contains("function main()"));
    assert!(result.contains("class MyClass"));
}

#[test]
fn tests_test_extract_signatures_typescript() {
    // TypeScript patterns: function, class, const, let, export, async
    let content = "function main(): void {\n}\n\nclass Config {\n    name: string;\n}\n\nconst result = { ok: true };";
    let result = extract_signatures_heuristic(content, "typescript");
    assert!(result.contains("function main()"));
    assert!(result.contains("class Config"));
    assert!(result.contains("const result"));
}

#[test]
fn tests_test_extract_signatures_go() {
    let content = "func main() {\n}\n\ntype Config struct {\n    Name string\n}";
    let result = extract_signatures_heuristic(content, "go");
    assert!(result.contains("func main()"));
    assert!(result.contains("type Config struct"));
}

#[test]
fn tests_test_extract_signatures_empty() {
    let result = extract_signatures_heuristic("", "rust");
    assert!(result.is_empty());
}

#[test]
fn tests_test_append_yaml_block_single_line() {
    let mut output = String::new();
    append_yaml_block(&mut output, "header", "Hello World");
    assert!(output.contains("\nheader: |\n"));
    assert!(output.contains("  Hello World\n"));
}

#[test]
fn tests_test_append_yaml_block_multi_line() {
    let mut output = String::new();
    append_yaml_block(&mut output, "description", "Line 1\nLine 2\nLine 3");
    assert!(output.contains("\ndescription: |\n"));
    assert!(output.contains("  Line 1\n"));
    assert!(output.contains("  Line 2\n"));
    assert!(output.contains("  Line 3\n"));
}

#[test]
fn tests_test_remove_comments_then_empty_lines() {
    let input = "// comment\nlet x = 1;\n\n// another\nlet y = 2;\n\n";
    let without_comments = remove_comments_from_content(input, "rust", false);
    let result = remove_empty_lines_from_content(&without_comments, false);
    assert!(result.contains("let x = 1;"));
    assert!(result.contains("let y = 2;"));
    // Should not have empty lines or comments
    assert!(!result.contains("//"));
}

#[test]
fn tests_test_escape_chain() {
    // Test escaping special chars for XML then YAML
    let input = "foo & <bar> \"test\"";
    let xml_escaped = escape_xml_text(input);
    assert!(xml_escaped.contains("&amp;"));
    assert!(xml_escaped.contains("&lt;"));
    assert!(xml_escaped.contains("&quot;"));

    let yaml_escaped = escape_yaml_string(input);
    assert!(yaml_escaped.starts_with('"'));
    assert!(yaml_escaped.ends_with('"'));
    assert!(yaml_escaped.contains("\\\""));
}
