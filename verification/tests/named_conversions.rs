use infiniloom_cli::chunks::{file_priority_score, lowercase_path_priority};
use infiniloom_cli::compression::{replace_base64_pieces, truncate_base64_content};
use infiniloom_cli::config::{parse_size_string, upper_size_string_bytes};
use infiniloom_cli::models::{lowercase_format_name, parse_output_format, OutputFormat};

fn chars(s: &str) -> Vec<char> {
    s.chars().collect()
}

#[test]
fn priority_after_lowercasing() {
    assert_eq!(lowercase_path_priority("src/main.rs"), 100);
    assert_eq!(lowercase_path_priority("SRC/MAIN.RS"), 50);
    assert_eq!(file_priority_score("SRC/MAIN.RS"), 100);
    assert_eq!(lowercase_path_priority("docs/guide.md"), 10);
}

#[test]
fn format_names_after_lowercasing() {
    assert_eq!(lowercase_format_name("markdown"), OutputFormat::Markdown);
    assert_eq!(lowercase_format_name("MARKDOWN"), OutputFormat::Xml);
    assert_eq!(parse_output_format("MARKDOWN"), OutputFormat::Markdown);
    assert_eq!(parse_output_format("Yml"), OutputFormat::Yaml);
}

#[test]
fn sizes_after_uppercasing() {
    assert_eq!(upper_size_string_bytes("10MB"), Some(10 * 1024 * 1024));
    assert_eq!(upper_size_string_bytes("10mb"), Some(50 * 1024 * 1024));
    assert_eq!(upper_size_string_bytes("18446744073709551615KB"), None);
    assert_eq!(parse_size_string("10mb"), 10 * 1024 * 1024);
    assert_eq!(parse_size_string(" 2 gb "), 2 * 1024 * 1024 * 1024);
}

#[test]
fn base64_pieces_are_put_back_together() {
    let long = "A".repeat(120) + "+/";
    let pieces = vec![
        (chars("img "), chars("data:image/png;base64,AAAA")),
        (chars(" and "), chars(&long)),
    ];
    let out = replace_base64_pieces(&pieces, &chars(" end"));
    let expected = format!(
        "img data:image/png;base64,[BASE64_TRUNCATED] and {}...[BASE64_TRUNCATED] end",
        "A".repeat(50)
    );
    assert_eq!(out, expected);
    let content = format!("x data:image/png;base64,{} y", "QUJD".repeat(10));
    assert_eq!(truncate_base64_content(&content), "x data:image/png;base64,[BASE64_TRUNCATED] y");
}

#[test]
fn size_strings_ignore_case_and_surrounding_spaces() {
    assert_eq!(parse_size_string(" 10mb "), 10485760);
    assert_eq!(parse_size_string("10MB"), 10485760);
    assert_eq!(parse_size_string("5 gb"), 5368709120);
    assert_eq!(parse_size_string("5 gb"), parse_size_string(&"5 gb".trim().to_uppercase()));
    assert_eq!(parse_size_string("7Kb"), parse_size_string("7KB"));
}

#[test]
fn priority_ignores_letter_case() {
    for p in ["Cargo.Toml", "SRC/LIB.RS", "Tests/Test_Main.PY", "docs/README.MD", "x/Api/y.rs"] {
        assert_eq!(file_priority_score(p), file_priority_score(&p.to_lowercase()));
    }
    assert_eq!(file_priority_score("Cargo.Toml"), 90);
    assert_eq!(file_priority_score("SRC/LIB.RS"), 80);
    assert_eq!(file_priority_score("test_main.py"), 100);
}
