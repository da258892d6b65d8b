use infiniloom_cli::repo_metadata::{recalculate_metadata, ScannedFile, TokenCounts};

fn counts(n: u32) -> TokenCounts {
    TokenCounts {
        o200k: n,
        cl100k: n + 1,
        claude: n + 2,
        gemini: n,
        llama: n,
        mistral: n,
        deepseek: n,
        qwen: n,
        cohere: n,
        grok: n + 3,
    }
}

fn scanned(path: &str, language: Option<&str>, content: Option<&str>, size: u64, tokens: u32) -> ScannedFile {
    ScannedFile {
        relative_path: path.to_owned(),
        language: language.map(|l| l.to_owned()),
        content: content.map(|c| c.to_owned()),
        size_bytes: size,
        token_count: counts(tokens),
    }
}

#[test]
fn totals_languages_and_listing() {
    let files = vec![
        scanned("src/main.rs", Some("rust"), Some("fn main() {}\n"), 13, 5),
        scanned("docs/readme.md", Some("markdown"), None, 400, 2),
        scanned("src/lib.rs", Some("rust"), Some("a\nb\nc"), 5, 7),
        scanned("Makefile", None, Some("all:\n"), 5, 1),
    ];
    let meta = recalculate_metadata(&files);
    assert_eq!(meta.total_files, 4);
    assert_eq!(meta.total_lines, 1 + 10 + 3 + 1);
    assert_eq!(meta.total_tokens.o200k, 15);
    assert_eq!(meta.total_tokens.cl100k, 19);
    assert_eq!(meta.total_tokens.claude, 23);
    assert_eq!(meta.total_tokens.grok, 27);
    let langs: Vec<(&str, u32, u64)> =
        meta.languages.iter().map(|l| (l.language.as_str(), l.files, l.lines)).collect();
    assert_eq!(langs, vec![("rust", 2, 4), ("markdown", 1, 10)]);
    assert_eq!(
        meta.directory_structure.as_deref(),
        Some("Makefile\ndocs/readme.md\nsrc/lib.rs\nsrc/main.rs")
    );
}

#[test]
fn languages_with_as_many_files_keep_their_first_order() {
    let files = vec![
        scanned("b.py", Some("python"), Some("x = 1"), 5, 1),
        scanned("a.go", Some("go"), Some("package a"), 9, 1),
        scanned("c.go", Some("go"), Some("package c"), 9, 1),
        scanned("d.py", Some("python"), Some("y = 2"), 5, 1),
        scanned("e.rb", Some("ruby"), None, 80, 1),
    ];
    let meta = recalculate_metadata(&files);
    let langs: Vec<&str> = meta.languages.iter().map(|l| l.language.as_str()).collect();
    assert_eq!(langs, vec!["python", "go", "ruby"]);
    assert_eq!(meta.languages[2].lines, 2);
    assert_eq!(meta.directory_structure.as_deref(), Some("a.go\nb.py\nc.go\nd.py\ne.rb"));
}

#[test]
fn no_files_no_totals() {
    let meta = recalculate_metadata(&vec![]);
    assert_eq!(meta.total_files, 0);
    assert_eq!(meta.total_lines, 0);
    assert!(meta.languages.is_empty());
    assert_eq!(meta.directory_structure.as_deref(), Some(""));
}
