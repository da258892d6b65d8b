use infiniloom_cli::chunks::{file_priority_score, generate_chunk_summary, ChunkOutline};
use infiniloom_cli::models::{format_extension, OutputFormat};

#[test]
fn test_file_priority_entry_points_rust() {
    assert_eq!(file_priority_score("src/main.rs") as f64, 100.0);
    assert_eq!(file_priority_score("main.rs") as f64, 100.0);
}

#[test]
fn test_file_priority_entry_points_python() {
    assert_eq!(file_priority_score("main.py") as f64, 100.0);
    assert_eq!(file_priority_score("src/__main__.py") as f64, 100.0);
}

#[test]
fn test_file_priority_entry_points_javascript() {
    assert_eq!(file_priority_score("index.ts") as f64, 100.0);
    assert_eq!(file_priority_score("index.js") as f64, 100.0);
    assert_eq!(file_priority_score("app.ts") as f64, 100.0);
    assert_eq!(file_priority_score("app.js") as f64, 100.0);
}

#[test]
fn test_file_priority_entry_points_other() {
    assert_eq!(file_priority_score("main.go") as f64, 100.0);
    assert_eq!(file_priority_score("main.java") as f64, 100.0);
}

#[test]
fn test_file_priority_config_files() {
    assert_eq!(file_priority_score("Cargo.toml") as f64, 90.0);
    assert_eq!(file_priority_score("package.json") as f64, 90.0);
    assert_eq!(file_priority_score("pyproject.toml") as f64, 90.0);
    assert_eq!(file_priority_score("go.mod") as f64, 90.0);
    assert_eq!(file_priority_score("pom.xml") as f64, 90.0);
    assert_eq!(file_priority_score("build.gradle") as f64, 90.0);
}

#[test]
fn test_file_priority_core_modules() {
    assert_eq!(file_priority_score("src/lib.rs") as f64, 80.0);
    assert_eq!(file_priority_score("src/mod.rs") as f64, 80.0);
    assert_eq!(file_priority_score("app/lib/utils.py") as f64, 80.0);
    // Note: "core/" at start doesn't match "/core/" pattern, needs slash before
    assert_eq!(file_priority_score("app/core/engine.rs") as f64, 80.0);
}

#[test]
fn test_file_priority_api_handlers() {
    assert_eq!(file_priority_score("src/api/users.rs") as f64, 75.0);
    assert_eq!(file_priority_score("app/handlers/auth.py") as f64, 75.0);
    // Note: "index.ts" would match entry point pattern first, use different filename
    assert_eq!(file_priority_score("server/routes/list.ts") as f64, 75.0);
    assert_eq!(file_priority_score("app/controllers/home.rb") as f64, 75.0);
    assert_eq!(file_priority_score("api/endpoints/data.go") as f64, 75.0);
}

#[test]
fn test_file_priority_source_code() {
    assert_eq!(file_priority_score("src/parser.rs") as f64, 60.0);
    assert_eq!(file_priority_score("app/src/module.py") as f64, 60.0);
}

#[test]
fn test_file_priority_tests() {
    // Note: paths starting with "src/" match source code (60.0) BEFORE test check
    // Note: paths with "/lib/" match core modules (80.0) BEFORE test check
    // Note: "test_main.py" ends with "main.py" which matches entry point (100.0)
    // Use paths that only match test patterns
    assert_eq!(file_priority_score("tests/test_parser.py") as f64, 20.0);
    assert_eq!(file_priority_score("pkg/parser_test.rs") as f64, 20.0);
    assert_eq!(file_priority_score("app.test.ts") as f64, 20.0);
    assert_eq!(file_priority_score("widget.spec.js") as f64, 20.0);
    assert_eq!(file_priority_score("test_utils.py") as f64, 20.0);
    assert_eq!(file_priority_score("handler_test.go") as f64, 20.0);
}

#[test]
fn test_file_priority_utilities() {
    // Note: paths starting with "src/" match source code (60.0) BEFORE utilities check
    // Note: paths with "/lib/", "/core/" match core modules (80.0) BEFORE utilities
    // Use paths that only match utilities patterns
    assert_eq!(file_priority_score("pkg/utils/helpers.rs") as f64, 30.0);
    assert_eq!(file_priority_score("app/helpers/string.py") as f64, 30.0);
    assert_eq!(file_priority_score("pkg/util/date.ts") as f64, 30.0);
    assert_eq!(file_priority_score("pkg/common/types.rs") as f64, 30.0);
    assert_eq!(file_priority_score("pkg/shared/constants.py") as f64, 30.0);
}

#[test]
fn test_file_priority_examples_docs() {
    // Note: paths need to contain "/examples/" etc. with leading slash
    // Paths like "examples/" at root don't have leading slash
    assert_eq!(file_priority_score("project/examples/basic.rs") as f64, 10.0);
    assert_eq!(file_priority_score("project/docs/api.md") as f64, 10.0);
    assert_eq!(file_priority_score("project/example/demo.py") as f64, 10.0);
    // .md files match via ends_with
    assert_eq!(file_priority_score("README.md") as f64, 10.0);
}

#[test]
fn test_file_priority_default() {
    assert_eq!(file_priority_score("some/random/file.rs") as f64, 50.0);
    assert_eq!(file_priority_score("data/config.json") as f64, 50.0);
}

#[test]
fn test_file_priority_case_insensitive() {
    // Function converts to lowercase before matching
    assert_eq!(file_priority_score("MAIN.RS") as f64, 100.0);
    assert_eq!(file_priority_score("Cargo.Toml") as f64, 90.0);
    assert_eq!(file_priority_score("SRC/LIB.RS") as f64, 80.0);
}

#[test]
fn test_format_extension_xml() {
    assert_eq!(format_extension(OutputFormat::Xml), "xml");
}

#[test]
fn test_format_extension_markdown() {
    assert_eq!(format_extension(OutputFormat::Markdown), "md");
}

#[test]
fn test_format_extension_json() {
    assert_eq!(format_extension(OutputFormat::Json), "json");
}

#[test]
fn test_format_extension_yaml() {
    assert_eq!(format_extension(OutputFormat::Yaml), "yaml");
}

#[test]
fn test_format_extension_toon() {
    assert_eq!(format_extension(OutputFormat::Toon), "toon");
}

#[test]
fn test_format_extension_plain() {
    assert_eq!(format_extension(OutputFormat::Plain), "txt");
}

fn create_test_chunk(
    index: usize,
    total: usize,
    focus: &str,
    tokens: u32,
    files: Vec<&str>,
    cross_refs: usize,
    has_overlap: bool,
) -> ChunkOutline {
    ChunkOutline {
        index,
        total,
        focus: focus.to_owned(),
        file_paths: files.into_iter().map(|f| f.to_owned()).collect(),
        tokens,
        cross_references: cross_refs,
        has_overlap,
    }
}

#[test]
fn test_generate_chunk_summary_basic() {
    let chunk = create_test_chunk(
        0,
        5,
        "Core module",
        1000,
        vec!["src/main.rs"],
        0,
        false,
    );
    let summary = generate_chunk_summary(&chunk);
    assert!(summary.contains("Chunk 1/5"));
    assert!(summary.contains("Core module"));
    assert!(summary.contains("main.rs"));
    assert!(summary.contains("1000 tokens"));
}

#[test]
fn test_generate_chunk_summary_multiple_files() {
    let chunk = create_test_chunk(
        2,
        10,
        "API handlers",
        2500,
        vec![
            "src/api/users.rs",
            "src/api/auth.rs",
            "src/api/posts.rs",
        ],
        0,
        false,
    );
    let summary = generate_chunk_summary(&chunk);
    assert!(summary.contains("Chunk 3/10"));
    assert!(summary.contains("users.rs"));
    assert!(summary.contains("auth.rs"));
    assert!(summary.contains("posts.rs"));
}

#[test]
fn test_generate_chunk_summary_more_than_5_files() {
    let chunk = create_test_chunk(
        0,
        3,
        "Large module",
        5000,
        vec![
            "file1.rs",
            "file2.rs",
            "file3.rs",
            "file4.rs",
            "file5.rs",
            "file6.rs",
            "file7.rs",
        ],
        0,
        false,
    );
    let summary = generate_chunk_summary(&chunk);
    assert!(summary.contains("+2 more"));
}

#[test]
fn test_generate_chunk_summary_no_files() {
    let chunk = create_test_chunk(0, 1, "Empty", 0, vec![], 0, false);
    let summary = generate_chunk_summary(&chunk);
    assert!(summary.contains("no files"));
}

#[test]
fn test_generate_chunk_summary_with_cross_references() {
    let chunk = create_test_chunk(
        0,
        2,
        "Module A",
        1000,
        vec!["src/a.rs"],
        2,
        false,
    );
    let summary = generate_chunk_summary(&chunk);
    assert!(summary.contains("Refs: 2"));
}

#[test]
fn test_generate_chunk_summary_with_overlap() {
    let chunk = create_test_chunk(
        1,
        3,
        "Module B",
        1500,
        vec!["src/b.rs"],
        0,
        true,
    );
    let summary = generate_chunk_summary(&chunk);
    assert!(summary.contains("[has overlap from previous]"));
}

#[test]
fn test_generate_chunk_summary_extracts_filename() {
    let chunk = create_test_chunk(
        0,
        1,
        "Test",
        100,
        vec!["very/long/nested/path/to/file.rs"],
        0,
        false,
    );
    let summary = generate_chunk_summary(&chunk);
    // Should extract just the filename, not the full path
    assert!(summary.contains("file.rs"));
    assert!(!summary.contains("very/long"));
}

#[test]
fn test_generate_chunk_summary_full_info() {
    let chunk = create_test_chunk(
        4,
        10,
        "API endpoints",
        3500,
        vec![
            "src/api/endpoint1.rs",
            "src/api/endpoint2.rs",
        ],
        1,
        true,
    );
    let summary = generate_chunk_summary(&chunk);
    assert!(summary.contains("Chunk 5/10"));
    assert!(summary.contains("API endpoints"));
    assert!(summary.contains("endpoint1.rs"));
    assert!(summary.contains("~3500 tokens"));
    assert!(summary.contains("Refs: 1"));
    assert!(summary.contains("[has overlap from previous]"));
}

#[test]
fn chunk_summary_exact_line() {
    let chunk = create_test_chunk(
        0,
        3,
        "Large module",
        5000,
        vec!["a/file1.rs", "file2.rs", "b/c/file3.rs", "file4.rs", "file5.rs", "file6.rs"],
        3,
        true,
    );
    assert_eq!(
        generate_chunk_summary(&chunk),
        "Chunk 1/3: Large module | Files: file1.rs, file2.rs, file3.rs, file4.rs, file5.rs, ... +1 more | ~5000 tokens | Refs: 3 [has overlap from previous]"
    );
}

#[test]
fn test_file_in_src_ranks_as_source_before_test_rules() {
    assert_eq!(file_priority_score("src/test_helpers.rs"), 60);
    assert_eq!(file_priority_score("pkg/tests/util.rs"), 20);
}
