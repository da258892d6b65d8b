use infiniloom_cli::content_pipeline::transform_content;
use infiniloom_cli::models::CompressionLevel;
use infiniloom_cli::pack_watch::{keep_watching, pack_watch_step, PackWatchAction, PackWatchEvent};

const SRC: &str = "fn a() {\n\n    // note\n    1\n}\n";

#[test]
fn no_compression_keeps_text() {
    let out = transform_content(SRC, Some("rust"), &vec![], CompressionLevel::NoCompression, false, false, false, false, None);
    assert_eq!(out, SRC);
}

#[test]
fn minimal_drops_empty_lines_only() {
    let out = transform_content(SRC, Some("rust"), &vec![], CompressionLevel::Minimal, false, false, false, false, None);
    assert_eq!(out, "fn a() {\n    // note\n    1\n}");
}

#[test]
fn balanced_drops_empty_lines_and_comments() {
    let out = transform_content(SRC, Some("rust"), &vec![], CompressionLevel::Balanced, false, false, false, false, None);
    assert!(!out.contains("note"));
    assert!(!out.contains("\n\n"));
    assert!(out.contains("fn a() {"));
}

#[test]
fn aggressive_without_symbols_uses_keyword_heuristic() {
    let out = transform_content(SRC, Some("rust"), &vec![], CompressionLevel::Aggressive, false, false, false, false, None);
    assert_eq!(out, "fn a() {\n");
}

#[test]
fn symbol_levels_need_a_language() {
    let out = transform_content(SRC, None, &vec![], CompressionLevel::Extreme, false, false, false, false, None);
    assert_eq!(out, SRC);
}

#[test]
fn semantic_takes_the_compressor_result() {
    let out = transform_content(SRC, Some("rust"), &vec![], CompressionLevel::Semantic, false, false, false, false, Some("short"));
    assert_eq!(out, "short");
    let kept = transform_content(SRC, Some("rust"), &vec![], CompressionLevel::Semantic, false, false, false, false, None);
    assert_eq!(kept, SRC);
}

#[test]
fn base64_is_shortened_last() {
    let text = "img = \"data:image/png;base64,AAAA\"";
    let out = transform_content(text, None, &vec![], CompressionLevel::NoCompression, false, false, false, true, None);
    assert_eq!(out, "img = \"data:image/png;base64,[BASE64_TRUNCATED]\"");
}

#[test]
fn watch_debounces_changes() {
    assert_eq!(pack_watch_step(PackWatchEvent::Changed { since_rebuild_ms: 499 }), PackWatchAction::Skip);
    assert_eq!(pack_watch_step(PackWatchEvent::Changed { since_rebuild_ms: 500 }), PackWatchAction::Regenerate);
    assert_eq!(pack_watch_step(PackWatchEvent::Timeout), PackWatchAction::Wait);
    assert_eq!(pack_watch_step(PackWatchEvent::Disconnected), PackWatchAction::Stop);
}

#[test]
fn watch_stops_on_secrets_only_when_asked() {
    assert!(!keep_watching(true, Some(2)));
    assert!(keep_watching(true, Some(0)));
    assert!(keep_watching(false, Some(2)));
    assert!(keep_watching(true, None));
}
