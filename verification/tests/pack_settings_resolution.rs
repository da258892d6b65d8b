use infiniloom_cli::config::LoadedConfig;
use infiniloom_cli::models::{CompressionLevel, OutputFormat, TokenizerModel};
use infiniloom_cli::pack_settings::{pack_fails_on_secrets, resolve_pack_settings, PackCliSettings};

fn cli() -> PackCliSettings {
    PackCliSettings {
        include_tests: false,
        include_docs: false,
        security_check: false,
        include_hidden: false,
        redact_secrets: false,
        show_line_numbers: true,
        show_directory_structure: true,
        show_file_summary: false,
        remove_empty_lines: false,
        remove_comments: false,
        max_tokens: 0,
        format: None,
        model: None,
        compression: None,
    }
}

#[test]
fn without_a_config_file_the_defaults_apply() {
    let r = resolve_pack_settings(cli(), &LoadedConfig::default(), None, None);
    assert_eq!(r.format, OutputFormat::Xml);
    assert_eq!(r.model, TokenizerModel::Claude);
    assert_eq!(r.compression, CompressionLevel::Balanced);
    assert_eq!(r.max_file_size, 52428800);
    assert_eq!(r.max_tokens, 0);
    assert!(!r.fail_on_secrets);
    assert!(r.show_line_numbers);
    assert!(!r.show_file_summary);
}

#[test]
fn config_file_fills_what_the_command_line_left_open() {
    let mut l = LoadedConfig::default();
    l.format = Some("MD".to_string());
    l.model = Some("gpt-4o".to_string());
    l.compression = Some("nonsense".to_string());
    l.token_budget = Some(5000);
    l.include_tests = Some(true);
    l.fail_on_secrets = Some(true);
    l.max_file_size = Some(1024);
    l.line_numbers = Some(false);
    l.show_file_summary = Some(true);
    let r = resolve_pack_settings(cli(), &l, Some(TokenizerModel::Gpt4o), None);
    assert_eq!(r.format, OutputFormat::Markdown);
    assert_eq!(r.model, TokenizerModel::Gpt4o);
    assert_eq!(r.compression, CompressionLevel::Balanced);
    assert_eq!(r.max_tokens, 5000);
    assert!(r.include_tests);
    assert!(r.fail_on_secrets);
    assert_eq!(r.max_file_size, 1024);
    // The file turns line numbers off, but cannot turn the summary on.
    assert!(!r.show_line_numbers);
    assert!(!r.show_file_summary);
    assert!(r.show_directory_structure);
}

#[test]
fn command_line_wins_over_the_config_file() {
    let mut c = cli();
    c.format = Some(OutputFormat::Json);
    c.max_tokens = 100;
    c.include_docs = true;
    let mut l = LoadedConfig::default();
    l.format = Some("yaml".to_string());
    l.token_budget = Some(5000);
    l.include_docs = Some(false);
    let r = resolve_pack_settings(c, &l, None, Some(CompressionLevel::Extreme));
    assert_eq!(r.format, OutputFormat::Json);
    assert_eq!(r.max_tokens, 100);
    assert!(r.include_docs);
    assert_eq!(r.compression, CompressionLevel::Balanced);
}

#[test]
fn secrets_stop_pack_only_when_asked() {
    assert!(pack_fails_on_secrets(true, Some(3)));
    assert!(!pack_fails_on_secrets(true, Some(0)));
    assert!(!pack_fails_on_secrets(true, None));
    assert!(!pack_fails_on_secrets(false, Some(3)));
}
