use infiniloom_cli::config::{default_config_files, ignore_file_name, LoadedConfig};
use infiniloom_cli::models::{CompressionLevel, OutputFormat, TokenizerModel};
use infiniloom_cli::options::{merge_with_file_config, PackConfig};
use std::path::PathBuf;

fn base() -> PackConfig {
    PackConfig::builder().path(PathBuf::from("/repo")).build().unwrap()
}

#[test]
fn file_values_fill_what_the_command_line_left_open() {
    let mut loaded = LoadedConfig::default();
    loaded.include_tests = Some(true);
    loaded.line_numbers = Some(true);
    loaded.token_budget = Some(5000);
    loaded.format = Some("MD".to_owned());
    loaded.security_check = Some(true);
    let merged = merge_with_file_config(base(), &loaded, Some(TokenizerModel::Gpt5), None);
    assert!(merged.scan.include_tests);
    assert!(!merged.scan.include_docs);
    assert!(merged.output.show_line_numbers);
    assert_eq!(merged.output.max_tokens, 5000);
    assert_eq!(merged.output.format, Some(OutputFormat::Markdown));
    assert_eq!(merged.output.model, Some(TokenizerModel::Gpt5));
    assert_eq!(merged.output.compression, Some(CompressionLevel::Balanced));
    assert!(merged.security.security_check);
}

#[test]
fn command_line_values_win() {
    let mut cfg = base();
    cfg.output.max_tokens = 100;
    cfg.output.format = Some(OutputFormat::Json);
    cfg.scan.remove_comments = true;
    let mut loaded = LoadedConfig::default();
    loaded.token_budget = Some(5000);
    loaded.format = Some("yaml".to_owned());
    loaded.remove_comments = Some(false);
    let merged = merge_with_file_config(cfg, &loaded, None, Some(CompressionLevel::Aggressive));
    assert_eq!(merged.output.max_tokens, 100);
    assert_eq!(merged.output.format, Some(OutputFormat::Json));
    assert!(merged.scan.remove_comments);
    assert_eq!(merged.output.model, Some(TokenizerModel::Claude));
    assert_eq!(merged.output.compression, Some(CompressionLevel::Aggressive));
}

#[test]
fn without_a_file_defaults_apply() {
    let merged = merge_with_file_config(base(), &LoadedConfig::default(), None, None);
    assert_eq!(merged.output.format, Some(OutputFormat::Xml));
    assert_eq!(merged.output.model, Some(TokenizerModel::Claude));
    assert_eq!(merged.output.compression, Some(CompressionLevel::Balanced));
    assert_eq!(merged.output.max_tokens, 0);
}

#[test]
fn config_files_are_looked_for_in_order() {
    assert_eq!(
        default_config_files(),
        vec![".infiniloomrc", ".infiniloom.yaml", ".infiniloom.yml", ".infiniloom.toml", ".infiniloom.json"]
    );
    assert_eq!(ignore_file_name(), ".infiniloomignore");
}
