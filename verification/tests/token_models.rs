use infiniloom_cli::models::{budget_token_model_for, to_token_model, TokenModel, TokenizerModel};
use infiniloom_cli::truncation::truncate_to_tokens;

#[test]
fn test_to_token_model_claude() {
    let result = to_token_model(TokenizerModel::Claude);
    assert_eq!(result, TokenModel::Claude);
}

#[test]
fn test_to_token_model_gpt4o() {
    let result = to_token_model(TokenizerModel::Gpt4o);
    assert_eq!(result, TokenModel::Gpt4o);
}

#[test]
fn test_to_token_model_gpt4() {
    let result = to_token_model(TokenizerModel::Gpt4);
    assert_eq!(result, TokenModel::Gpt4);
}

#[test]
fn test_to_token_model_gemini() {
    let result = to_token_model(TokenizerModel::Gemini);
    assert_eq!(result, TokenModel::Gemini);
}

#[test]
fn test_to_token_model_all_variants() {
    // Test all model conversions work without panic
    let models = [
        TokenizerModel::Claude,
        TokenizerModel::Gpt4o,
        TokenizerModel::Gpt4oMini,
        TokenizerModel::Gpt4,
        TokenizerModel::Gpt35Turbo,
        TokenizerModel::Gemini,
        TokenizerModel::Llama,
        TokenizerModel::CodeLlama,
        TokenizerModel::Mistral,
        TokenizerModel::DeepSeek,
        TokenizerModel::Qwen,
        TokenizerModel::Cohere,
        TokenizerModel::Grok,
        TokenizerModel::O1,
        TokenizerModel::O1Mini,
        TokenizerModel::O1Preview,
        TokenizerModel::O3,
        TokenizerModel::O3Mini,
        TokenizerModel::O4Mini,
        TokenizerModel::Gpt5,
        TokenizerModel::Gpt5Mini,
        TokenizerModel::Gpt5Nano,
        TokenizerModel::Gpt51,
        TokenizerModel::Gpt51Mini,
        TokenizerModel::Gpt51Codex,
        TokenizerModel::Gpt52,
        TokenizerModel::Gpt52Pro,
    ];

    for tokenizer_model in models {
        let _ = to_token_model(tokenizer_model);
    }
}

fn check_budget_claude() {
    let result = budget_token_model_for(TokenizerModel::Claude);
    assert_eq!(result, TokenModel::Claude);
}

fn check_budget_gpt5_variants() {
    // All GPT-5 variants map to Gpt4o for budget
    assert_eq!(budget_token_model_for(TokenizerModel::Gpt52), TokenModel::Gpt4o);
    assert_eq!(budget_token_model_for(TokenizerModel::Gpt51), TokenModel::Gpt4o);
    assert_eq!(budget_token_model_for(TokenizerModel::Gpt5), TokenModel::Gpt4o);
}

fn check_budget_o_series() {
    // O-series models map to Gpt4o for budget
    assert_eq!(budget_token_model_for(TokenizerModel::O4Mini), TokenModel::Gpt4o);
    assert_eq!(budget_token_model_for(TokenizerModel::O3), TokenModel::Gpt4o);
    assert_eq!(budget_token_model_for(TokenizerModel::O1), TokenModel::Gpt4o);
}

fn check_budget_legacy_gpt4() {
    assert_eq!(budget_token_model_for(TokenizerModel::Gpt4), TokenModel::Gpt4);
    assert_eq!(budget_token_model_for(TokenizerModel::Gpt35Turbo), TokenModel::Gpt4);
}

fn check_budget_other_vendors() {
    assert_eq!(budget_token_model_for(TokenizerModel::Gemini), TokenModel::Gemini);
    assert_eq!(budget_token_model_for(TokenizerModel::Llama), TokenModel::Llama);
    assert_eq!(budget_token_model_for(TokenizerModel::Mistral), TokenModel::Mistral);
    assert_eq!(budget_token_model_for(TokenizerModel::DeepSeek), TokenModel::DeepSeek);
    assert_eq!(budget_token_model_for(TokenizerModel::Qwen), TokenModel::Qwen);
    assert_eq!(budget_token_model_for(TokenizerModel::Cohere), TokenModel::Cohere);
    assert_eq!(budget_token_model_for(TokenizerModel::Grok), TokenModel::Grok);
}

#[test]
fn pack_test_budget_token_model_claude() {
    check_budget_claude();
}

#[test]
fn pack_test_budget_token_model_gpt5_variants() {
    check_budget_gpt5_variants();
}

#[test]
fn pack_test_budget_token_model_o_series() {
    check_budget_o_series();
}

#[test]
fn pack_test_budget_token_model_legacy_gpt4() {
    check_budget_legacy_gpt4();
}

#[test]
fn pack_test_budget_token_model_other_vendors() {
    check_budget_other_vendors();
}

#[test]
fn tests_test_budget_token_model_claude() {
    check_budget_claude();
}

#[test]
fn tests_test_budget_token_model_gpt5_variants() {
    check_budget_gpt5_variants();
}

#[test]
fn tests_test_budget_token_model_o_series() {
    check_budget_o_series();
}

#[test]
fn tests_test_budget_token_model_legacy_gpt4() {
    check_budget_legacy_gpt4();
}

#[test]
fn tests_test_budget_token_model_other_vendors() {
    check_budget_other_vendors();
}

// The token counts below stand for what the tokenizer reports for the texts
// (a few tokens for a short greeting, hundreds for the repeated sentence); the
// truncated text stands for the tokenizer's cut to the limit.

fn check_truncate_no_truncation() {
    let text = "Hello, world!";
    let result = truncate_to_tokens(text, 1000, 4, text);
    assert_eq!(result, text);
}

fn check_truncate_truncates() {
    let text = "This is some text. ".repeat(100);
    let cut = &text[..200];
    let result = truncate_to_tokens(&text, 50, 500, cut);
    assert!(result.len() < text.len());
    assert!(result.contains("truncated"));
}

fn check_truncate_empty() {
    let result = truncate_to_tokens("", 100, 0, "");
    assert_eq!(result, "");
}

#[test]
fn pack_test_truncate_to_tokens_no_truncation() {
    check_truncate_no_truncation();
}

#[test]
fn pack_test_truncate_to_tokens_truncates() {
    check_truncate_truncates();
}

#[test]
fn pack_test_truncate_to_tokens_empty() {
    check_truncate_empty();
}

#[test]
fn tests_test_truncate_to_tokens_no_truncation() {
    check_truncate_no_truncation();
}

#[test]
fn tests_test_truncate_to_tokens_truncates() {
    check_truncate_truncates();
}

#[test]
fn tests_test_truncate_to_tokens_empty() {
    check_truncate_empty();
}
