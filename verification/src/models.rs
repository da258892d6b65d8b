//! The output formats, tokenizer models and compression levels the commands
//! are configured with, and the fixed correspondences between them.

use vstd::prelude::*;
use crate::text::{chars_eq_str, chars_of, lowercase, to_lowercase_chars};

verus! {

/// Output format of a packed repository.
#[derive(Clone, Copy, Debug, PartialEq, Eq, Structural)]
pub enum OutputFormat {
    Xml,
    Markdown,
    Json,
    Yaml,
    Toon,
    Plain,
}

/// Compression level applied to file contents.
#[derive(Clone, Copy, Debug, PartialEq, Eq, Structural)]
pub enum CompressionLevel {
    NoCompression,
    Minimal,
    Balanced,
    Aggressive,
    Extreme,
    Focused,
    Semantic,
}

/// Target model a user selects.
#[derive(Clone, Copy, Debug, PartialEq, Eq, Structural)]
pub enum TokenizerModel {
    Gpt52,
    Gpt52Pro,
    Gpt51,
    Gpt51Mini,
    Gpt51Codex,
    Gpt5,
    Gpt5Mini,
    Gpt5Nano,
    O4Mini,
    O3,
    O3Mini,
    O1,
    O1Mini,
    O1Preview,
    Gpt4o,
    Gpt4oMini,
    Gpt4,
    Gpt35Turbo,
    Claude,
    Gemini,
    Llama,
    CodeLlama,
    Mistral,
    DeepSeek,
    Qwen,
    Cohere,
    Grok,
}

/// Model whose tokenizer counts tokens.
#[derive(Clone, Copy, Debug, PartialEq, Eq, Structural)]
pub enum TokenModel {
    Gpt52,
    Gpt52Pro,
    Gpt51,
    Gpt51Mini,
    Gpt51Codex,
    Gpt5,
    Gpt5Mini,
    Gpt5Nano,
    O4Mini,
    O3,
    O3Mini,
    O1,
    O1Mini,
    O1Preview,
    Gpt4o,
    Gpt4oMini,
    Gpt4,
    Gpt35Turbo,
    Claude,
    Gemini,
    Llama,
    CodeLlama,
    Mistral,
    DeepSeek,
    Qwen,
    Cohere,
    Grok,
}

/// The tokenizer of each selectable model: the model of the same name.
pub open spec fn token_model_of(m: TokenizerModel) -> TokenModel {
    match m {
        TokenizerModel::Gpt52 => TokenModel::Gpt52,
        TokenizerModel::Gpt52Pro => TokenModel::Gpt52Pro,
        TokenizerModel::Gpt51 => TokenModel::Gpt51,
        TokenizerModel::Gpt51Mini => TokenModel::Gpt51Mini,
        TokenizerModel::Gpt51Codex => TokenModel::Gpt51Codex,
        TokenizerModel::Gpt5 => TokenModel::Gpt5,
        TokenizerModel::Gpt5Mini => TokenModel::Gpt5Mini,
        TokenizerModel::Gpt5Nano => TokenModel::Gpt5Nano,
        TokenizerModel::O4Mini => TokenModel::O4Mini,
        TokenizerModel::O3 => TokenModel::O3,
        TokenizerModel::O3Mini => TokenModel::O3Mini,
        TokenizerModel::O1 => TokenModel::O1,
        TokenizerModel::O1Mini => TokenModel::O1Mini,
        TokenizerModel::O1Preview => TokenModel::O1Preview,
        TokenizerModel::Gpt4o => TokenModel::Gpt4o,
        TokenizerModel::Gpt4oMini => TokenModel::Gpt4oMini,
        TokenizerModel::Gpt4 => TokenModel::Gpt4,
        TokenizerModel::Gpt35Turbo => TokenModel::Gpt35Turbo,
        TokenizerModel::Claude => TokenModel::Claude,
        TokenizerModel::Gemini => TokenModel::Gemini,
        TokenizerModel::Llama => TokenModel::Llama,
        TokenizerModel::CodeLlama => TokenModel::CodeLlama,
        TokenizerModel::Mistral => TokenModel::Mistral,
        TokenizerModel::DeepSeek => TokenModel::DeepSeek,
        TokenizerModel::Qwen => TokenModel::Qwen,
        TokenizerModel::Cohere => TokenModel::Cohere,
        TokenizerModel::Grok => TokenModel::Grok,
    }
}

/// The tokenizer model of the same name as a selected model.
pub fn to_token_model(model: TokenizerModel) -> (r: TokenModel)
    ensures
        r == token_model_of(model),
{
    match model {
        TokenizerModel::Gpt52 => TokenModel::Gpt52,
        TokenizerModel::Gpt52Pro => TokenModel::Gpt52Pro,
        TokenizerModel::Gpt51 => TokenModel::Gpt51,
        TokenizerModel::Gpt51Mini => TokenModel::Gpt51Mini,
        TokenizerModel::Gpt51Codex => TokenModel::Gpt51Codex,
        TokenizerModel::Gpt5 => TokenModel::Gpt5,
        TokenizerModel::Gpt5Mini => TokenModel::Gpt5Mini,
        TokenizerModel::Gpt5Nano => TokenModel::Gpt5Nano,
        TokenizerModel::O4Mini => TokenModel::O4Mini,
        TokenizerModel::O3 => TokenModel::O3,
        TokenizerModel::O3Mini => TokenModel::O3Mini,
        TokenizerModel::O1 => TokenModel::O1,
        TokenizerModel::O1Mini => TokenModel::O1Mini,
        TokenizerModel::O1Preview => TokenModel::O1Preview,
        TokenizerModel::Gpt4o => TokenModel::Gpt4o,
        TokenizerModel::Gpt4oMini => TokenModel::Gpt4oMini,
        TokenizerModel::Gpt4 => TokenModel::Gpt4,
        TokenizerModel::Gpt35Turbo => TokenModel::Gpt35Turbo,
        TokenizerModel::Claude => TokenModel::Claude,
        TokenizerModel::Gemini => TokenModel::Gemini,
        TokenizerModel::Llama => TokenModel::Llama,
        TokenizerModel::CodeLlama => TokenModel::CodeLlama,
        TokenizerModel::Mistral => TokenModel::Mistral,
        TokenizerModel::DeepSeek => TokenModel::DeepSeek,
        TokenizerModel::Qwen => TokenModel::Qwen,
        TokenizerModel::Cohere => TokenModel::Cohere,
        TokenizerModel::Grok => TokenModel::Grok,
    }
}

/// The tokenizer used for budget enforcement: all modern OpenAI models
/// (o200k encoding) count with `Gpt4o`, the legacy ones (cl100k) with `Gpt4`,
/// both Llama models with `Llama`, every other model with its own.
pub open spec fn budget_model_of(m: TokenizerModel) -> TokenModel {
    match m {
        TokenizerModel::Gpt52 => TokenModel::Gpt4o,
        TokenizerModel::Gpt52Pro => TokenModel::Gpt4o,
        TokenizerModel::Gpt51 => TokenModel::Gpt4o,
        TokenizerModel::Gpt51Mini => TokenModel::Gpt4o,
        TokenizerModel::Gpt51Codex => TokenModel::Gpt4o,
        TokenizerModel::Gpt5 => TokenModel::Gpt4o,
        TokenizerModel::Gpt5Mini => TokenModel::Gpt4o,
        TokenizerModel::Gpt5Nano => TokenModel::Gpt4o,
        TokenizerModel::O4Mini => TokenModel::Gpt4o,
        TokenizerModel::O3 => TokenModel::Gpt4o,
        TokenizerModel::O3Mini => TokenModel::Gpt4o,
        TokenizerModel::O1 => TokenModel::Gpt4o,
        TokenizerModel::O1Mini => TokenModel::Gpt4o,
        TokenizerModel::O1Preview => TokenModel::Gpt4o,
        TokenizerModel::Gpt4o => TokenModel::Gpt4o,
        TokenizerModel::Gpt4oMini => TokenModel::Gpt4o,
        TokenizerModel::Gpt4 => TokenModel::Gpt4,
        TokenizerModel::Gpt35Turbo => TokenModel::Gpt4,
        TokenizerModel::Claude => TokenModel::Claude,
        TokenizerModel::Gemini => TokenModel::Gemini,
        TokenizerModel::Llama => TokenModel::Llama,
        TokenizerModel::CodeLlama => TokenModel::Llama,
        TokenizerModel::Mistral => TokenModel::Mistral,
        TokenizerModel::DeepSeek => TokenModel::DeepSeek,
        TokenizerModel::Qwen => TokenModel::Qwen,
        TokenizerModel::Cohere => TokenModel::Cohere,
        TokenizerModel::Grok => TokenModel::Grok,
    }
}

/// The tokenizer used when enforcing a token budget for `model`.
pub fn budget_token_model_for(model: TokenizerModel) -> (r: TokenModel)
    ensures
        r == budget_model_of(model),
{
    match model {
        TokenizerModel::Gpt52 => TokenModel::Gpt4o,
        TokenizerModel::Gpt52Pro => TokenModel::Gpt4o,
        TokenizerModel::Gpt51 => TokenModel::Gpt4o,
        TokenizerModel::Gpt51Mini => TokenModel::Gpt4o,
        TokenizerModel::Gpt51Codex => TokenModel::Gpt4o,
        TokenizerModel::Gpt5 => TokenModel::Gpt4o,
        TokenizerModel::Gpt5Mini => TokenModel::Gpt4o,
        TokenizerModel::Gpt5Nano => TokenModel::Gpt4o,
        TokenizerModel::O4Mini => TokenModel::Gpt4o,
        TokenizerModel::O3 => TokenModel::Gpt4o,
        TokenizerModel::O3Mini => TokenModel::Gpt4o,
        TokenizerModel::O1 => TokenModel::Gpt4o,
        TokenizerModel::O1Mini => TokenModel::Gpt4o,
        TokenizerModel::O1Preview => TokenModel::Gpt4o,
        TokenizerModel::Gpt4o => TokenModel::Gpt4o,
        TokenizerModel::Gpt4oMini => TokenModel::Gpt4o,
        TokenizerModel::Gpt4 => TokenModel::Gpt4,
        TokenizerModel::Gpt35Turbo => TokenModel::Gpt4,
        TokenizerModel::Claude => TokenModel::Claude,
        TokenizerModel::Gemini => TokenModel::Gemini,
        TokenizerModel::Llama => TokenModel::Llama,
        TokenizerModel::CodeLlama => TokenModel::Llama,
        TokenizerModel::Mistral => TokenModel::Mistral,
        TokenizerModel::DeepSeek => TokenModel::DeepSeek,
        TokenizerModel::Qwen => TokenModel::Qwen,
        TokenizerModel::Cohere => TokenModel::Cohere,
        TokenizerModel::Grok => TokenModel::Grok,
    }
}

/// Distinct selected models count with distinct tokenizers.
pub proof fn law_token_model_injective(a: TokenizerModel, b: TokenizerModel)
    ensures
        token_model_of(a) == token_model_of(b) ==> a == b,
{
}

/// Budget enforcement counts with one of the base tokenizers, and with the
/// model's own tokenizer whenever that is itself a base tokenizer.
pub proof fn law_budget_model_is_base(m: TokenizerModel)
    ensures
        budget_model_of(m) == TokenModel::Gpt4o || budget_model_of(m) == TokenModel::Gpt4
            || budget_model_of(m) == TokenModel::Claude || budget_model_of(m) == TokenModel::Gemini
            || budget_model_of(m) == TokenModel::Llama || budget_model_of(m) == TokenModel::Mistral
            || budget_model_of(m) == TokenModel::DeepSeek || budget_model_of(m) == TokenModel::Qwen
            || budget_model_of(m) == TokenModel::Cohere || budget_model_of(m) == TokenModel::Grok,
        (token_model_of(m) == TokenModel::Gpt4o || token_model_of(m) == TokenModel::Gpt4
            || token_model_of(m) == TokenModel::Claude || token_model_of(m) == TokenModel::Gemini
            || token_model_of(m) == TokenModel::Llama || token_model_of(m) == TokenModel::Mistral
            || token_model_of(m) == TokenModel::DeepSeek || token_model_of(m) == TokenModel::Qwen
            || token_model_of(m) == TokenModel::Cohere || token_model_of(m) == TokenModel::Grok)
            ==> budget_model_of(m) == token_model_of(m),
{
}

/// The file extension for an output format.
pub open spec fn extension_of(f: OutputFormat) -> Seq<char> {
    match f {
        OutputFormat::Xml => "xml"@,
        OutputFormat::Markdown => "md"@,
        OutputFormat::Json => "json"@,
        OutputFormat::Yaml => "yaml"@,
        OutputFormat::Toon => "toon"@,
        OutputFormat::Plain => "txt"@,
    }
}

/// The file extension for an output format.
pub fn format_extension(format: OutputFormat) -> (r: &'static str)
    ensures
        r@ == extension_of(format),
{
    match format {
        OutputFormat::Xml => "xml",
        OutputFormat::Markdown => "md",
        OutputFormat::Json => "json",
        OutputFormat::Yaml => "yaml",
        OutputFormat::Toon => "toon",
        OutputFormat::Plain => "txt",
    }
}

/// The output format a config file names (case-insensitively): `markdown`/
/// `md`, `json`, `yaml`/`yml`, `plain`/`text`/`txt`, `toon`; anything else
/// means XML.
pub open spec fn format_named(lower: Seq<char>) -> OutputFormat {
    if lower == "markdown"@ || lower == "md"@ {
        OutputFormat::Markdown
    } else if lower == "json"@ {
        OutputFormat::Json
    } else if lower == "yaml"@ || lower == "yml"@ {
        OutputFormat::Yaml
    } else if lower == "plain"@ || lower == "text"@ || lower == "txt"@ {
        OutputFormat::Plain
    } else if lower == "toon"@ {
        OutputFormat::Toon
    } else {
        OutputFormat::Xml
    }
}

/// A config file's format name is read back as the format whose file
/// extension it is (`xml`, `md`, `json`, `yaml`, `toon`, `txt`); the names
/// `markdown`, `yml`, `plain` and `text` are read as Markdown, YAML and plain
/// text too.
pub proof fn law_format_names(f: OutputFormat, lower: Seq<char>)
    ensures
        format_named(extension_of(f)) == f,
        lower == "markdown"@ ==> format_named(lower) == OutputFormat::Markdown,
        lower == "yml"@ ==> format_named(lower) == OutputFormat::Yaml,
        lower == "plain"@ || lower == "text"@ ==> format_named(lower) == OutputFormat::Plain,
{
    reveal_strlit("markdown");
    reveal_strlit("md");
    reveal_strlit("json");
    reveal_strlit("yaml");
    reveal_strlit("yml");
    reveal_strlit("plain");
    reveal_strlit("text");
    reveal_strlit("txt");
    reveal_strlit("toon");
    reveal_strlit("xml");
    if lower == "md"@ {
        assert("md"@.len() != "markdown"@.len());
    }
    if lower == "json"@ {
        assert("json"@.len() != "markdown"@.len());
        assert("json"@.len() != "md"@.len());
    }
    if lower == "yaml"@ {
        assert("yaml"@.len() != "markdown"@.len());
        assert("yaml"@.len() != "md"@.len());
        assert("yaml"@[0] != "json"@[0]);
    }
    if lower == "yml"@ {
        assert("yml"@.len() != "markdown"@.len());
        assert("yml"@.len() != "md"@.len());
        assert("yml"@.len() != "json"@.len());
        assert("yml"@.len() != "yaml"@.len());
    }
    if lower == "plain"@ {
        assert("plain"@.len() != "markdown"@.len());
        assert("plain"@.len() != "md"@.len());
        assert("plain"@.len() != "json"@.len());
        assert("plain"@.len() != "yaml"@.len());
        assert("plain"@.len() != "yml"@.len());
    }
    if lower == "text"@ {
        assert("text"@.len() != "markdown"@.len());
        assert("text"@.len() != "md"@.len());
        assert("text"@[0] != "json"@[0]);
        assert("text"@[0] != "yaml"@[0]);
        assert("text"@.len() != "yml"@.len());
        assert("text"@.len() != "plain"@.len());
    }
    if lower == "txt"@ {
        assert("txt"@.len() != "markdown"@.len());
        assert("txt"@.len() != "md"@.len());
        assert("txt"@.len() != "json"@.len());
        assert("txt"@.len() != "yaml"@.len());
        assert("txt"@[0] != "yml"@[0]);
        assert("txt"@.len() != "plain"@.len());
        assert("txt"@.len() != "text"@.len());
    }
    if lower == "toon"@ {
        assert("toon"@.len() != "markdown"@.len());
        assert("toon"@.len() != "md"@.len());
        assert("toon"@[0] != "json"@[0]);
        assert("toon"@[0] != "yaml"@[0]);
        assert("toon"@.len() != "yml"@.len());
        assert("toon"@.len() != "plain"@.len());
        assert("toon"@[1] != "text"@[1]);
        assert("toon"@.len() != "txt"@.len());
    }
    if lower == "xml"@ {
        assert("xml"@.len() != "markdown"@.len());
        assert("xml"@.len() != "md"@.len());
        assert("xml"@.len() != "json"@.len());
        assert("xml"@.len() != "yaml"@.len());
        assert("xml"@[0] != "yml"@[0]);
        assert("xml"@.len() != "plain"@.len());
        assert("xml"@.len() != "text"@.len());
        assert("xml"@[0] != "txt"@[0]);
        assert("xml"@.len() != "toon"@.len());
    }
    match f {
        OutputFormat::Xml => {
            assert("xml"@.len() != "markdown"@.len());
            assert("xml"@.len() != "md"@.len());
            assert("xml"@.len() != "json"@.len());
            assert("xml"@.len() != "yaml"@.len());
            assert("xml"@[0] != "yml"@[0]);
            assert("xml"@.len() != "plain"@.len());
            assert("xml"@.len() != "text"@.len());
            assert("xml"@[0] != "txt"@[0]);
            assert("xml"@.len() != "toon"@.len());
        },
        OutputFormat::Markdown => {},
        OutputFormat::Json => {
            assert("json"@.len() != "markdown"@.len());
            assert("json"@.len() != "md"@.len());
        },
        OutputFormat::Yaml => {
            assert("yaml"@.len() != "markdown"@.len());
            assert("yaml"@.len() != "md"@.len());
            assert("yaml"@[0] != "json"@[0]);
        },
        OutputFormat::Toon => {
            assert("toon"@.len() != "markdown"@.len());
            assert("toon"@.len() != "md"@.len());
            assert("toon"@[0] != "json"@[0]);
            assert("toon"@[0] != "yaml"@[0]);
            assert("toon"@.len() != "yml"@.len());
            assert("toon"@.len() != "plain"@.len());
            assert("toon"@[1] != "text"@[1]);
            assert("toon"@.len() != "txt"@.len());
        },
        OutputFormat::Plain => {
            assert("txt"@.len() != "markdown"@.len());
            assert("txt"@.len() != "md"@.len());
            assert("txt"@.len() != "json"@.len());
            assert("txt"@.len() != "yaml"@.len());
            assert("txt"@[0] != "yml"@[0]);
        },
    }
}

/// Reads an output format name from a config file.
pub fn parse_output_format(fmt_str: &str) -> (r: OutputFormat)
    ensures
        r == format_named(lowercase(fmt_str@)),
{
    let l = to_lowercase_chars(fmt_str);
    format_of_chars(&l)
}

/// Reads an output format name already in lower case; see `format_named`.
pub fn lowercase_format_name(name: &str) -> (r: OutputFormat)
    ensures
        r == format_named(name@),
{
    let l = chars_of(name);
    format_of_chars(&l)
}

fn format_of_chars(l: &Vec<char>) -> (r: OutputFormat)
    ensures
        r == format_named(l@),
{
    let l = l;
    if chars_eq_str(&l, "markdown") || chars_eq_str(&l, "md") {
        OutputFormat::Markdown
    } else if chars_eq_str(&l, "json") {
        OutputFormat::Json
    } else if chars_eq_str(&l, "yaml") || chars_eq_str(&l, "yml") {
        OutputFormat::Yaml
    } else if chars_eq_str(&l, "plain") || chars_eq_str(&l, "text") || chars_eq_str(&l, "txt") {
        OutputFormat::Plain
    } else if chars_eq_str(&l, "toon") {
        OutputFormat::Toon
    } else {
        OutputFormat::Xml
    }
}

} // verus!
