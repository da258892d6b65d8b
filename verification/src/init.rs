//! The `init` command's choices: config file formats and project templates.

use vstd::prelude::*;
use crate::text::chars_of;

verus! {

/// Configuration file format.
#[derive(Clone, Copy, Debug, PartialEq, Eq, Structural)]
pub enum ConfigFormat {
    /// YAML format
    Yaml,
    /// TOML format
    Toml,
    /// JSON format
    Json,
}

/// Configuration template for common project types.
#[derive(Clone, Copy, Debug, PartialEq, Eq, Structural)]
pub enum ConfigTemplate {
    /// Generic template (default)
    Generic,
    /// Rust project (Cargo.toml, *.rs)
    Rust,
    /// Python project (*.py, requirements.txt)
    Python,
    /// TypeScript/JavaScript project (*.ts, *.tsx, package.json)
    Typescript,
    /// Go project (*.go, go.mod)
    Go,
    /// Java project (*.java, pom.xml/build.gradle)
    Java,
}

/// The extension (and format name) of a config file format.
pub open spec fn format_extension_of(f: ConfigFormat) -> Seq<char> {
    match f {
        ConfigFormat::Yaml => "yaml"@,
        ConfigFormat::Toml => "toml"@,
        ConfigFormat::Json => "json"@,
    }
}

/// The extension (and format name) of a config file format.
pub fn config_extension(format: ConfigFormat) -> (r: &'static str)
    ensures
        r@ == format_extension_of(format),
{
    match format {
        ConfigFormat::Yaml => "yaml",
        ConfigFormat::Toml => "toml",
        ConfigFormat::Json => "json",
    }
}

/// The default config file name for a format: `.infiniloom.{ext}`.
pub fn default_config_file_name(format: ConfigFormat) -> (r: String)
    ensures
        r@ == ".infiniloom."@ + format_extension_of(format),
{
    let mut v = chars_of(".infiniloom.");
    crate::text::push_str(&mut v, config_extension(format));
    crate::text::string_from_chars(&v)
}

/// The display name of a template.
pub open spec fn template_display_name(t: ConfigTemplate) -> Seq<char> {
    match t {
        ConfigTemplate::Generic => "generic"@,
        ConfigTemplate::Rust => "Rust"@,
        ConfigTemplate::Python => "Python"@,
        ConfigTemplate::Typescript => "TypeScript"@,
        ConfigTemplate::Go => "Go"@,
        ConfigTemplate::Java => "Java"@,
    }
}

/// The display name of a template.
pub fn template_name(template: ConfigTemplate) -> (r: &'static str)
    ensures
        r@ == template_display_name(template),
{
    match template {
        ConfigTemplate::Generic => "generic",
        ConfigTemplate::Rust => "Rust",
        ConfigTemplate::Python => "Python",
        ConfigTemplate::Typescript => "TypeScript",
        ConfigTemplate::Go => "Go",
        ConfigTemplate::Java => "Java",
    }
}

} // verus!
