//! The settings `pack` runs with: the command line's values completed from
//! the loaded configuration file.

use vstd::prelude::*;
use crate::models::{format_named, parse_output_format, CompressionLevel, OutputFormat, TokenizerModel};
use crate::config::LoadedConfig;
use crate::text::lowercase;

verus! {

/// The 50 MiB file-size limit used when the configuration file sets none.
pub open spec fn default_max_file_size() -> u64 {
    52428800
}

/// What the command line gives `pack`, before a configuration file is read.
#[derive(Clone, Copy, Debug, PartialEq, Eq, Structural)]
pub struct PackCliSettings {
    pub include_tests: bool,
    pub include_docs: bool,
    pub security_check: bool,
    pub include_hidden: bool,
    pub redact_secrets: bool,
    pub show_line_numbers: bool,
    pub show_directory_structure: bool,
    pub show_file_summary: bool,
    pub remove_empty_lines: bool,
    pub remove_comments: bool,
    pub max_tokens: u32,
    pub format: Option<OutputFormat>,
    pub model: Option<TokenizerModel>,
    pub compression: Option<CompressionLevel>,
}

/// The settings `pack` runs with.
#[derive(Clone, Copy, Debug, PartialEq, Eq, Structural)]
pub struct PackSettings {
    pub include_tests: bool,
    pub include_docs: bool,
    pub security_check: bool,
    pub include_hidden: bool,
    pub max_file_size: u64,
    pub fail_on_secrets: bool,
    pub redact_secrets: bool,
    pub show_line_numbers: bool,
    pub show_directory_structure: bool,
    pub show_file_summary: bool,
    pub remove_empty_lines: bool,
    pub remove_comments: bool,
    pub max_tokens: u32,
    pub format: OutputFormat,
    pub model: TokenizerModel,
    pub compression: CompressionLevel,
}

/// A flag of the file, `false` where the file leaves it unset.
pub open spec fn file_flag(o: Option<bool>) -> bool {
    match o {
        Some(b) => b,
        None => false,
    }
}

/// A display flag: the file's value replaces one that the command line left
/// on, and one left off stays off.
pub open spec fn display_flag(cli: bool, file: Option<bool>) -> bool {
    match file {
        Some(v) => if cli {
            v
        } else {
            false
        },
        None => cli,
    }
}

/// The settings `pack` runs with. A flag the command line sets stays set and
/// one it leaves off takes the file's value (security check, tests, docs,
/// hidden files, redaction, removing empty lines and comments); the line
/// number, directory structure and file summary displays follow
/// `display_flag`; the file's size limit, or else 50 MiB; failing on secrets
/// only as the file says; a token budget of 0 takes the file's budget; a
/// format, model or compression the command line left open takes the file's
/// (its format name read case-insensitively, its model and compression as
/// recognised: `file_model`, `file_compression`), or else XML, the default
/// model and balanced compression.
pub open spec fn resolved_pack_settings(
    c: PackCliSettings,
    l: LoadedConfig,
    file_model: Option<TokenizerModel>,
    file_compression: Option<CompressionLevel>,
) -> PackSettings {
    PackSettings {
        include_tests: c.include_tests || file_flag(l.include_tests),
        include_docs: c.include_docs || file_flag(l.include_docs),
        security_check: c.security_check || file_flag(l.security_check),
        include_hidden: c.include_hidden || file_flag(l.include_hidden),
        max_file_size: match l.max_file_size {
            Some(s) => s,
            None => default_max_file_size(),
        },
        fail_on_secrets: file_flag(l.fail_on_secrets),
        redact_secrets: c.redact_secrets || file_flag(l.redact_secrets),
        show_line_numbers: display_flag(c.show_line_numbers, l.line_numbers),
        show_directory_structure: display_flag(
            c.show_directory_structure,
            l.show_directory_structure,
        ),
        show_file_summary: display_flag(c.show_file_summary, l.show_file_summary),
        remove_empty_lines: c.remove_empty_lines || file_flag(l.remove_empty_lines),
        remove_comments: c.remove_comments || file_flag(l.remove_comments),
        max_tokens: if c.max_tokens == 0 {
            match l.token_budget {
                Some(b) => b,
                None => 0,
            }
        } else {
            c.max_tokens
        },
        format: match c.format {
            Some(f) => f,
            None => match l.format {
                Some(name) => format_named(lowercase(name@)),
                None => OutputFormat::Xml,
            },
        },
        model: match c.model {
            Some(m) => m,
            None => match l.model {
                Some(_) => match file_model {
                    Some(m) => m,
                    None => TokenizerModel::Claude,
                },
                None => TokenizerModel::Claude,
            },
        },
        compression: match c.compression {
            Some(k) => k,
            None => match l.compression {
                Some(_) => match file_compression {
                    Some(k) => k,
                    None => CompressionLevel::Balanced,
                },
                None => CompressionLevel::Balanced,
            },
        },
    }
}

fn flag_of(o: Option<bool>) -> (r: bool)
    ensures
        r == file_flag(o),
{
    match o {
        Some(b) => b,
        None => false,
    }
}

fn display_of(cli: bool, file: Option<bool>) -> (r: bool)
    ensures
        r == display_flag(cli, file),
{
    match file {
        Some(v) => {
            if cli {
                v
            } else {
                false
            }
        },
        None => cli,
    }
}

/// Completes the command line's settings from the loaded configuration file;
/// see `resolved_pack_settings`.
pub fn resolve_pack_settings(
    c: PackCliSettings,
    l: &LoadedConfig,
    file_model: Option<TokenizerModel>,
    file_compression: Option<CompressionLevel>,
) -> (r: PackSettings)
    ensures
        r == resolved_pack_settings(c, *l, file_model, file_compression),
{
    let max_file_size: u64 = match l.max_file_size {
        Some(s) => s,
        None => 52428800,
    };
    let max_tokens: u32 = if c.max_tokens == 0 {
        match l.token_budget {
            Some(b) => b,
            None => 0,
        }
    } else {
        c.max_tokens
    };
    let format = match c.format {
        Some(f) => f,
        None => match &l.format {
            Some(name) => parse_output_format(name.as_str()),
            None => OutputFormat::Xml,
        },
    };
    let model = match c.model {
        Some(m) => m,
        None => match &l.model {
            Some(_) => match file_model {
                Some(m) => m,
                None => TokenizerModel::Claude,
            },
            None => TokenizerModel::Claude,
        },
    };
    let compression = match c.compression {
        Some(k) => k,
        None => match &l.compression {
            Some(_) => match file_compression {
                Some(k) => k,
                None => CompressionLevel::Balanced,
            },
            None => CompressionLevel::Balanced,
        },
    };
    PackSettings {
        include_tests: c.include_tests || flag_of(l.include_tests),
        include_docs: c.include_docs || flag_of(l.include_docs),
        security_check: c.security_check || flag_of(l.security_check),
        include_hidden: c.include_hidden || flag_of(l.include_hidden),
        max_file_size,
        fail_on_secrets: flag_of(l.fail_on_secrets),
        redact_secrets: c.redact_secrets || flag_of(l.redact_secrets),
        show_line_numbers: display_of(c.show_line_numbers, l.line_numbers),
        show_directory_structure: display_of(c.show_directory_structure, l.show_directory_structure),
        show_file_summary: display_of(c.show_file_summary, l.show_file_summary),
        remove_empty_lines: c.remove_empty_lines || flag_of(l.remove_empty_lines),
        remove_comments: c.remove_comments || flag_of(l.remove_comments),
        max_tokens,
        format,
        model,
        compression,
    }
}

/// Whether `pack` stops after its security scan: when the file asks to fail
/// on secrets and the scan (if one ran) found any.
pub fn pack_fails_on_secrets(fail_on_secrets: bool, issues_found: Option<usize>) -> (r: bool)
    ensures
        r == (fail_on_secrets && (issues_found matches Some(n) && n > 0)),
{
    match issues_found {
        Some(n) => fail_on_secrets && n > 0,
        None => false,
    }
}

/// The command line wins over the configuration file where it speaks: a
/// format, model, compression or nonzero token budget it gives is kept, and
/// a feature flag it sets stays set; the display flags the command line
/// leaves off stay off; without a configuration file the command line's
/// choices stand, completed with XML, the default model, balanced compression
/// and the 50 MiB limit, and nothing fails on secrets.
pub proof fn law_pack_settings_cli_wins(
    c: PackCliSettings,
    l: LoadedConfig,
    file_model: Option<TokenizerModel>,
    file_compression: Option<CompressionLevel>,
)
    ensures
        ({
            let r = resolved_pack_settings(c, l, file_model, file_compression);
            &&& c.format matches Some(f) ==> r.format == f
            &&& c.model matches Some(m) ==> r.model == m
            &&& c.compression matches Some(k) ==> r.compression == k
            &&& c.max_tokens != 0 ==> r.max_tokens == c.max_tokens
            &&& c.include_tests ==> r.include_tests
            &&& c.include_docs ==> r.include_docs
            &&& c.security_check ==> r.security_check
            &&& c.include_hidden ==> r.include_hidden
            &&& c.redact_secrets ==> r.redact_secrets
            &&& c.remove_empty_lines ==> r.remove_empty_lines
            &&& c.remove_comments ==> r.remove_comments
            &&& !c.show_line_numbers ==> !r.show_line_numbers
            &&& !c.show_directory_structure ==> !r.show_directory_structure
            &&& !c.show_file_summary ==> !r.show_file_summary
        }),
        crate::config::loaded_config_is_empty(l) ==> ({
            let r = resolved_pack_settings(c, l, file_model, file_compression);
            &&& r.include_tests == c.include_tests
            &&& r.show_line_numbers == c.show_line_numbers
            &&& r.max_tokens == c.max_tokens
            &&& r.max_file_size == default_max_file_size()
            &&& !r.fail_on_secrets
            &&& r.format == (match c.format {
                Some(f) => f,
                None => OutputFormat::Xml,
            })
            &&& r.model == (match c.model {
                Some(m) => m,
                None => TokenizerModel::Claude,
            })
            &&& r.compression == (match c.compression {
                Some(k) => k,
                None => CompressionLevel::Balanced,
            })
        }),
{
}

} // verus!
