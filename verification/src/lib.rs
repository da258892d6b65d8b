//! Verified core of the infiniloom command-line tool: text transformations,
//! snippet merging, configuration handling and the small decision tables the
//! commands rely on.

pub mod text;
pub mod compression;
pub mod escape;
pub mod snippets;
pub mod filters;
pub mod diff_output;
pub mod diff_budget;
pub mod repo_map;
pub mod embed_diff;
pub mod repo_metadata;
pub mod impact_text;
pub mod errors;
pub mod snippet_selection;
pub mod git_output;
pub mod pack_extras;
pub mod pack_json;
pub mod pack_settings;
pub mod chunks;
pub mod symbol_compression;
pub mod ranking;
pub mod truncation;
pub mod content_pipeline;
pub mod pack_watch;
pub mod config;
pub mod models;
pub mod options;
pub mod init;
pub mod index;
