//! What `pack` does to each file's text for a compression level: symbol
//! views for the strong levels, the semantic compressor's result, or
//! removal of empty lines and comments; long base64 is shortened last.

use vstd::prelude::*;
use crate::compression::{
    lemma_without_empty_lines_count, remove_comments_from_content, remove_empty_lines_from_content,
    truncate_base64_content, u32_max, without_base64, without_comments, without_empty_lines,
};
use crate::models::CompressionLevel;
use crate::symbol_compression::{
    extract_key_symbols_focused, extract_key_symbols_only, extract_signatures_only, focused_text,
    key_symbols_text, signatures_text, Symbol,
};
use crate::text::lines;

verus! {

/// Whether comments are removed: when asked, or at the balanced level and
/// stronger.
pub open spec fn removes_comments(level: CompressionLevel, asked: bool) -> bool {
    asked || level == CompressionLevel::Balanced || level == CompressionLevel::Aggressive || level
        == CompressionLevel::Extreme
}

/// Whether empty lines are removed: when asked, or at the minimal level and
/// stronger.
pub open spec fn removes_empty_lines(level: CompressionLevel, asked: bool) -> bool {
    asked || level == CompressionLevel::Minimal || level == CompressionLevel::Balanced || level
        == CompressionLevel::Aggressive || level == CompressionLevel::Extreme
}

/// Whether the level only cleans the text (no symbol view, no semantic
/// compression).
pub open spec fn cleaning_level(level: CompressionLevel) -> bool {
    level == CompressionLevel::NoCompression || level == CompressionLevel::Minimal || level
        == CompressionLevel::Balanced
}

/// A file's text after the level's transformation, before base64
/// shortening. Symbol views need the file's language; the semantic level
/// takes the compressor's result when it produced one.
pub open spec fn compressed_text(
    content: Seq<char>,
    language: Option<Seq<char>>,
    symbols: Seq<Symbol>,
    level: CompressionLevel,
    remove_comments: bool,
    remove_empty_lines: bool,
    show_line_numbers: bool,
    semantic: Option<Seq<char>>,
) -> Seq<char> {
    match level {
        CompressionLevel::Aggressive => match language {
            Some(l) => signatures_text(content, l, symbols),
            None => content,
        },
        CompressionLevel::Extreme => match language {
            Some(l) => key_symbols_text(content, l, symbols),
            None => content,
        },
        CompressionLevel::Focused => match language {
            Some(l) => focused_text(content, l, symbols),
            None => content,
        },
        CompressionLevel::Semantic => match semantic {
            Some(s) => s,
            None => content,
        },
        _ => {
            let kept = if removes_empty_lines(level, remove_empty_lines) {
                without_empty_lines(content, show_line_numbers)
            } else {
                content
            };
            if removes_comments(level, remove_comments) {
                match language {
                    Some(l) => without_comments(kept, l, show_line_numbers),
                    None => kept,
                }
            } else {
                kept
            }
        },
    }
}

/// A file's text as `pack` writes it: the level's transformation, then
/// base64 shortening when asked.
pub open spec fn packed_text(
    content: Seq<char>,
    language: Option<Seq<char>>,
    symbols: Seq<Symbol>,
    level: CompressionLevel,
    remove_comments: bool,
    remove_empty_lines: bool,
    show_line_numbers: bool,
    truncate_base64: bool,
    semantic: Option<Seq<char>>,
) -> Seq<char> {
    let c = compressed_text(
        content,
        language,
        symbols,
        level,
        remove_comments,
        remove_empty_lines,
        show_line_numbers,
        semantic,
    );
    if truncate_base64 {
        without_base64(c)
    } else {
        c
    }
}

pub open spec fn str_view(o: Option<&str>) -> Option<Seq<char>> {
    match o {
        Some(s) => Some(s@),
        None => None,
    }
}

/// Transforms one file's text for `pack`; see `packed_text`. `semantic` is
/// what the semantic compressor returned for the text, when the level is
/// semantic and it succeeded. Removing comments numbers lines with `u32`,
/// so a file it applies to has fewer than `u32::MAX` lines.
pub fn transform_content(
    content: &str,
    language: Option<&str>,
    symbols: &Vec<Symbol>,
    level: CompressionLevel,
    remove_comments: bool,
    remove_empty_lines: bool,
    show_line_numbers: bool,
    truncate_base64: bool,
    semantic: Option<&str>,
) -> (r: String)
    requires
        cleaning_level(level) && removes_comments(level, remove_comments) && language is Some
            ==> lines(content@).len() < u32_max(),
    ensures
        r@ == packed_text(
            content@,
            str_view(language),
            symbols@,
            level,
            remove_comments,
            remove_empty_lines,
            show_line_numbers,
            truncate_base64,
            str_view(semantic),
        ),
{
    let compressed: String = match level {
        CompressionLevel::Aggressive => match language {
            Some(l) => extract_signatures_only(content, l, symbols),
            None => content.to_owned(),
        },
        CompressionLevel::Extreme => match language {
            Some(l) => extract_key_symbols_only(content, l, symbols),
            None => content.to_owned(),
        },
        CompressionLevel::Focused => match language {
            Some(l) => extract_key_symbols_focused(content, l, symbols),
            None => content.to_owned(),
        },
        CompressionLevel::Semantic => match semantic {
            Some(s) => s.to_owned(),
            None => content.to_owned(),
        },
        _ => {
            let drop_empty = remove_empty_lines || level == CompressionLevel::Minimal || level
                == CompressionLevel::Balanced;
            let drop_comments = remove_comments || level == CompressionLevel::Balanced;
            let kept = if drop_empty {
                proof {
                    lemma_without_empty_lines_count(content@, show_line_numbers);
                }
                remove_empty_lines_from_content(content, show_line_numbers)
            } else {
                content.to_owned()
            };
            if drop_comments {
                match language {
                    Some(l) => remove_comments_from_content(kept.as_str(), l, show_line_numbers),
                    None => kept,
                }
            } else {
                kept
            }
        },
    };
    if truncate_base64 {
        truncate_base64_content(compressed.as_str())
    } else {
        compressed
    }
}

} // verus!
