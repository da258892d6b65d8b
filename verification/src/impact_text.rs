//! The text of the `impact` command: what calls a symbol and what it calls,
//! what a file defines and who imports it, each list cut at a display limit.
use vstd::prelude::*;

use crate::diff_output::{concat_map, dec, lemma_concat_map_step, push_dec, push_string};
use crate::text::{push_str, string_from_chars};

verus! {

/// A symbol another one is related to, with its file's path.
pub struct SymbolRef {
    pub name: String,
    pub path: String,
}

/// A symbol a file defines.
pub struct FileSymbol {
    pub name: String,
    pub kind: String,
    pub line: u64,
}

/// At most `limit` leading entries.
pub open spec fn shown<T>(s: Seq<T>, limit: usize) -> Seq<T> {
    if s.len() <= limit {
        s
    } else {
        s.take(limit as int)
    }
}

/// The line that counts the entries left out, if any are.
pub open spec fn more_line(n: nat, limit: usize) -> Seq<char> {
    if n > limit {
        "    ... and "@ + dec((n - limit) as u64) + " more\n"@
    } else {
        Seq::empty()
    }
}

/// A related symbol's line; nothing for one the index no longer knows.
pub open spec fn ref_line(r: Option<SymbolRef>) -> Seq<char> {
    match r {
        Some(r) => "    • "@ + r.name@ + " ("@ + r.path@ + ")\n"@,
        None => Seq::empty(),
    }
}

/// A titled list of related symbols: nothing for none; else the title with
/// their count, the first `limit` of them, and how many more there are.
pub open spec fn refs_block(title: Seq<char>, refs: Seq<Option<SymbolRef>>, limit: usize) -> Seq<
    char,
> {
    if refs.len() == 0 {
        Seq::empty()
    } else {
        "  "@ + title + " ("@ + dec(refs.len() as u64) + "):\n"@ + concat_map(
            shown(refs, limit),
            |r: Option<SymbolRef>| ref_line(r),
        ) + more_line(refs.len(), limit)
    }
}

/// The lines under a symbol: its callers, and its callees when the call
/// graph is asked for.
pub open spec fn symbol_impact_text(
    callers: Seq<Option<SymbolRef>>,
    callees: Seq<Option<SymbolRef>>,
    show_call_graph: bool,
    limit: usize,
) -> Seq<char> {
    refs_block("Called by"@, callers, limit) + if show_call_graph {
        refs_block("Calls"@, callees, limit)
    } else {
        Seq::empty()
    }
}

/// A defined symbol's line.
pub open spec fn file_symbol_line(s: FileSymbol) -> Seq<char> {
    "    • "@ + s.name@ + " ("@ + s.kind@ + ") L"@ + dec(s.line) + "\n"@
}

/// An importer's line; nothing for a file the index no longer knows.
pub open spec fn importer_line(p: Option<String>) -> Seq<char> {
    match p {
        Some(p) => "    • "@ + p@ + "\n"@,
        None => Seq::empty(),
    }
}

/// The lines under a file: the symbols it defines and the files that import
/// it, each list cut at `limit`.
pub open spec fn file_impact_text(
    symbols: Seq<FileSymbol>,
    importers: Seq<Option<String>>,
    limit: usize,
) -> Seq<char> {
    (if symbols.len() == 0 {
        Seq::empty()
    } else {
        "  Symbols ("@ + dec(symbols.len() as u64) + "):\n"@ + concat_map(
            shown(symbols, limit),
            |s: FileSymbol| file_symbol_line(s),
        ) + more_line(symbols.len(), limit)
    }) + (if importers.len() == 0 {
        Seq::empty()
    } else {
        "  Imported by ("@ + dec(importers.len() as u64) + "):\n"@ + concat_map(
            shown(importers, limit),
            |p: Option<String>| importer_line(p),
        ) + more_line(importers.len(), limit)
    })
}

/// The heading of a symbol, after the arrow: name, kind, file and line.
pub open spec fn symbol_heading_text(name: Seq<char>, kind: Seq<char>, file: Seq<char>, line: u64) -> Seq<char> {
    name + " ("@ + kind + ") in "@ + file + ":"@ + dec(line)
}

/// The heading of a file, after the arrow: path, language, lines, tokens.
pub open spec fn file_heading_text(path: Seq<char>, language: Seq<char>, lines: u64, tokens: u64) -> Seq<char> {
    path + " ("@ + language + ", "@ + dec(lines) + " lines, ~"@ + dec(tokens) + " tokens)"@
}

fn push_more_line(out: &mut Vec<char>, n: usize, limit: usize)
    ensures
        final(out)@ == old(out)@ + more_line(n as nat, limit),
{
    if n > limit {
        push_str(out, "    ... and ");
        push_dec(out, (n - limit) as u64);
        push_str(out, " more\n");
    }
    assert(out@ =~= old(out)@ + more_line(n as nat, limit));
}

fn push_refs_block(out: &mut Vec<char>, title: &str, refs: &Vec<Option<SymbolRef>>, limit: usize)
    ensures
        final(out)@ == old(out)@ + refs_block(title@, refs@, limit),
{
    if refs.len() == 0 {
        assert(out@ =~= old(out)@ + refs_block(title@, refs@, limit));
        return;
    }
    push_str(out, "  ");
    push_str(out, title);
    push_str(out, " (");
    push_dec(out, refs.len() as u64);
    push_str(out, "):\n");
    let ghost f = |r: Option<SymbolRef>| ref_line(r);
    let ghost q0 = out@;
    let n = if refs.len() <= limit {
        refs.len()
    } else {
        limit
    };
    assert(shown(refs@, limit) =~= refs@.take(n as int));
    let mut i: usize = 0;
    while i < n
        invariant
            i <= n <= refs.len(),
            f == (|r: Option<SymbolRef>| ref_line(r)),
            out@ == q0 + concat_map(refs@.take(i as int), f),
        decreases n - i,
    {
        proof {
            lemma_concat_map_step(refs@, f, i as int);
        }
        match &refs[i] {
            Some(r) => {
                push_str(out, "    • ");
                push_string(out, &r.name);
                push_str(out, " (");
                push_string(out, &r.path);
                push_str(out, ")\n");
            },
            None => {},
        }
        i = i + 1;
        assert(out@ =~= q0 + concat_map(refs@.take(i as int), f));
    }
    push_more_line(out, refs.len(), limit);
    assert(out@ =~= old(out)@ + refs_block(title@, refs@, limit));
}

/// The callers and callees listed under a symbol; see `symbol_impact_text`.
/// `callers` and `callees` hold each related symbol as the index finds it.
pub fn symbol_impact_lines(
    callers: &Vec<Option<SymbolRef>>,
    callees: &Vec<Option<SymbolRef>>,
    show_call_graph: bool,
    limit: usize,
) -> (r: String)
    ensures
        r@ == symbol_impact_text(callers@, callees@, show_call_graph, limit),
{
    let mut out: Vec<char> = Vec::new();
    push_refs_block(&mut out, "Called by", callers, limit);
    if show_call_graph {
        push_refs_block(&mut out, "Calls", callees, limit);
    }
    assert(out@ =~= symbol_impact_text(callers@, callees@, show_call_graph, limit));
    string_from_chars(&out)
}

fn push_file_symbols(out: &mut Vec<char>, symbols: &Vec<FileSymbol>, limit: usize)
    ensures
        final(out)@ == old(out)@ + (if symbols@.len() == 0 {
            Seq::empty()
        } else {
            "  Symbols ("@ + dec(symbols@.len() as u64) + "):\n"@ + concat_map(
                shown(symbols@, limit),
                |s: FileSymbol| file_symbol_line(s),
            ) + more_line(symbols@.len(), limit)
        }),
{
    if symbols.len() == 0 {
        assert(out@ =~= old(out)@ + Seq::<char>::empty());
        return;
    }
    push_str(out, "  Symbols (");
    push_dec(out, symbols.len() as u64);
    push_str(out, "):\n");
    let ghost f = |s: FileSymbol| file_symbol_line(s);
    let ghost q0 = out@;
    let n = if symbols.len() <= limit {
        symbols.len()
    } else {
        limit
    };
    assert(shown(symbols@, limit) =~= symbols@.take(n as int));
    let mut i: usize = 0;
    while i < n
        invariant
            i <= n <= symbols.len(),
            f == (|s: FileSymbol| file_symbol_line(s)),
            out@ == q0 + concat_map(symbols@.take(i as int), f),
        decreases n - i,
    {
        proof {
            lemma_concat_map_step(symbols@, f, i as int);
        }
        let s = &symbols[i];
        push_str(out, "    • ");
        push_string(out, &s.name);
        push_str(out, " (");
        push_string(out, &s.kind);
        push_str(out, ") L");
        push_dec(out, s.line);
        push_str(out, "\n");
        i = i + 1;
        assert(out@ =~= q0 + concat_map(symbols@.take(i as int), f));
    }
    push_more_line(out, symbols.len(), limit);
}

fn push_importers(out: &mut Vec<char>, importers: &Vec<Option<String>>, limit: usize)
    ensures
        final(out)@ == old(out)@ + (if importers@.len() == 0 {
            Seq::empty()
        } else {
            "  Imported by ("@ + dec(importers@.len() as u64) + "):\n"@ + concat_map(
                shown(importers@, limit),
                |p: Option<String>| importer_line(p),
            ) + more_line(importers@.len(), limit)
        }),
{
    if importers.len() == 0 {
        assert(out@ =~= old(out)@ + Seq::<char>::empty());
        return;
    }
    push_str(out, "  Imported by (");
    push_dec(out, importers.len() as u64);
    push_str(out, "):\n");
    let ghost f = |p: Option<String>| importer_line(p);
    let ghost q0 = out@;
    let n = if importers.len() <= limit {
        importers.len()
    } else {
        limit
    };
    assert(shown(importers@, limit) =~= importers@.take(n as int));
    let mut i: usize = 0;
    while i < n
        invariant
            i <= n <= importers.len(),
            f == (|p: Option<String>| importer_line(p)),
            out@ == q0 + concat_map(importers@.take(i as int), f),
        decreases n - i,
    {
        proof {
            lemma_concat_map_step(importers@, f, i as int);
        }
        match &importers[i] {
            Some(p) => {
                push_str(out, "    • ");
                push_string(out, p);
                push_str(out, "\n");
            },
            None => {},
        }
        i = i + 1;
        assert(out@ =~= q0 + concat_map(importers@.take(i as int), f));
    }
    push_more_line(out, importers.len(), limit);
}

/// The symbols and importers listed under a file; see `file_impact_text`.
pub fn file_impact_lines(
    symbols: &Vec<FileSymbol>,
    importers: &Vec<Option<String>>,
    limit: usize,
) -> (r: String)
    ensures
        r@ == file_impact_text(symbols@, importers@, limit),
{
    let mut out: Vec<char> = Vec::new();
    push_file_symbols(&mut out, symbols, limit);
    push_importers(&mut out, importers, limit);
    assert(out@ =~= file_impact_text(symbols@, importers@, limit));
    string_from_chars(&out)
}

/// The heading of an analysed symbol; see `symbol_heading_text`.
pub fn symbol_heading(name: &String, kind: &String, file: &String, line: u64) -> (r: String)
    ensures
        r@ == symbol_heading_text(name@, kind@, file@, line),
{
    let mut out: Vec<char> = Vec::new();
    push_string(&mut out, name);
    push_str(&mut out, " (");
    push_string(&mut out, kind);
    push_str(&mut out, ") in ");
    push_string(&mut out, file);
    push_str(&mut out, ":");
    push_dec(&mut out, line);
    assert(out@ =~= symbol_heading_text(name@, kind@, file@, line));
    string_from_chars(&out)
}

/// The heading of an analysed file; see `file_heading_text`.
pub fn file_heading(path: &String, language: &String, lines: u64, tokens: u64) -> (r: String)
    ensures
        r@ == file_heading_text(path@, language@, lines, tokens),
{
    let mut out: Vec<char> = Vec::new();
    push_string(&mut out, path);
    push_str(&mut out, " (");
    push_string(&mut out, language);
    push_str(&mut out, ", ");
    push_dec(&mut out, lines);
    push_str(&mut out, " lines, ~");
    push_dec(&mut out, tokens);
    push_str(&mut out, " tokens)");
    assert(out@ =~= file_heading_text(path@, language@, lines, tokens));
    string_from_chars(&out)
}

} // verus!
