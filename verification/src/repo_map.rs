//! The human-readable text of a repository map: its summary, key symbols,
//! module graph and file index.
use vstd::prelude::*;

use crate::diff_output::{concat_map, dec, lemma_concat_map_step, push_dec, push_string};
use crate::text::{
    chars_of, index_of, index_of_char, push_all, push_str, string_from_chars, strip_cr,
    strip_cr_chars, subrange_chars, trim, trim_chars,
};

verus! {

/// A key symbol of the map. Its importance is carried as the text printed
/// for it, with two decimals.
pub struct KeySymbolEntry {
    pub rank: u64,
    pub kind: String,
    pub name: String,
    pub file: String,
    pub line: u64,
    pub references: u64,
    pub importance: String,
    pub summary: Option<String>,
    pub signature: Option<String>,
}

/// A module of the module graph.
pub struct ModuleNode {
    pub name: String,
    pub files: u64,
    pub tokens: u64,
}

/// A dependency between two modules.
pub struct ModuleEdge {
    pub from: String,
    pub to: String,
    pub weight: u64,
}

/// A file of the file index; its importance as printed.
pub struct FileIndexEntry {
    pub path: String,
    pub tokens: u64,
    pub importance: String,
}

/// A repository map as the map command prints it.
pub struct RepoMapView {
    pub token_count: u64,
    pub summary: String,
    pub key_symbols: Vec<KeySymbolEntry>,
    pub nodes: Vec<ModuleNode>,
    pub edges: Vec<ModuleEdge>,
    pub file_index: Vec<FileIndexEntry>,
}

/// A number right-aligned in two columns.
pub open spec fn right2(n: u64) -> Seq<char> {
    if dec(n).len() < 2 {
        seq![' '] + dec(n)
    } else {
        dec(n)
    }
}

/// The first line of a text, as `str::lines` gives it; none for an empty
/// text.
pub open spec fn first_line(s: Seq<char>) -> Option<Seq<char>> {
    if s.len() == 0 {
        None
    } else {
        match index_of(s, '\n') {
            Some(i) => Some(strip_cr(s.subrange(0, i))),
            None => Some(s),
        }
    }
}

/// The first line printed for a key symbol.
pub open spec fn key_symbol_head(k: KeySymbolEntry) -> Seq<char> {
    right2(k.rank) + ". "@ + k.kind@ + " "@ + k.name@ + " - "@ + k.file@ + ":"@ + dec(k.line)
        + " (refs: "@ + dec(k.references) + ", importance: "@ + k.importance@ + ")\n"@
}

/// The summary line of a key symbol, if it has a summary.
pub open spec fn summary_line(s: Option<String>) -> Seq<char> {
    match s {
        Some(s) => "    summary: "@ + s@ + "\n"@,
        None => Seq::empty(),
    }
}

/// The signature line of a key symbol: the first line of its signature,
/// trimmed, if it has one.
pub open spec fn signature_line(sig: Option<String>) -> Seq<char> {
    match sig {
        Some(sig) => match first_line(sig@) {
            Some(l) => "    signature: "@ + trim(l) + "\n"@,
            None => Seq::empty(),
        },
        None => Seq::empty(),
    }
}

/// The lines printed for a key symbol.
pub open spec fn key_symbol_text(k: KeySymbolEntry) -> Seq<char> {
    key_symbol_head(k) + summary_line(k.summary) + signature_line(k.signature)
}

pub open spec fn node_text(n: ModuleNode) -> Seq<char> {
    "- "@ + n.name@ + " (files: "@ + dec(n.files) + ", tokens: "@ + dec(n.tokens) + ")\n"@
}

pub open spec fn edge_text(e: ModuleEdge) -> Seq<char> {
    "  "@ + e.from@ + " -> "@ + e.to@ + " (weight: "@ + dec(e.weight) + ")\n"@
}

pub open spec fn file_entry_text(f: FileIndexEntry) -> Seq<char> {
    "- "@ + f.path@ + " (tokens: "@ + dec(f.tokens) + ", importance: "@ + f.importance@ + ")\n"@
}

/// The items' pieces one after the other, or `(none)` for no items.
pub open spec fn listed_or_none<A>(items: Seq<A>, f: spec_fn(A) -> Seq<char>) -> Seq<char> {
    if items.len() == 0 {
        "(none)\n"@
    } else {
        concat_map(items, f)
    }
}

/// The module graph's section body: its modules, then their dependencies
/// when there are any; `(none)` without modules.
pub open spec fn graph_text(nodes: Seq<ModuleNode>, edges: Seq<ModuleEdge>) -> Seq<char> {
    if nodes.len() == 0 {
        "(none)\n"@
    } else {
        concat_map(nodes, |n: ModuleNode| node_text(n)) + if edges.len() == 0 {
            Seq::empty()
        } else {
            "Dependencies:\n"@ + concat_map(edges, |e: ModuleEdge| edge_text(e))
        }
    }
}

/// The text of a repository map built for a token budget.
pub open spec fn repo_map_text(m: RepoMapView, budget: u32) -> Seq<char> {
    "Repository Map (budget: "@ + dec(budget as u64) + ", estimated tokens: "@ + dec(m.token_count)
        + ")\n"@ + "\n"@ + "Summary\n-------\n"@ + m.summary@ + "\n"@ + "\n"@
        + "Key Symbols\n-----------\n"@ + listed_or_none(
        m.key_symbols@,
        |k: KeySymbolEntry| key_symbol_text(k),
    ) + "\n"@ + "Module Graph\n------------\n"@ + graph_text(m.nodes@, m.edges@) + "\n"@
        + "File Index\n----------\n"@ + listed_or_none(
        m.file_index@,
        |f: FileIndexEntry| file_entry_text(f),
    )
}

fn first_line_chars(s: &Vec<char>) -> (r: Option<Vec<char>>)
    ensures
        match first_line(s@) {
            Some(l) => r is Some && r->0@ == l,
            None => r is None,
        },
{
    if s.len() == 0 {
        return None;
    }
    match index_of_char(s, '\n') {
        Some(i) => {
            let head = subrange_chars(s, 0, i);
            Some(strip_cr_chars(head))
        },
        None => {
            let copy = subrange_chars(s, 0, s.len());
            assert(copy@ =~= s@);
            Some(copy)
        },
    }
}

fn push_key_symbol_head(out: &mut Vec<char>, k: &KeySymbolEntry)
    ensures
        final(out)@ == old(out)@ + key_symbol_head(*k),
{
    let d = crate::text::decimal_chars(k.rank);
    if d.len() < 2 {
        out.push(' ');
    }
    push_all(out, &d);
    assert(out@ =~= old(out)@ + right2(k.rank));
    push_str(out, ". ");
    push_string(out, &k.kind);
    push_str(out, " ");
    push_string(out, &k.name);
    push_str(out, " - ");
    push_string(out, &k.file);
    push_str(out, ":");
    push_dec(out, k.line);
    push_str(out, " (refs: ");
    push_dec(out, k.references);
    push_str(out, ", importance: ");
    push_string(out, &k.importance);
    push_str(out, ")\n");
    assert(out@ =~= old(out)@ + key_symbol_head(*k));
}

fn push_summary_line(out: &mut Vec<char>, s: &Option<String>)
    ensures
        final(out)@ == old(out)@ + summary_line(*s),
{
    match s {
        Some(s) => {
            push_str(out, "    summary: ");
            push_string(out, s);
            push_str(out, "\n");
            assert(out@ =~= old(out)@ + "    summary: "@ + s@ + "\n"@);
        },
        None => {
            assert(out@ =~= old(out)@ + Seq::<char>::empty());
        },
    }
}

fn push_signature_line(out: &mut Vec<char>, sig: &Option<String>)
    ensures
        final(out)@ == old(out)@ + signature_line(*sig),
{
    match sig {
        Some(sig) => {
            let v = chars_of(sig.as_str());
            match first_line_chars(&v) {
                Some(l) => {
                    push_str(out, "    signature: ");
                    let t = trim_chars(&l);
                    push_all(out, &t);
                    push_str(out, "\n");
                    assert(out@ =~= old(out)@ + "    signature: "@ + t@ + "\n"@);
                },
                None => {
                    assert(out@ =~= old(out)@ + Seq::<char>::empty());
                },
            }
        },
        None => {
            assert(out@ =~= old(out)@ + Seq::<char>::empty());
        },
    }
}

fn push_key_symbol(out: &mut Vec<char>, k: &KeySymbolEntry)
    ensures
        final(out)@ == old(out)@ + key_symbol_text(*k),
{
    push_key_symbol_head(out, k);
    push_summary_line(out, &k.summary);
    push_signature_line(out, &k.signature);
    assert(out@ =~= old(out)@ + key_symbol_text(*k));
}

fn push_node(out: &mut Vec<char>, n: &ModuleNode)
    ensures
        final(out)@ == old(out)@ + node_text(*n),
{
    push_str(out, "- ");
    push_string(out, &n.name);
    push_str(out, " (files: ");
    push_dec(out, n.files);
    push_str(out, ", tokens: ");
    push_dec(out, n.tokens);
    push_str(out, ")\n");
    assert(out@ =~= old(out)@ + node_text(*n));
}

fn push_edge(out: &mut Vec<char>, e: &ModuleEdge)
    ensures
        final(out)@ == old(out)@ + edge_text(*e),
{
    push_str(out, "  ");
    push_string(out, &e.from);
    push_str(out, " -> ");
    push_string(out, &e.to);
    push_str(out, " (weight: ");
    push_dec(out, e.weight);
    push_str(out, ")\n");
    assert(out@ =~= old(out)@ + edge_text(*e));
}

fn push_file_entry(out: &mut Vec<char>, f: &FileIndexEntry)
    ensures
        final(out)@ == old(out)@ + file_entry_text(*f),
{
    push_str(out, "- ");
    push_string(out, &f.path);
    push_str(out, " (tokens: ");
    push_dec(out, f.tokens);
    push_str(out, ", importance: ");
    push_string(out, &f.importance);
    push_str(out, ")\n");
    assert(out@ =~= old(out)@ + file_entry_text(*f));
}

fn push_key_symbols(out: &mut Vec<char>, ks: &Vec<KeySymbolEntry>)
    ensures
        final(out)@ == old(out)@ + listed_or_none(ks@, |k: KeySymbolEntry| key_symbol_text(k)),
{
    let ghost f = |k: KeySymbolEntry| key_symbol_text(k);
    if ks.len() == 0 {
        push_str(out, "(none)\n");
        return;
    }
    let ghost q0 = out@;
    let mut i: usize = 0;
    while i < ks.len()
        invariant
            i <= ks.len(),
            f == (|k: KeySymbolEntry| key_symbol_text(k)),
            out@ == q0 + concat_map(ks@.take(i as int), f),
        decreases ks.len() - i,
    {
        proof {
            lemma_concat_map_step(ks@, f, i as int);
        }
        push_key_symbol(out, &ks[i]);
        i = i + 1;
        assert(out@ =~= q0 + concat_map(ks@.take(i as int), f));
    }
    assert(ks@.take(ks.len() as int) =~= ks@);
}

fn push_nodes(out: &mut Vec<char>, ns: &Vec<ModuleNode>)
    ensures
        final(out)@ == old(out)@ + concat_map(ns@, |n: ModuleNode| node_text(n)),
{
    let ghost f = |n: ModuleNode| node_text(n);
    let ghost q0 = out@;
    let mut i: usize = 0;
    while i < ns.len()
        invariant
            i <= ns.len(),
            f == (|n: ModuleNode| node_text(n)),
            out@ == q0 + concat_map(ns@.take(i as int), f),
        decreases ns.len() - i,
    {
        proof {
            lemma_concat_map_step(ns@, f, i as int);
        }
        push_node(out, &ns[i]);
        i = i + 1;
        assert(out@ =~= q0 + concat_map(ns@.take(i as int), f));
    }
    assert(ns@.take(ns.len() as int) =~= ns@);
}

fn push_edges(out: &mut Vec<char>, es: &Vec<ModuleEdge>)
    ensures
        final(out)@ == old(out)@ + concat_map(es@, |e: ModuleEdge| edge_text(e)),
{
    let ghost f = |e: ModuleEdge| edge_text(e);
    let ghost q0 = out@;
    let mut i: usize = 0;
    while i < es.len()
        invariant
            i <= es.len(),
            f == (|e: ModuleEdge| edge_text(e)),
            out@ == q0 + concat_map(es@.take(i as int), f),
        decreases es.len() - i,
    {
        proof {
            lemma_concat_map_step(es@, f, i as int);
        }
        push_edge(out, &es[i]);
        i = i + 1;
        assert(out@ =~= q0 + concat_map(es@.take(i as int), f));
    }
    assert(es@.take(es.len() as int) =~= es@);
}

fn push_file_index(out: &mut Vec<char>, fs: &Vec<FileIndexEntry>)
    ensures
        final(out)@ == old(out)@ + listed_or_none(fs@, |f: FileIndexEntry| file_entry_text(f)),
{
    let ghost g = |f: FileIndexEntry| file_entry_text(f);
    if fs.len() == 0 {
        push_str(out, "(none)\n");
        return;
    }
    let ghost q0 = out@;
    let mut i: usize = 0;
    while i < fs.len()
        invariant
            i <= fs.len(),
            g == (|f: FileIndexEntry| file_entry_text(f)),
            out@ == q0 + concat_map(fs@.take(i as int), g),
        decreases fs.len() - i,
    {
        proof {
            lemma_concat_map_step(fs@, g, i as int);
        }
        push_file_entry(out, &fs[i]);
        i = i + 1;
        assert(out@ =~= q0 + concat_map(fs@.take(i as int), g));
    }
    assert(fs@.take(fs.len() as int) =~= fs@);
}

/// The text the map command prints for a repository map; see
/// `repo_map_text`.
pub fn format_repo_map(map: &RepoMapView, budget: u32) -> (r: String)
    ensures
        r@ == repo_map_text(*map, budget),
{
    let mut out: Vec<char> = Vec::new();
    push_str(&mut out, "Repository Map (budget: ");
    push_dec(&mut out, budget as u64);
    push_str(&mut out, ", estimated tokens: ");
    push_dec(&mut out, map.token_count);
    push_str(&mut out, ")\n");
    push_str(&mut out, "\n");
    push_str(&mut out, "Summary\n-------\n");
    push_string(&mut out, &map.summary);
    push_str(&mut out, "\n");
    push_str(&mut out, "\n");
    push_str(&mut out, "Key Symbols\n-----------\n");
    push_key_symbols(&mut out, &map.key_symbols);
    push_str(&mut out, "\n");
    push_str(&mut out, "Module Graph\n------------\n");
    let ghost before_graph = out@;
    if map.nodes.len() == 0 {
        push_str(&mut out, "(none)\n");
    } else {
        push_nodes(&mut out, &map.nodes);
        if map.edges.len() > 0 {
            push_str(&mut out, "Dependencies:\n");
            push_edges(&mut out, &map.edges);
        }
    }
    assert(out@ =~= before_graph + graph_text(map.nodes@, map.edges@));
    push_str(&mut out, "\n");
    push_str(&mut out, "File Index\n----------\n");
    push_file_index(&mut out, &map.file_index);
    assert(out@ =~= repo_map_text(*map, budget));
    string_from_chars(&out)
}

} // verus!
