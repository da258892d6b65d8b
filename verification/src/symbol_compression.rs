//! Compressing a file to its symbols: declaration lines (with doc
//! comments), the key public symbols, or the key symbols with a little
//! surrounding code; files without symbols fall back to keyword matching.

use vstd::prelude::*;
use crate::text::{
    chars_of, join, lines, push_all, push_str, split_lines, string_from_chars, string_views, trim,
    trim_chars, views,
};
use crate::compression::{extract_signatures_heuristic, heuristic_signatures};
use crate::snippets::{merge_snippet_ranges, merged_ranges, range_views, RangeView, SnippetRange};
use crate::snippet_selection::{join_chars, join_strings, max_u32, min_u32, sat_add, sat_sub};
use crate::diff_output::{concat_map, lemma_concat_map_step};

verus! {

/// The kinds of symbol the compression tells apart.
#[derive(Clone, Copy, Debug, PartialEq, Eq, Structural)]
pub enum SymbolKind {
    Function,
    Class,
    Struct,
    Trait,
    Enum,
    Interface,
    Import,
    Other,
}

/// A symbol found in a file: its name, kind (and the kind's display name),
/// whether it is private, its lines (1-based), and its signature and doc
/// comment when the parser found them.
pub struct Symbol {
    pub name: String,
    pub kind: SymbolKind,
    pub kind_name: String,
    pub is_private: bool,
    pub start_line: u32,
    pub end_line: u32,
    pub signature: Option<String>,
    pub docstring: Option<String>,
}

/// The line numbered `n` (from 1), if the file has it.
pub open spec fn line_at(ls: Seq<Seq<char>>, n: u32) -> Option<Seq<char>> {
    if 0 < n && n <= ls.len() {
        Some(ls[n - 1])
    } else {
        None
    }
}

// ---------------------------------------------------------------------------
// Signatures
// ---------------------------------------------------------------------------

/// One symbol's contribution to the signature view, and the declaration
/// lines used so far: its signature, or else its declaration line (once per
/// line), then its doc comment.
pub open spec fn signature_step(ls: Seq<Seq<char>>, s: Symbol, used: Set<u32>) -> (Seq<char>, Set<u32>) {
    let (head, now_used) = match s.signature {
        Some(sig) => (sig@ + "\n"@, used),
        None => match line_at(ls, s.start_line) {
            Some(l) => if used.contains(s.start_line) {
                (Seq::empty(), used)
            } else {
                (l + "\n"@, used.insert(s.start_line))
            },
            None => (Seq::empty(), used),
        },
    };
    let doc = match s.docstring {
        Some(d) => if d@.len() > 0 {
            "  // "@ + d@ + "\n"@
        } else {
            Seq::empty()
        },
        None => Seq::empty(),
    };
    (head + doc, now_used)
}

pub open spec fn signature_pass(ls: Seq<Seq<char>>, syms: Seq<Symbol>) -> (Seq<char>, Set<u32>)
    decreases syms.len(),
{
    if syms.len() == 0 {
        (Seq::empty(), Set::empty())
    } else {
        let (out, used) = signature_pass(ls, syms.drop_last());
        let (piece, now_used) = signature_step(ls, syms.last(), used);
        (out + piece, now_used)
    }
}

/// The signature view of a file: what the symbols give, or the keyword
/// heuristic when there are no symbols or they give nothing.
pub open spec fn signatures_text(content: Seq<char>, language: Seq<char>, syms: Seq<Symbol>) -> Seq<char> {
    let r = signature_pass(lines(content), syms).0;
    if syms.len() == 0 || r.len() == 0 {
        heuristic_signatures(content, language)
    } else {
        r
    }
}

fn line_of(ls: &Vec<Vec<char>>, n: u32) -> (r: Option<Vec<char>>)
    ensures
        (match r {
            Some(l) => line_at(views(ls@), n) == Some(l@),
            None => line_at(views(ls@), n) is None,
        }),
{
    if n > 0 && (n as usize) <= ls.len() {
        let mut l: Vec<char> = Vec::new();
        push_all(&mut l, &ls[(n - 1) as usize]);
        Some(l)
    } else {
        None
    }
}

fn contains_u32(v: &Vec<u32>, x: u32) -> (r: bool)
    ensures
        r == v@.contains(x),
{
    let mut i: usize = 0;
    while i < v.len()
        invariant
            i <= v.len(),
            forall|k: int| 0 <= k < i ==> v@[k] != x,
        decreases v.len() - i,
    {
        if v[i] == x {
            assert(v@[i as int] == x);
            return true;
        }
        i = i + 1;
    }
    false
}

fn push_doc(out: &mut Vec<char>, doc: &Option<String>)
    ensures
        final(out)@ == old(out)@ + match *doc {
            Some(d) => if d@.len() > 0 {
                "  // "@ + d@ + "\n"@
            } else {
                Seq::empty()
            },
            None => Seq::empty(),
        },
{
    let ghost start = out@;
    match doc {
        Some(d) => {
            let dv = chars_of(d.as_str());
            if dv.len() > 0 {
                push_str(out, "  // ");
                push_all(out, &dv);
                push_str(out, "\n");
            }
        },
        None => {},
    }
}

/// The declaration lines of a file's symbols, with their doc comments; see
/// `signatures_text`.
pub fn extract_signatures_only(content: &str, language: &str, symbols: &Vec<Symbol>) -> (r: String)
    ensures
        r@ == signatures_text(content@, language@, symbols@),
{
    if symbols.len() == 0 {
        return extract_signatures_heuristic(content, language);
    }
    let cv = chars_of(content);
    let ls = split_lines(&cv);
    let ghost lv = views(ls@);
    let mut out: Vec<char> = Vec::new();
    let mut used: Vec<u32> = Vec::new();
    let ghost mut used_set: Set<u32> = Set::empty();
    let mut i: usize = 0;
    while i < symbols.len()
        invariant
            i <= symbols.len(),
            lv == views(ls@),
            lv == lines(content@),
            (out@, used_set) == signature_pass(lv, symbols@.take(i as int)),
            forall|x: u32| used_set.contains(x) <==> used@.contains(x),
        decreases symbols.len() - i,
    {
        proof {
            assert(symbols@.take(i + 1).drop_last() =~= symbols@.take(i as int));
            assert(symbols@.take(i + 1).last() == symbols@[i as int]);
        }
        let ghost before = out@;
        let s = &symbols[i];
        match &s.signature {
            Some(sig) => {
                push_str(&mut out, sig.as_str());
                push_str(&mut out, "\n");
            },
            None => {
                match line_of(&ls, s.start_line) {
                    Some(l) => {
                        if !contains_u32(&used, s.start_line) {
                            push_all(&mut out, &l);
                            push_str(&mut out, "\n");
                            let ghost old_used = used@;
                            used.push(s.start_line);
                            proof {
                                used_set = used_set.insert(s.start_line);
                                assert forall|y: u32| used_set.contains(y) <==> used@.contains(y) by {
                                    if used@.contains(y) {
                                        let k = choose|k: int| 0 <= k < used@.len() && used@[k] == y;
                                        if k < old_used.len() {
                                            assert(old_used[k] == y);
                                        }
                                    }
                                    if old_used.contains(y) {
                                        let k = choose|k: int| 0 <= k < old_used.len() && old_used[k] == y;
                                        assert(used@[k] == y);
                                    }
                                    if y == s.start_line {
                                        assert(used@[old_used.len() as int] == y);
                                    }
                                }
                            }
                        }
                    },
                    None => {},
                }
            },
        }
        let ghost mid = out@;
        push_doc(&mut out, &s.docstring);
        i = i + 1;
        proof {
            let prev = signature_pass(lv, symbols@.take(i - 1));
            assert(out@ =~= before + signature_step(lv, *s, prev.1).0);
            assert(used_set =~= signature_step(lv, *s, prev.1).1);
        }
    }
    assert(symbols@.take(symbols.len() as int) =~= symbols@);
    if out.len() == 0 {
        return extract_signatures_heuristic(content, language);
    }
    string_from_chars(&out)
}

// ---------------------------------------------------------------------------
// Choosing the key symbols
// ---------------------------------------------------------------------------

/// Functions, classes, structs, traits, enums and interfaces that are not
/// private.
pub open spec fn is_key_symbol(s: Symbol) -> bool {
    (s.kind == SymbolKind::Function || s.kind == SymbolKind::Class || s.kind == SymbolKind::Struct
        || s.kind == SymbolKind::Trait || s.kind == SymbolKind::Enum || s.kind
        == SymbolKind::Interface) && !s.is_private
}

pub open spec fn not_import(s: Symbol) -> bool {
    s.kind != SymbolKind::Import
}

/// At most the first `n` elements.
pub open spec fn first_n<A>(s: Seq<A>, n: int) -> Seq<A> {
    if s.len() <= n {
        s
    } else {
        s.take(n)
    }
}

/// The symbols a compressed view shows: up to 30 key symbols, or, when
/// there are none, up to 20 symbols that are not imports.
pub open spec fn chosen_symbols(syms: Seq<Symbol>) -> Seq<Symbol> {
    let key = syms.filter(|s: Symbol| is_key_symbol(s));
    if key.len() == 0 {
        first_n(syms.filter(|s: Symbol| not_import(s)), 20)
    } else {
        first_n(key, 30)
    }
}

/// The key symbols are the functions, classes, structs, traits, enums and
/// interfaces that are not private: such a symbol is shown whenever there
/// are at most 30 key symbols, and while there is any key symbol only such
/// symbols are shown.
pub proof fn law_key_symbols(syms: Seq<Symbol>, i: int)
    requires
        0 <= i < syms.len(),
    ensures
        ({
            let s = syms[i];
            let declared = (s.kind == SymbolKind::Function || s.kind == SymbolKind::Class || s.kind
                == SymbolKind::Struct || s.kind == SymbolKind::Trait || s.kind == SymbolKind::Enum
                || s.kind == SymbolKind::Interface) && !s.is_private;
            &&& is_key_symbol(s) == declared
            &&& declared && syms.filter(|s: Symbol| is_key_symbol(s)).len() <= 30
                ==> chosen_symbols(syms).contains(s)
        }),
        syms.filter(|s: Symbol| is_key_symbol(s)).len() > 0 ==> forall|j: int|
            0 <= j < chosen_symbols(syms).len() ==> {
                let c = #[trigger] chosen_symbols(syms)[j];
                (c.kind == SymbolKind::Function || c.kind == SymbolKind::Class || c.kind
                    == SymbolKind::Struct || c.kind == SymbolKind::Trait || c.kind == SymbolKind::Enum
                    || c.kind == SymbolKind::Interface) && !c.is_private
            },
{
    broadcast use vstd::seq_lib::group_filter_ensures;
    let key = syms.filter(|s: Symbol| is_key_symbol(s));
    if is_key_symbol(syms[i]) {
        assert(key.contains(syms[i]));
        if key.len() <= 30 {
            assert(chosen_symbols(syms) == key);
        }
    }
    if key.len() > 0 {
        assert forall|j: int| 0 <= j < chosen_symbols(syms).len() implies {
            let c = #[trigger] chosen_symbols(syms)[j];
            (c.kind == SymbolKind::Function || c.kind == SymbolKind::Class || c.kind
                == SymbolKind::Struct || c.kind == SymbolKind::Trait || c.kind == SymbolKind::Enum
                || c.kind == SymbolKind::Interface) && !c.is_private
        } by {
            assert(chosen_symbols(syms)[j] == key[j]);
            assert(is_key_symbol(key[j]));
        }
    }
}

pub open spec fn picked(syms: Seq<Symbol>, idx: Seq<usize>) -> Seq<Symbol> {
    idx.map_values(|k: usize| syms[k as int])
}

fn symbol_is_key(s: &Symbol) -> (r: bool)
    ensures
        r == is_key_symbol(*s),
{
    let k = s.kind;
    (k == SymbolKind::Function || k == SymbolKind::Class || k == SymbolKind::Struct || k
        == SymbolKind::Trait || k == SymbolKind::Enum || k == SymbolKind::Interface)
        && !s.is_private
}

fn filter_indices(syms: &Vec<Symbol>, key: bool) -> (r: Vec<usize>)
    ensures
        forall|j: int| 0 <= j < r@.len() ==> r@[j] < syms@.len(),
        picked(syms@, r@) == if key {
            syms@.filter(|s: Symbol| is_key_symbol(s))
        } else {
            syms@.filter(|s: Symbol| not_import(s))
        },
{
    let ghost pred = if key {
        |s: Symbol| is_key_symbol(s)
    } else {
        |s: Symbol| not_import(s)
    };
    let mut r: Vec<usize> = Vec::new();
    let mut i: usize = 0;
    while i < syms.len()
        invariant
            i <= syms.len(),
            pred == if key {
                |s: Symbol| is_key_symbol(s)
            } else {
                |s: Symbol| not_import(s)
            },
            forall|j: int| 0 <= j < r@.len() ==> r@[j] < i,
            picked(syms@, r@) == syms@.take(i as int).filter(pred),
        decreases syms.len() - i,
    {
        let ghost before = picked(syms@, r@);
        proof {
            assert(syms@.take(i + 1) =~= syms@.take(i as int).push(syms@[i as int]));
            syms@.take(i as int).lemma_filter_push(syms@[i as int], pred);
        }
        let take = if key {
            symbol_is_key(&syms[i])
        } else {
            syms[i].kind != SymbolKind::Import
        };
        if take {
            r.push(i);
            assert(picked(syms@, r@) =~= before.push(syms@[i as int]));
        }
        i = i + 1;
    }
    assert(syms@.take(syms.len() as int) =~= syms@);
    r
}

fn first_indices(v: Vec<usize>, n: usize) -> (r: Vec<usize>)
    ensures
        r@ == first_n(v@, n as int),
{
    if v.len() <= n {
        return v;
    }
    let mut r: Vec<usize> = Vec::new();
    let mut i: usize = 0;
    while i < n
        invariant
            i <= n < v.len(),
            r@ == v@.take(i as int),
        decreases n - i,
    {
        r.push(v[i]);
        i = i + 1;
        assert(r@ =~= v@.take(i as int));
    }
    r
}

/// The positions of the chosen symbols; see `chosen_symbols`.
fn chosen_indices(syms: &Vec<Symbol>) -> (r: Vec<usize>)
    ensures
        forall|j: int| 0 <= j < r@.len() ==> r@[j] < syms@.len(),
        picked(syms@, r@) == chosen_symbols(syms@),
{
    let key = filter_indices(syms, true);
    if key.len() == 0 {
        let other = filter_indices(syms, false);
        let r = first_indices(other, 20);
        proof {
            assert(picked(syms@, r@) =~= first_n(picked(syms@, other@), 20));
        }
        r
    } else {
        let r = first_indices(key, 30);
        proof {
            assert(picked(syms@, r@) =~= first_n(picked(syms@, key@), 30));
        }
        r
    }
}

// ---------------------------------------------------------------------------
// Key symbols
// ---------------------------------------------------------------------------

/// A key symbol: a comment naming its kind and name, then its signature or
/// declaration line.
pub open spec fn key_entry(ls: Seq<Seq<char>>, s: Symbol) -> Seq<char> {
    "// "@ + s.kind_name@ + ": "@ + s.name@ + "\n"@ + match s.signature {
        Some(sig) => sig@ + "\n"@,
        None => match line_at(ls, s.start_line) {
            Some(l) => l + "\n"@,
            None => Seq::empty(),
        },
    }
}

/// The key-symbol view of a file, or the keyword heuristic when there are
/// no symbols or none is chosen.
pub open spec fn key_symbols_text(content: Seq<char>, language: Seq<char>, syms: Seq<Symbol>) -> Seq<char> {
    let r = concat_map(chosen_symbols(syms), |s: Symbol| key_entry(lines(content), s));
    if syms.len() == 0 || r.len() == 0 {
        heuristic_signatures(content, language)
    } else {
        r
    }
}

fn push_key_entry(out: &mut Vec<char>, ls: &Vec<Vec<char>>, s: &Symbol)
    ensures
        final(out)@ == old(out)@ + key_entry(views(ls@), *s),
{
    let ghost start = out@;
    push_str(out, "// ");
    push_str(out, s.kind_name.as_str());
    push_str(out, ": ");
    push_str(out, s.name.as_str());
    push_str(out, "\n");
    match &s.signature {
        Some(sig) => {
            push_str(out, sig.as_str());
            push_str(out, "\n");
        },
        None => match line_of(ls, s.start_line) {
            Some(l) => {
                push_all(out, &l);
                push_str(out, "\n");
            },
            None => {},
        },
    }
    assert(out@ =~= start + key_entry(views(ls@), *s));
}

/// The key symbols of a file with their signatures; see
/// `key_symbols_text`.
pub fn extract_key_symbols_only(content: &str, language: &str, symbols: &Vec<Symbol>) -> (r: String)
    ensures
        r@ == key_symbols_text(content@, language@, symbols@),
{
    if symbols.len() == 0 {
        return extract_signatures_heuristic(content, language);
    }
    let cv = chars_of(content);
    let ls = split_lines(&cv);
    let idx = chosen_indices(symbols);
    let ghost chosen = picked(symbols@, idx@);
    let ghost f = |s: Symbol| key_entry(lines(content@), s);
    let mut out: Vec<char> = Vec::new();
    let mut i: usize = 0;
    while i < idx.len()
        invariant
            i <= idx.len(),
            forall|j: int| 0 <= j < idx@.len() ==> idx@[j] < symbols@.len(),
            chosen == picked(symbols@, idx@),
            views(ls@) == lines(content@),
            f == (|s: Symbol| key_entry(lines(content@), s)),
            out@ == concat_map(chosen.take(i as int), f),
        decreases idx.len() - i,
    {
        proof {
            lemma_concat_map_step(chosen, f, i as int);
        }
        push_key_entry(&mut out, &ls, &symbols[idx[i]]);
        i = i + 1;
    }
    assert(chosen.take(idx.len() as int) =~= chosen);
    if out.len() == 0 {
        return extract_signatures_heuristic(content, language);
    }
    string_from_chars(&out)
}

// ---------------------------------------------------------------------------
// Focused symbols
// ---------------------------------------------------------------------------

/// Lines of code kept around a focused symbol.
pub const FOCUS_CONTEXT_LINES: u32 = 2;

pub open spec fn focus_label(s: Symbol) -> Seq<char> {
    s.kind_name@ + ": "@ + s.name@
}

/// The lines shown for a symbol whose place in the file is known: its lines
/// widened by the context and clipped to the file.
pub open spec fn focus_range(s: Symbol, total: u32) -> Option<RangeView> {
    if s.start_line > 0 && s.end_line >= s.start_line && s.start_line <= total {
        Some(
            RangeView {
                start: max_u32(sat_sub(s.start_line, FOCUS_CONTEXT_LINES), 1),
                end: min_u32(sat_add(max_u32(s.end_line, s.start_line), FOCUS_CONTEXT_LINES), total),
                reasons: seq![focus_label(s)],
            },
        )
    } else {
        None
    }
}

pub open spec fn focus_ranges(syms: Seq<Symbol>, total: u32) -> Seq<RangeView>
    decreases syms.len(),
{
    if syms.len() == 0 {
        Seq::empty()
    } else {
        focus_ranges(syms.drop_last(), total) + match focus_range(syms.last(), total) {
            Some(r) => seq![r],
            None => Seq::empty(),
        }
    }
}

/// The signatures of symbols whose place is not known, each under a comment
/// with its label.
pub open spec fn focus_fallbacks(syms: Seq<Symbol>, total: u32) -> Seq<Seq<char>>
    decreases syms.len(),
{
    if syms.len() == 0 {
        Seq::empty()
    } else {
        focus_fallbacks(syms.drop_last(), total) + if focus_range(syms.last(), total) is None {
            match syms.last().signature {
                Some(sig) => seq!["// "@ + focus_label(syms.last()) + "\n"@ + trim(sig@)],
                None => Seq::empty(),
            }
        } else {
            Seq::empty()
        }
    }
}

/// A merged range of focused symbols: a comment with their labels, then
/// their lines, then a blank line.
pub open spec fn focused_block(ls: Seq<Seq<char>>, r: RangeView) -> Seq<char> {
    let s = sat_sub(r.start, 1);
    let e = sat_sub(r.end, 1);
    "// Focused symbols: "@ + join(r.reasons, ", "@) + "\n"@ + (if s <= e && e < ls.len() {
        join(ls.subrange(s as int, e + 1), "\n"@) + "\n"@
    } else {
        Seq::empty()
    }) + "\n"@
}

/// The focused view of a file: the code around each chosen symbol (ranges
/// merged as for diff snippets), then the signatures of the chosen symbols
/// whose place is unknown; empty for a file without lines, the keyword
/// heuristic when there are no symbols or nothing to show.
pub open spec fn focused_text(content: Seq<char>, language: Seq<char>, syms: Seq<Symbol>) -> Seq<char> {
    let ls = lines(content);
    let total = ls.len() as u32;
    let chosen = chosen_symbols(syms);
    let rs = focus_ranges(chosen, total);
    let fb = focus_fallbacks(chosen, total);
    if syms.len() == 0 {
        heuristic_signatures(content, language)
    } else if total == 0 {
        Seq::empty()
    } else if rs.len() == 0 && fb.len() == 0 {
        heuristic_signatures(content, language)
    } else {
        concat_map(merged_ranges(rs), |r: RangeView| focused_block(ls, r)) + if fb.len() > 0 {
            "// Additional signatures\n"@ + concat_map(fb, |f: Seq<char>| f + "\n"@)
        } else {
            Seq::empty()
        }
    }
}

fn labelled_name(s: &Symbol) -> (r: String)
    ensures
        r@ == focus_label(*s),
{
    let mut v: Vec<char> = Vec::new();
    push_str(&mut v, s.kind_name.as_str());
    push_str(&mut v, ": ");
    push_str(&mut v, s.name.as_str());
    string_from_chars(&v)
}

fn collect_focus(
    symbols: &Vec<Symbol>,
    idx: &Vec<usize>,
    total: u32,
) -> (r: (Vec<SnippetRange>, Vec<Vec<char>>))
    requires
        forall|j: int| 0 <= j < idx@.len() ==> idx@[j] < symbols@.len(),
    ensures
        range_views(r.0@) == focus_ranges(picked(symbols@, idx@), total),
        views(r.1@) == focus_fallbacks(picked(symbols@, idx@), total),
{
    let ghost chosen = picked(symbols@, idx@);
    let mut ranges: Vec<SnippetRange> = Vec::new();
    let mut fallbacks: Vec<Vec<char>> = Vec::new();
    let mut i: usize = 0;
    while i < idx.len()
        invariant
            i <= idx.len(),
            forall|j: int| 0 <= j < idx@.len() ==> idx@[j] < symbols@.len(),
            chosen == picked(symbols@, idx@),
            range_views(ranges@) == focus_ranges(chosen.take(i as int), total),
            views(fallbacks@) == focus_fallbacks(chosen.take(i as int), total),
        decreases idx.len() - i,
    {
        proof {
            assert(chosen.take(i + 1).drop_last() =~= chosen.take(i as int));
            assert(chosen.take(i + 1).last() == chosen[i as int]);
        }
        let ghost r0 = range_views(ranges@);
        let ghost f0 = views(fallbacks@);
        let s = &symbols[idx[i]];
        assert(*s == chosen[i as int]);
        if s.start_line > 0 && s.end_line >= s.start_line && s.start_line <= total {
            let lo = if s.start_line >= FOCUS_CONTEXT_LINES {
                s.start_line - FOCUS_CONTEXT_LINES
            } else {
                0
            };
            let lo = if lo >= 1 {
                lo
            } else {
                1
            };
            let hi0 = if s.end_line >= s.start_line {
                s.end_line
            } else {
                s.start_line
            };
            let hi1 = if hi0 as u64 + FOCUS_CONTEXT_LINES as u64 <= u32::MAX as u64 {
                hi0 + FOCUS_CONTEXT_LINES
            } else {
                u32::MAX
            };
            let hi = if hi1 <= total {
                hi1
            } else {
                total
            };
            let mut reasons: Vec<String> = Vec::new();
            reasons.push(labelled_name(s));
            assert(string_views(reasons@) =~= seq![focus_label(*s)]);
            assert(lo == max_u32(sat_sub(s.start_line, FOCUS_CONTEXT_LINES), 1));
            assert(hi == min_u32(sat_add(max_u32(s.end_line, s.start_line), FOCUS_CONTEXT_LINES), total));
            ranges.push(SnippetRange { start: lo, end: hi, reasons });
            assert(range_views(ranges@) =~= r0.push(focus_range(*s, total)->0));
            assert(views(fallbacks@) =~= f0);
        } else {
            match &s.signature {
                Some(sig) => {
                    let mut fbv: Vec<char> = Vec::new();
                    push_str(&mut fbv, "// ");
                    let lab = labelled_name(s);
                    push_str(&mut fbv, lab.as_str());
                    push_str(&mut fbv, "\n");
                    let sv = chars_of(sig.as_str());
                    let t = trim_chars(&sv);
                    push_all(&mut fbv, &t);
                    fallbacks.push(fbv);
                    assert(views(fallbacks@) =~= f0.push(
                        "// "@ + focus_label(*s) + "\n"@ + trim(sig@),
                    ));
                },
                None => {},
            }
            assert(range_views(ranges@) =~= r0);
        }
        i = i + 1;
    }
    assert(chosen.take(idx.len() as int) =~= chosen);
    (ranges, fallbacks)
}

fn push_focused_block(out: &mut Vec<char>, ls: &Vec<Vec<char>>, r: &SnippetRange)
    ensures
        final(out)@ == old(out)@ + focused_block(views(ls@), range_views(seq![*r])[0]),
{
    let ghost start = out@;
    let ghost rv = range_views(seq![*r])[0];
    push_str(out, "// Focused symbols: ");
    let labels = join_strings(&r.reasons, ", ");
    push_all(out, &labels);
    push_str(out, "\n");
    let s = if r.start >= 1 {
        (r.start - 1) as usize
    } else {
        0
    };
    let e = if r.end >= 1 {
        (r.end - 1) as usize
    } else {
        0
    };
    let ghost mid = out@;
    if s <= e && e < ls.len() {
        let mut part: Vec<Vec<char>> = Vec::new();
        let mut k: usize = s;
        while k <= e
            invariant
                s <= k <= e + 1,
                e < ls.len(),
                views(part@) == views(ls@).subrange(s as int, k as int),
            decreases e + 1 - k,
        {
            let ghost prevp = views(part@);
            let mut line: Vec<char> = Vec::new();
            push_all(&mut line, &ls[k]);
            part.push(line);
            assert(views(part@) =~= prevp.push(ls@[k as int]@));
            k = k + 1;
            assert(views(part@) =~= views(ls@).subrange(s as int, k as int));
        }
        let body = join_chars(&part, "\n");
        push_all(out, &body);
        push_str(out, "\n");
    }
    push_str(out, "\n");
    assert(out@ =~= start + focused_block(views(ls@), rv));
}

/// The chosen symbols of a file with the code around them; see
/// `focused_text`.
pub fn extract_key_symbols_focused(content: &str, language: &str, symbols: &Vec<Symbol>) -> (r:
    String)
    ensures
        r@ == focused_text(content@, language@, symbols@),
{
    if symbols.len() == 0 {
        return extract_signatures_heuristic(content, language);
    }
    let cv = chars_of(content);
    let ls = split_lines(&cv);
    let total: u32 = #[verifier::truncate] (ls.len() as u32);
    if total == 0 {
        return String::new();
    }
    let idx = chosen_indices(symbols);
    let (ranges, fallbacks) = collect_focus(symbols, &idx, total);
    if ranges.len() == 0 && fallbacks.len() == 0 {
        return extract_signatures_heuristic(content, language);
    }
    let merged = merge_snippet_ranges(ranges);
    let ghost mv = range_views(merged@);
    let ghost f = |r: RangeView| focused_block(lines(content@), r);
    let mut out: Vec<char> = Vec::new();
    let mut i: usize = 0;
    while i < merged.len()
        invariant
            i <= merged.len(),
            mv == range_views(merged@),
            views(ls@) == lines(content@),
            f == (|r: RangeView| focused_block(lines(content@), r)),
            out@ == concat_map(mv.take(i as int), f),
        decreases merged.len() - i,
    {
        proof {
            lemma_concat_map_step(mv, f, i as int);
            assert(range_views(seq![merged@[i as int]])[0] == mv[i as int]);
        }
        push_focused_block(&mut out, &ls, &merged[i]);
        i = i + 1;
    }
    assert(mv.take(merged.len() as int) =~= mv);
    let ghost head = out@;
    if fallbacks.len() > 0 {
        push_str(&mut out, "// Additional signatures\n");
        let ghost q0 = out@;
        let ghost g = |x: Seq<char>| x + "\n"@;
        let ghost fv = views(fallbacks@);
        let mut j: usize = 0;
        while j < fallbacks.len()
            invariant
                j <= fallbacks.len(),
                fv == views(fallbacks@),
                g == (|x: Seq<char>| x + "\n"@),
                out@ == q0 + concat_map(fv.take(j as int), g),
            decreases fallbacks.len() - j,
        {
            proof {
                lemma_concat_map_step(fv, g, j as int);
            }
            let ghost before = out@;
            push_all(&mut out, &fallbacks[j]);
            push_str(&mut out, "\n");
            assert(out@ =~= before + g(fv[j as int]));
            j = j + 1;
            assert(out@ =~= q0 + concat_map(fv.take(j as int), g));
        }
        assert(fv.take(fallbacks.len() as int) =~= fv);
    }
    assert(out@ =~= focused_text(content@, language@, symbols@));
    string_from_chars(&out)
}

} // verus!
