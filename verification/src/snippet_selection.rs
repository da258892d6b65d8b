//! Choosing the snippets a file of the diff context shows: ranges around
//! the changed hunks, the changed and dependent symbols declared in it, and
//! (for tests) the lines that mention a changed symbol; the ranges are
//! merged and cut out of the file's lines.

use vstd::prelude::*;
use crate::text::{
    chars_of, join, lines, push_all, push_str, split_lines, string_from_chars, string_views, views,
};
use crate::snippets::{
    line_contains_symbol_name, merge_snippet_ranges, merged_ranges, mentions_symbol, range_views,
    RangeView, SnippetRange,
};
use crate::diff_output::DiffSnippet;

verus! {

/// A symbol declared in the file: its name and its lines (1-based).
pub struct SymbolSpan {
    pub name: String,
    pub start_line: u32,
    pub end_line: u32,
}

/// How many lines of context surround a hunk or a reference.
pub const CONTEXT_LINES: u32 = 3;

/// At most this many lines of a removed file are shown.
pub const REMOVED_FILE_LINES: u32 = 200;

pub open spec fn sat_sub(a: u32, b: u32) -> u32 {
    if a >= b {
        (a - b) as u32
    } else {
        0
    }
}

pub open spec fn sat_add(a: u32, b: u32) -> u32 {
    if a + b <= u32::MAX {
        (a + b) as u32
    } else {
        u32::MAX
    }
}

pub open spec fn max_u32(a: u32, b: u32) -> u32 {
    if a >= b {
        a
    } else {
        b
    }
}

pub open spec fn min_u32(a: u32, b: u32) -> u32 {
    if a <= b {
        a
    } else {
        b
    }
}

/// The range around a changed hunk `(s, e)`, widened by the context lines
/// and clipped to the file; none when nothing is left.
pub open spec fn hunk_range(s: u32, e: u32, total: u32) -> Option<RangeView> {
    let start = max_u32(sat_sub(s, CONTEXT_LINES), 1);
    let end = min_u32(sat_add(e, CONTEXT_LINES), total);
    if start <= end {
        Some(RangeView { start, end, reasons: seq!["diff hunk"@] })
    } else {
        None
    }
}

pub open spec fn hunk_ranges(secs: Seq<(u32, u32)>, total: u32) -> Seq<RangeView>
    decreases secs.len(),
{
    if secs.len() == 0 {
        Seq::empty()
    } else {
        hunk_ranges(secs.drop_last(), total) + match hunk_range(secs.last().0, secs.last().1, total) {
            Some(r) => seq![r],
            None => Seq::empty(),
        }
    }
}

/// The lines of a symbol (starting at line 1 at the earliest, ending no
/// earlier than it starts, clipped to the file), labelled with its name.
pub open spec fn symbol_range(sym: SymbolSpan, total: u32, label: Seq<char>) -> RangeView {
    let start = max_u32(sym.start_line, 1);
    let end = min_u32(max_u32(sym.end_line, start), total);
    RangeView { start, end, reasons: seq![label + sym.name@] }
}

pub open spec fn symbol_ranges(syms: Seq<SymbolSpan>, total: u32, label: Seq<char>) -> Seq<RangeView> {
    syms.map_values(|s: SymbolSpan| symbol_range(s, total, label))
}

/// The range around line `no` for a mention of `name`.
pub open spec fn reference_range(no: u32, total: u32, name: Seq<char>) -> RangeView {
    RangeView {
        start: max_u32(sat_sub(no, CONTEXT_LINES), 1),
        end: min_u32(sat_add(no, CONTEXT_LINES), total),
        reasons: seq!["references changed symbol: "@ + name],
    }
}

/// One range per name of `names` (in order) that line `no` mentions.
pub open spec fn line_references(line: Seq<char>, no: u32, names: Seq<Seq<char>>, total: u32) -> Seq<
    RangeView,
>
    decreases names.len(),
{
    if names.len() == 0 {
        Seq::empty()
    } else {
        line_references(line, no, names.drop_last(), total) + if mentions_symbol(
            line,
            names.last(),
        ) {
            seq![reference_range(no, total, names.last())]
        } else {
            Seq::empty()
        }
    }
}

/// The mentions of the changed symbols in the lines, line by line.
pub open spec fn reference_ranges(ls: Seq<Seq<char>>, names: Seq<Seq<char>>, total: u32) -> Seq<
    RangeView,
>
    decreases ls.len(),
{
    if ls.len() == 0 {
        Seq::empty()
    } else {
        reference_ranges(ls.drop_last(), names, total) + line_references(
            ls.last(),
            ls.len() as u32,
            names,
            total,
        )
    }
}

/// All candidate ranges of a file, in the order they are collected: hunks,
/// changed symbols, dependent symbols, then (for a test file) mentions of
/// changed symbols; a removed file with none of these shows its start.
pub open spec fn candidate_ranges(
    ls: Seq<Seq<char>>,
    sections: Seq<(u32, u32)>,
    changed: Seq<SymbolSpan>,
    dependent: Seq<SymbolSpan>,
    is_test: bool,
    names: Seq<Seq<char>>,
    deleted: bool,
) -> Seq<RangeView> {
    let total = ls.len() as u32;
    let base = hunk_ranges(sections, total) + symbol_ranges(changed, total, "changed symbol: "@)
        + symbol_ranges(dependent, total, "dependent symbol: "@) + if is_test {
        reference_ranges(ls, names, total)
    } else {
        Seq::empty()
    };
    if base.len() == 0 && deleted {
        seq![
            RangeView {
                start: 1,
                end: min_u32(total, REMOVED_FILE_LINES),
                reasons: seq!["file removed"@],
            },
        ]
    } else {
        base
    }
}

/// The mathematical content of a snippet.
pub struct SnippetView {
    pub start_line: u32,
    pub end_line: u32,
    pub reason: Seq<char>,
    pub content: Seq<char>,
}

pub open spec fn snippet_view(s: DiffSnippet) -> SnippetView {
    SnippetView { start_line: s.start_line, end_line: s.end_line, reason: s.reason@, content: s.content@ }
}

pub open spec fn snippet_views(v: Seq<DiffSnippet>) -> Seq<SnippetView> {
    v.map_values(|s: DiffSnippet| snippet_view(s))
}

/// The snippet a merged range cuts out of the lines: its lines joined by
/// newlines and its reasons by `"; "`; none when the range falls outside.
pub open spec fn cut_snippet(ls: Seq<Seq<char>>, r: RangeView) -> Option<SnippetView> {
    let s = sat_sub(r.start, 1);
    let e = sat_sub(r.end, 1);
    if s >= ls.len() || e >= ls.len() || s > e {
        None
    } else {
        Some(
            SnippetView {
                start_line: r.start,
                end_line: r.end,
                reason: join(r.reasons, "; "@),
                content: join(ls.subrange(s as int, e + 1), "\n"@),
            },
        )
    }
}

pub open spec fn cut_snippets(ls: Seq<Seq<char>>, rs: Seq<RangeView>) -> Seq<SnippetView>
    decreases rs.len(),
{
    if rs.len() == 0 {
        Seq::empty()
    } else {
        cut_snippets(ls, rs.drop_last()) + match cut_snippet(ls, rs.last()) {
            Some(s) => seq![s],
            None => Seq::empty(),
        }
    }
}

/// The snippets of a file with lines `ls`.
pub open spec fn file_snippets(
    ls: Seq<Seq<char>>,
    sections: Seq<(u32, u32)>,
    changed: Seq<SymbolSpan>,
    dependent: Seq<SymbolSpan>,
    is_test: bool,
    names: Seq<Seq<char>>,
    deleted: bool,
) -> Seq<SnippetView> {
    cut_snippets(
        ls,
        merged_ranges(candidate_ranges(ls, sections, changed, dependent, is_test, names, deleted)),
    )
}

/// Lines joined with a separator.
pub fn join_chars(ls: &Vec<Vec<char>>, sep: &str) -> (r: Vec<char>)
    ensures
        r@ == join(views(ls@), sep@),
{
    let mut r: Vec<char> = Vec::new();
    let mut i: usize = 0;
    while i < ls.len()
        invariant
            i <= ls.len(),
            r@ == join(views(ls@).take(i as int), sep@),
        decreases ls.len() - i,
    {
        let ghost prev = views(ls@).take(i as int);
        if i > 0 {
            push_str(&mut r, sep);
        }
        push_all(&mut r, &ls[i]);
        i = i + 1;
        proof {
            let cur = views(ls@).take(i as int);
            assert(cur.drop_last() == prev);
            assert(cur.last() == ls[i - 1]@);
            if i == 1 {
                assert(r@ == cur[0]);
            }
        }
    }
    assert(views(ls@).take(ls.len() as int) == views(ls@));
    r
}

/// Strings joined with a separator.
pub fn join_strings(v: &Vec<String>, sep: &str) -> (r: Vec<char>)
    ensures
        r@ == join(string_views(v@), sep@),
{
    let mut r: Vec<char> = Vec::new();
    let mut i: usize = 0;
    while i < v.len()
        invariant
            i <= v.len(),
            r@ == join(string_views(v@).take(i as int), sep@),
        decreases v.len() - i,
    {
        let ghost prev = string_views(v@).take(i as int);
        if i > 0 {
            push_str(&mut r, sep);
        }
        push_str(&mut r, v[i].as_str());
        i = i + 1;
        proof {
            let cur = string_views(v@).take(i as int);
            assert(cur.drop_last() == prev);
            assert(cur.last() == v@[i - 1]@);
            if i == 1 {
                assert(r@ == cur[0]);
            }
        }
    }
    assert(string_views(v@).take(v.len() as int) == string_views(v@));
    r
}

fn labelled(label: &str, name: &String) -> (r: String)
    ensures
        r@ == label@ + name@,
{
    let mut v: Vec<char> = Vec::new();
    push_str(&mut v, label);
    push_str(&mut v, name.as_str());
    string_from_chars(&v)
}

fn one_reason(reason: String) -> (r: Vec<String>)
    ensures
        string_views(r@) == seq![reason@],
{
    let mut r: Vec<String> = Vec::new();
    r.push(reason);
    assert(string_views(r@) =~= seq![reason@]);
    r
}

fn sat_sub_exec(a: u32, b: u32) -> (r: u32)
    ensures
        r == sat_sub(a, b),
{
    if a >= b {
        a - b
    } else {
        0
    }
}

fn sat_add_exec(a: u32, b: u32) -> (r: u32)
    ensures
        r == sat_add(a, b),
{
    if a as u64 + b as u64 <= u32::MAX as u64 {
        a + b
    } else {
        u32::MAX
    }
}

fn max_exec(a: u32, b: u32) -> (r: u32)
    ensures
        r == max_u32(a, b),
{
    if a >= b {
        a
    } else {
        b
    }
}

fn min_exec(a: u32, b: u32) -> (r: u32)
    ensures
        r == min_u32(a, b),
{
    if a <= b {
        a
    } else {
        b
    }
}

fn push_hunk_ranges(out: &mut Vec<SnippetRange>, secs: &Vec<(u32, u32)>, total: u32)
    ensures
        range_views(final(out)@) == range_views(old(out)@) + hunk_ranges(secs@, total),
{
    let ghost start = range_views(out@);
    let mut i: usize = 0;
    while i < secs.len()
        invariant
            i <= secs.len(),
            range_views(out@) == start + hunk_ranges(secs@.take(i as int), total),
        decreases secs.len() - i,
    {
        let ghost before = range_views(out@);
        proof {
            assert(secs@.take(i + 1).drop_last() =~= secs@.take(i as int));
            assert(secs@.take(i + 1).last() == secs@[i as int]);
        }
        let (s, e) = secs[i];
        let lo = max_exec(sat_sub_exec(s, CONTEXT_LINES), 1);
        let hi = min_exec(sat_add_exec(e, CONTEXT_LINES), total);
        if lo <= hi {
            let reasons = one_reason("diff hunk".to_owned());
            out.push(SnippetRange { start: lo, end: hi, reasons });
            assert(range_views(out@) =~= before.push(
                RangeView { start: lo, end: hi, reasons: seq!["diff hunk"@] },
            ));
        }
        i = i + 1;
        assert(range_views(out@) =~= start + hunk_ranges(secs@.take(i as int), total));
    }
    assert(secs@.take(secs.len() as int) =~= secs@);
}

fn push_symbol_ranges(out: &mut Vec<SnippetRange>, syms: &Vec<SymbolSpan>, total: u32, label: &str)
    ensures
        range_views(final(out)@) == range_views(old(out)@) + symbol_ranges(syms@, total, label@),
{
    let ghost start = range_views(out@);
    let mut i: usize = 0;
    while i < syms.len()
        invariant
            i <= syms.len(),
            range_views(out@) == start + symbol_ranges(syms@.take(i as int), total, label@),
        decreases syms.len() - i,
    {
        let ghost before = range_views(out@);
        let sym = &syms[i];
        let lo = max_exec(sym.start_line, 1);
        let hi = min_exec(max_exec(sym.end_line, lo), total);
        let reasons = one_reason(labelled(label, &sym.name));
        out.push(SnippetRange { start: lo, end: hi, reasons });
        assert(range_views(out@) =~= before.push(symbol_range(*sym, total, label@)));
        i = i + 1;
        assert(symbol_ranges(syms@.take(i as int), total, label@) =~= symbol_ranges(
            syms@.take(i - 1),
            total,
            label@,
        ).push(symbol_range(syms@[i - 1], total, label@)));
        assert(range_views(out@) =~= start + symbol_ranges(syms@.take(i as int), total, label@));
    }
    assert(syms@.take(syms.len() as int) =~= syms@);
}

fn push_line_references(
    out: &mut Vec<SnippetRange>,
    line: &String,
    no: u32,
    names: &Vec<String>,
    total: u32,
)
    ensures
        range_views(final(out)@) == range_views(old(out)@) + line_references(
            line@,
            no,
            string_views(names@),
            total,
        ),
{
    let ghost start = range_views(out@);
    let ghost nv = string_views(names@);
    let mut j: usize = 0;
    while j < names.len()
        invariant
            j <= names.len(),
            nv == string_views(names@),
            range_views(out@) == start + line_references(line@, no, nv.take(j as int), total),
        decreases names.len() - j,
    {
        let ghost before = range_views(out@);
        proof {
            assert(nv.take(j + 1).drop_last() =~= nv.take(j as int));
            assert(nv.take(j + 1).last() == names@[j as int]@);
        }
        if line_contains_symbol_name(line.as_str(), names[j].as_str()) {
            let lo = max_exec(sat_sub_exec(no, CONTEXT_LINES), 1);
            let hi = min_exec(sat_add_exec(no, CONTEXT_LINES), total);
            let reasons = one_reason(labelled("references changed symbol: ", &names[j]));
            out.push(SnippetRange { start: lo, end: hi, reasons });
            assert(range_views(out@) =~= before.push(reference_range(no, total, names@[j as int]@)));
        }
        j = j + 1;
        assert(range_views(out@) =~= start + line_references(line@, no, nv.take(j as int), total));
    }
    assert(nv.take(names.len() as int) =~= nv);
}

fn push_reference_ranges(
    out: &mut Vec<SnippetRange>,
    ls: &Vec<Vec<char>>,
    names: &Vec<String>,
    total: u32,
)
    requires
        ls.len() <= u32::MAX,
    ensures
        range_views(final(out)@) == range_views(old(out)@) + reference_ranges(
            views(ls@),
            string_views(names@),
            total,
        ),
{
    let ghost start = range_views(out@);
    let ghost lv = views(ls@);
    let mut i: usize = 0;
    while i < ls.len()
        invariant
            i <= ls.len() <= u32::MAX,
            lv == views(ls@),
            range_views(out@) == start + reference_ranges(lv.take(i as int), string_views(names@), total),
        decreases ls.len() - i,
    {
        proof {
            assert(lv.take(i + 1).drop_last() =~= lv.take(i as int));
            assert(lv.take(i + 1).last() == ls@[i as int]@);
        }
        let line = string_from_chars(&ls[i]);
        let no: u32 = (i + 1) as u32;
        push_line_references(out, &line, no, names, total);
        i = i + 1;
        assert(range_views(out@) =~= start + reference_ranges(
            lv.take(i as int),
            string_views(names@),
            total,
        ));
    }
    assert(lv.take(ls.len() as int) =~= lv);
}

fn cut_out(ls: &Vec<Vec<char>>, merged: &Vec<SnippetRange>) -> (r: Vec<DiffSnippet>)
    ensures
        snippet_views(r@) == cut_snippets(views(ls@), range_views(merged@)),
{
    let ghost lv = views(ls@);
    let ghost rv = range_views(merged@);
    let mut r: Vec<DiffSnippet> = Vec::new();
    let mut i: usize = 0;
    while i < merged.len()
        invariant
            i <= merged.len(),
            lv == views(ls@),
            rv == range_views(merged@),
            snippet_views(r@) == cut_snippets(lv, rv.take(i as int)),
        decreases merged.len() - i,
    {
        let ghost before = snippet_views(r@);
        proof {
            assert(rv.take(i + 1).drop_last() =~= rv.take(i as int));
            assert(rv.take(i + 1).last() == rv[i as int]);
        }
        let range = &merged[i];
        let s = sat_sub_exec(range.start, 1) as usize;
        let e = sat_sub_exec(range.end, 1) as usize;
        if !(s >= ls.len() || e >= ls.len() || s > e) {
            let mut part: Vec<Vec<char>> = Vec::new();
            let mut k: usize = s;
            while k <= e
                invariant
                    s <= k <= e + 1,
                    e < ls.len(),
                    views(part@) == lv.subrange(s as int, k as int),
                    lv == views(ls@),
                decreases e + 1 - k,
            {
                let ghost prevp = views(part@);
                let mut line: Vec<char> = Vec::new();
                push_all(&mut line, &ls[k]);
                part.push(line);
                assert(views(part@) =~= prevp.push(ls@[k as int]@));
                assert(lv[k as int] == ls@[k as int]@);
                k = k + 1;
                assert(views(part@) =~= lv.subrange(s as int, k as int));
            }
            let content = join_chars(&part, "\n");
            let reason = join_strings(&range.reasons, "; ");
            r.push(
                DiffSnippet {
                    start_line: range.start,
                    end_line: range.end,
                    reason: string_from_chars(&reason),
                    content: string_from_chars(&content),
                },
            );
            assert(snippet_views(r@) =~= before.push(cut_snippet(lv, rv[i as int])->0));
        }
        i = i + 1;
        assert(snippet_views(r@) =~= cut_snippets(lv, rv.take(i as int)));
    }
    assert(rv.take(merged.len() as int) =~= rv);
    r
}

/// The snippets of one file of the diff context, from its text, its changed
/// hunks, the changed and dependent symbols declared in it, whether it is a
/// test (then mentions of `changed_names` count) and whether it was removed;
/// `None` for a file with no lines, which keeps the snippets it had. See
/// `file_snippets`.
pub fn select_snippets(
    content: &str,
    sections: &Vec<(u32, u32)>,
    changed: &Vec<SymbolSpan>,
    dependent: &Vec<SymbolSpan>,
    is_test: bool,
    changed_names: &Vec<String>,
    deleted: bool,
) -> (r: Option<Vec<DiffSnippet>>)
    requires
        lines(content@).len() <= u32::MAX,
    ensures
        (match r {
            None => lines(content@).len() == 0,
            Some(v) => lines(content@).len() > 0 && snippet_views(v@) == file_snippets(
                lines(content@),
                sections@,
                changed@,
                dependent@,
                is_test,
                string_views(changed_names@),
                deleted,
            ),
        }),
{
    let cv = chars_of(content);
    let ls = split_lines(&cv);
    if ls.len() == 0 {
        return None;
    }
    let total = ls.len() as u32;
    let ghost lv = views(ls@);
    let mut ranges: Vec<SnippetRange> = Vec::new();
    push_hunk_ranges(&mut ranges, sections, total);
    push_symbol_ranges(&mut ranges, changed, total, "changed symbol: ");
    push_symbol_ranges(&mut ranges, dependent, total, "dependent symbol: ");
    if is_test {
        push_reference_ranges(&mut ranges, &ls, changed_names, total);
    }
    if ranges.len() == 0 && deleted {
        let reasons = one_reason("file removed".to_owned());
        ranges.push(SnippetRange { start: 1, end: min_exec(total, REMOVED_FILE_LINES), reasons });
    }
    assert(range_views(ranges@) =~= candidate_ranges(
        lv,
        sections@,
        changed@,
        dependent@,
        is_test,
        string_views(changed_names@),
        deleted,
    ));
    let merged = merge_snippet_ranges(ranges);
    Some(cut_out(&ls, &merged))
}

} // verus!
