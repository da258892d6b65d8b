//! Snippet ranges for diff context: merging overlapping or adjacent line
//! ranges, and whole-word symbol search in a line.

use vstd::prelude::*;
use crate::text::{chars_of, copy_string, find_from, find_from_chars, lemma_find_from, string_views};

verus! {

// ---------------------------------------------------------------------------
// Word characters
// ---------------------------------------------------------------------------

/// What `char::is_alphanumeric` returns for `c` (Unicode `Alphabetic` or
/// `Numeric`).
pub uninterp spec fn alphanumeric(c: char) -> bool;

/// `char::is_alphanumeric`. For ASCII characters the standard library's
/// answer is exactly "an ASCII letter or digit"; beyond ASCII it follows the
/// Unicode tables, which are only named here.
#[verifier::external_body]
pub(crate) fn char_is_alphanumeric(c: char) -> (r: bool)
    ensures
        r == alphanumeric(c),
        (c as u32) < 128 ==> (r <==> (('a' <= c && c <= 'z') || ('A' <= c && c <= 'Z') || ('0'
            <= c && c <= '9'))),
{
    c.is_alphanumeric()
}

/// Identifier characters: alphanumeric or `'_'`.
pub open spec fn word_char(c: char) -> bool {
    alphanumeric(c) || c == '_'
}

/// Whether `c` can be part of an identifier.
pub fn is_word_char(c: char) -> (r: bool)
    ensures
        r == word_char(c),
        (c as u32) < 128 ==> (r <==> (('a' <= c && c <= 'z') || ('A' <= c && c <= 'Z') || ('0'
            <= c && c <= '9') || c == '_')),
{
    char_is_alphanumeric(c) || c == '_'
}

// ---------------------------------------------------------------------------
// Whole-word search
// ---------------------------------------------------------------------------

/// The occurrence of a name of length `len` at `start` is delimited: no
/// identifier character directly before or after it.
pub open spec fn delimited(line: Seq<char>, start: int, len: int) -> bool {
    (start == 0 || !word_char(line[start - 1])) && (start + len >= line.len() || !word_char(
        line[start + len],
    ))
}

/// Scans the occurrences of `name` from `offset` on, left to right, each
/// search resuming after the end of the previous occurrence, and reports
/// whether one of them is delimited.
pub open spec fn delimited_occurrence_from(line: Seq<char>, name: Seq<char>, offset: int) -> bool
    decreases line.len() + 1 - offset,
{
    match find_from(line, name, offset) {
        None => false,
        Some(st) => if delimited(line, st, name.len() as int) {
            true
        } else if offset < st + name.len() <= line.len() {
            delimited_occurrence_from(line, name, st + name.len())
        } else {
            false
        },
    }
}

/// `line` mentions `name` as a whole word.
pub open spec fn mentions_symbol(line: Seq<char>, name: Seq<char>) -> bool {
    name.len() > 0 && delimited_occurrence_from(line, name, 0)
}

/// Whether `line` mentions `name` as a whole word.
pub fn line_contains_symbol_name(line: &str, name: &str) -> (r: bool)
    ensures
        r == mentions_symbol(line@, name@),
{
    let l = chars_of(line);
    let n = chars_of(name);
    if n.len() == 0 {
        return false;
    }
    let mut offset: usize = 0;
    while offset <= l.len()
        invariant
            n.len() > 0,
            l@ == line@,
            n@ == name@,
            mentions_symbol(line@, name@) == delimited_occurrence_from(l@, n@, offset as int),
        decreases l.len() + 1 - offset,
    {
        match find_from_chars(&l, &n, offset) {
            None => {
                return false;
            },
            Some(start) => {
                proof {
                    lemma_find_from(l@, n@, offset as int);
                }
                let end = start + n.len();
                let before_ok = start == 0 || !is_word_char(l[start - 1]);
                let after_ok = end >= l.len() || !is_word_char(l[end]);
                if before_ok && after_ok {
                    return true;
                }
                offset = end;
            },
        }
    }
    false
}

// ---------------------------------------------------------------------------
// Merging snippet ranges
// ---------------------------------------------------------------------------

/// A range of lines (1-based, inclusive) with the reasons it is shown.
#[derive(Clone, Debug)]
pub struct SnippetRange {
    pub start: u32,
    pub end: u32,
    pub reasons: Vec<String>,
}

/// The mathematical content of a `SnippetRange`.
pub struct RangeView {
    pub start: u32,
    pub end: u32,
    pub reasons: Seq<Seq<char>>,
}

impl View for SnippetRange {
    type V = RangeView;

    open spec fn view(&self) -> RangeView {
        RangeView { start: self.start, end: self.end, reasons: string_views(self.reasons@) }
    }
}

/// The views of a sequence of ranges.
pub open spec fn range_views(v: Seq<SnippetRange>) -> Seq<RangeView> {
    v.map_values(|r: SnippetRange| r@)
}

/// The number of leading elements of `s` whose start is at most `key`.
pub open spec fn insertion_point(s: Seq<RangeView>, key: u32) -> int
    decreases s.len(),
{
    if s.len() == 0 {
        0
    } else if s[0].start <= key {
        1 + insertion_point(s.drop_first(), key)
    } else {
        0
    }
}

/// Stable sort by start, built by inserting each range, in input order,
/// after every already-placed range whose start is not greater.
pub open spec fn sort_by_start(s: Seq<RangeView>) -> Seq<RangeView>
    decreases s.len(),
{
    if s.len() == 0 {
        Seq::empty()
    } else {
        let sorted = sort_by_start(s.drop_last());
        sorted.insert(insertion_point(sorted, s.last().start), s.last())
    }
}

/// `end + 1`, saturating at `u32::MAX`.
pub open spec fn sat_succ(end: u32) -> int {
    if end == 0xffff_ffffu32 {
        end as int
    } else {
        end + 1
    }
}

/// `acc` extended by the reasons of `new` it does not yet hold, in order.
pub open spec fn add_reasons(acc: Seq<Seq<char>>, new: Seq<Seq<char>>) -> Seq<Seq<char>>
    decreases new.len(),
{
    if new.len() == 0 {
        acc
    } else {
        let a = add_reasons(acc, new.drop_last());
        if a.contains(new.last()) {
            a
        } else {
            a.push(new.last())
        }
    }
}

/// Adds one range (in start order) to the merged list: it joins the last
/// merged range when it starts no later than one line past that range's end.
pub open spec fn merge_step(merged: Seq<RangeView>, r: RangeView) -> Seq<RangeView> {
    if merged.len() == 0 {
        seq![r]
    } else {
        let last = merged.last();
        if r.start <= sat_succ(last.end) {
            merged.drop_last().push(
                RangeView {
                    start: last.start,
                    end: if last.end >= r.end {
                        last.end
                    } else {
                        r.end
                    },
                    reasons: add_reasons(last.reasons, r.reasons),
                },
            )
        } else {
            merged.push(r)
        }
    }
}

/// Merging over ranges already in start order.
pub open spec fn merge_sorted(s: Seq<RangeView>) -> Seq<RangeView>
    decreases s.len(),
{
    if s.len() == 0 {
        Seq::empty()
    } else {
        merge_step(merge_sorted(s.drop_last()), s.last())
    }
}

/// The merged ranges of `s`: sorted by start (stably), then merged.
pub open spec fn merged_ranges(s: Seq<RangeView>) -> Seq<RangeView> {
    merge_sorted(sort_by_start(s))
}

proof fn lemma_insertion_point(s: Seq<RangeView>, key: u32)
    ensures
        0 <= insertion_point(s, key) <= s.len(),
        forall|i: int| 0 <= i < insertion_point(s, key) ==> s[i].start <= key,
        insertion_point(s, key) < s.len() ==> s[insertion_point(s, key)].start > key,
    decreases s.len(),
{
    if s.len() > 0 && s[0].start <= key {
        lemma_insertion_point(s.drop_first(), key);
        assert forall|i: int| 0 <= i < insertion_point(s, key) implies s[i].start <= key by {
            if i > 0 {
                assert(s[i] == s.drop_first()[i - 1]);
            }
        }
    }
}

fn copy_range(r: &SnippetRange) -> (c: SnippetRange)
    ensures
        c@ == r@,
{
    let mut reasons: Vec<String> = Vec::new();
    let mut i: usize = 0;
    while i < r.reasons.len()
        invariant
            i <= r.reasons.len(),
            string_views(reasons@) == string_views(r.reasons@).take(i as int),
        decreases r.reasons.len() - i,
    {
        let ghost prev = string_views(reasons@);
        reasons.push(copy_string(&r.reasons[i]));
        i = i + 1;
        assert(string_views(reasons@) =~= prev.push(r.reasons@[i - 1]@));
        assert(string_views(reasons@) =~= string_views(r.reasons@).take(i as int));
    }
    assert(string_views(r.reasons@).take(r.reasons.len() as int) == string_views(r.reasons@));
    SnippetRange { start: r.start, end: r.end, reasons }
}

/// Sorts ranges by start, keeping equal starts in input order.
pub fn sort_ranges_by_start(ranges: &Vec<SnippetRange>) -> (r: Vec<SnippetRange>)
    ensures
        range_views(r@) == sort_by_start(range_views(ranges@)),
{
    let mut sorted: Vec<SnippetRange> = Vec::new();
    let mut i: usize = 0;
    while i < ranges.len()
        invariant
            i <= ranges.len(),
            range_views(sorted@) == sort_by_start(range_views(ranges@).take(i as int)),
        decreases ranges.len() - i,
    {
        let ghost prefix = range_views(ranges@).take(i + 1);
        proof {
            assert(prefix.drop_last() == range_views(ranges@).take(i as int));
            assert(prefix.last() == ranges@[i as int]@);
        }
        let key = ranges[i].start;
        let mut pos: usize = 0;
        proof {
            lemma_insertion_point(range_views(sorted@), key);
        }
        while pos < sorted.len() && sorted[pos].start <= key
            invariant
                pos <= sorted.len(),
                forall|j: int| 0 <= j < pos ==> sorted@[j].start <= key,
                0 <= insertion_point(range_views(sorted@), key) <= sorted.len(),
                forall|j: int|
                    0 <= j < insertion_point(range_views(sorted@), key) ==> range_views(
                        sorted@,
                    )[j].start <= key,
                insertion_point(range_views(sorted@), key) < sorted.len() ==> range_views(
                    sorted@,
                )[insertion_point(range_views(sorted@), key)].start > key,
            decreases sorted.len() - pos,
        {
            pos = pos + 1;
        }
        proof {
            let ip = insertion_point(range_views(sorted@), key);
            if ip < pos {
                assert(sorted@[ip].start <= key);
                assert(range_views(sorted@)[ip].start > key);
            }
            if pos < ip {
                assert(range_views(sorted@)[pos as int].start <= key);
            }
        }
        let ghost before = range_views(sorted@);
        let item = copy_range(&ranges[i]);
        sorted.insert(pos, item);
        assert(range_views(sorted@) =~= before.insert(pos as int, ranges@[i as int]@));
        i = i + 1;
    }
    assert(range_views(ranges@).take(ranges.len() as int) == range_views(ranges@));
    sorted
}

fn contains_string(v: &Vec<String>, s: &String) -> (r: bool)
    ensures
        r == string_views(v@).contains(s@),
{
    let mut i: usize = 0;
    while i < v.len()
        invariant
            i <= v.len(),
            forall|j: int| 0 <= j < i ==> string_views(v@)[j] != s@,
        decreases v.len() - i,
    {
        if v[i] == *s {
            assert(string_views(v@)[i as int] == s@);
            return true;
        }
        i = i + 1;
    }
    false
}

fn add_reasons_exec(acc: &mut Vec<String>, new: &Vec<String>)
    ensures
        string_views(final(acc)@) == add_reasons(string_views(old(acc)@), string_views(new@)),
{
    let mut i: usize = 0;
    while i < new.len()
        invariant
            i <= new.len(),
            string_views(acc@) == add_reasons(
                string_views(old(acc)@),
                string_views(new@).take(i as int),
            ),
        decreases new.len() - i,
    {
        proof {
            assert(string_views(new@).take(i + 1).drop_last() == string_views(new@).take(i as int));
            assert(string_views(new@).take(i + 1).last() == new@[i as int]@);
        }
        if !contains_string(acc, &new[i]) {
            let ghost prev = string_views(acc@);
            acc.push(copy_string(&new[i]));
            assert(string_views(acc@) =~= prev.push(new@[i as int]@));
        }
        i = i + 1;
    }
    assert(string_views(new@).take(new.len() as int) == string_views(new@));
}

/// Sorts the ranges by start and merges every range that overlaps, or is
/// adjacent to, the one before it; reasons are collected without repeats.
pub fn merge_snippet_ranges(ranges: Vec<SnippetRange>) -> (r: Vec<SnippetRange>)
    ensures
        range_views(r@) == merged_ranges(range_views(ranges@)),
{
    let sorted = sort_ranges_by_start(&ranges);
    let mut merged: Vec<SnippetRange> = Vec::new();
    let mut i: usize = 0;
    while i < sorted.len()
        invariant
            i <= sorted.len(),
            range_views(merged@) == merge_sorted(range_views(sorted@).take(i as int)),
        decreases sorted.len() - i,
    {
        proof {
            assert(range_views(sorted@).take(i + 1).drop_last() == range_views(sorted@).take(
                i as int,
            ));
            assert(range_views(sorted@).take(i + 1).last() == sorted@[i as int]@);
        }
        let ghost before = range_views(merged@);
        let range = copy_range(&sorted[i]);
        if merged.len() > 0 {
            let last_end = merged[merged.len() - 1].end;
            let bound = last_end.saturating_add(1);
            if range.start <= bound {
                let mut last = merged.pop().unwrap();
                assert(before.drop_last() == range_views(merged@));
                assert(before.last() == last@);
                if range.end > last.end {
                    last.end = range.end;
                }
                add_reasons_exec(&mut last.reasons, &range.reasons);
                merged.push(last);
                assert(range_views(merged@) =~= merge_step(before, range@));
            } else {
                merged.push(range);
                assert(range_views(merged@) =~= merge_step(before, range@));
            }
        } else {
            merged.push(range);
            assert(range_views(merged@) =~= merge_step(before, range@));
        }
        i = i + 1;
    }
    assert(range_views(sorted@).take(sorted.len() as int) == range_views(sorted@));
    merged
}

// ---------------------------------------------------------------------------
// What merging keeps
// ---------------------------------------------------------------------------

/// Line `x` lies in one of the ranges.
pub open spec fn covers(s: Seq<RangeView>, x: int) -> bool {
    exists|i: int| 0 <= i < s.len() && s[i].start <= x <= #[trigger] s[i].end
}

/// Every range is non-empty (its start is not after its end).
pub open spec fn ranges_well_formed(s: Seq<RangeView>) -> bool {
    forall|i: int| 0 <= i < s.len() ==> s[i].start <= #[trigger] s[i].end
}

/// The ranges are in non-decreasing start order.
pub open spec fn sorted_by_start(s: Seq<RangeView>) -> bool {
    forall|i: int, j: int| 0 <= i < j < s.len() ==> s[i].start <= s[j].start
}

proof fn lemma_sort_by_start(s: Seq<RangeView>)
    ensures
        sorted_by_start(sort_by_start(s)),
        sort_by_start(s).len() == s.len(),
        forall|y: RangeView| sort_by_start(s).contains(y) <==> s.contains(y),
    decreases s.len(),
{
    if s.len() > 0 {
        let prev = sort_by_start(s.drop_last());
        lemma_sort_by_start(s.drop_last());
        let x = s.last();
        let p = insertion_point(prev, x.start);
        lemma_insertion_point(prev, x.start);
        let t = prev.insert(p, x);
        assert forall|i: int, j: int| 0 <= i < j < t.len() implies t[i].start <= t[j].start by {
            if j < p {
                assert(t[i] == prev[i] && t[j] == prev[j]);
            } else if j == p {
                assert(t[i] == prev[i]);
            } else if i < p {
                assert(t[i] == prev[i] && t[j] == prev[j - 1]);
            } else if i == p {
                assert(t[j] == prev[j - 1]);
                assert(prev[p].start > x.start);
                if j - 1 > p {
                    assert(prev[p].start <= prev[j - 1].start);
                }
            } else {
                assert(t[i] == prev[i - 1] && t[j] == prev[j - 1]);
            }
        }
        assert forall|y: RangeView| t.contains(y) <==> s.contains(y) by {
            if t.contains(y) {
                let k = choose|k: int| 0 <= k < t.len() && t[k] == y;
                if k == p {
                    assert(s[s.len() - 1] == y);
                } else {
                    let k2 = if k < p {
                        k
                    } else {
                        k - 1
                    };
                    assert(prev[k2] == y);
                    assert(prev.contains(y));
                    assert(s.drop_last().contains(y));
                    let m = choose|m: int| 0 <= m < s.drop_last().len() && s.drop_last()[m] == y;
                    assert(s.drop_last()[m] == s[m]);
                    assert(s.contains(y));
                }
            }
            if s.contains(y) {
                let k = choose|k: int| 0 <= k < s.len() && s[k] == y;
                if k == s.len() - 1 {
                    assert(t[p] == y);
                } else {
                    assert(s.drop_last()[k] == y);
                    assert(s.drop_last().contains(y));
                    let m = choose|m: int| 0 <= m < prev.len() && prev[m] == y;
                    if m < p {
                        assert(t[m] == y);
                    } else {
                        assert(t[m + 1] == y);
                    }
                }
            }
        }
    }
}

proof fn lemma_merge_sorted(t: Seq<RangeView>)
    requires
        sorted_by_start(t),
        ranges_well_formed(t),
    ensures
        ranges_well_formed(merge_sorted(t)),
        forall|x: int| covers(merge_sorted(t), x) <==> covers(t, x),
        forall|i: int|
            0 <= i < merge_sorted(t).len() - 1 ==> merge_sorted(t)[i].end + 1 < merge_sorted(
                t,
            )[i + 1].start,
        t.len() > 0 ==> merge_sorted(t).len() > 0 && exists|k: int|
            0 <= k < t.len() && merge_sorted(t).last().start == t[k].start,
        t.len() == 0 ==> merge_sorted(t).len() == 0,
    decreases t.len(),
{
    if t.len() > 0 {
        let pre = t.drop_last();
        let r = t.last();
        assert(sorted_by_start(pre));
        assert(ranges_well_formed(pre));
        lemma_merge_sorted(pre);
        let m = merge_sorted(pre);
        let out = merge_sorted(t);
        assert(out == merge_step(m, r));
        assert(r.start <= r.end);
        if m.len() == 0 {
            assert(covers(pre, 0) == false);
            assert forall|x: int| covers(out, x) <==> covers(t, x) by {
                if covers(t, x) {
                    let i = choose|i: int| 0 <= i < t.len() && t[i].start <= x <= #[trigger] t[i].end;
                    if i < t.len() - 1 {
                        assert(pre[i].start <= x <= pre[i].end);
                        assert(covers(pre, x));
                        assert(covers(m, x));
                    }
                    assert(out[0] == r);
                }
                if covers(out, x) {
                    assert(t[t.len() - 1].start <= x <= t[t.len() - 1].end);
                }
            }
            assert(out.last().start == t[t.len() - 1].start);
        } else {
            let last = m.last();
            let k0 = choose|k: int| 0 <= k < pre.len() && last.start == pre[k].start;
            assert(pre[k0] == t[k0]);
            assert(last.start <= r.start);
            if r.start <= sat_succ(last.end) {
                let newend = if last.end >= r.end {
                    last.end
                } else {
                    r.end
                };
                assert(out.len() == m.len());
                assert(out.last().start == last.start);
                assert(out.last().end == newend);
                assert forall|i: int| 0 <= i < out.len() - 1 implies out[i] == m[i] by {}
                assert forall|x: int| covers(out, x) <==> covers(t, x) by {
                    if covers(t, x) {
                        let i = choose|i: int| 0 <= i < t.len() && t[i].start <= x <= #[trigger] t[i].end;
                        if i < t.len() - 1 {
                            assert(pre[i].start <= x <= pre[i].end);
                            assert(covers(pre, x));
                            assert(covers(m, x));
                            let j = choose|j: int| 0 <= j < m.len() && m[j].start <= x <= #[trigger] m[j].end;
                            if j < m.len() - 1 {
                                assert(out[j] == m[j]);
                            } else {
                                assert(out[out.len() - 1].start <= x <= out[out.len() - 1].end);
                            }
                        } else {
                            assert(out[out.len() - 1].start <= x <= out[out.len() - 1].end);
                        }
                    }
                    if covers(out, x) {
                        let j = choose|j: int| 0 <= j < out.len() && out[j].start <= x <= #[trigger] out[j].end;
                        if j < out.len() - 1 {
                            assert(m[j].start <= x <= m[j].end);
                            assert(covers(m, x));
                            assert(covers(pre, x));
                            let i = choose|i: int| 0 <= i < pre.len() && pre[i].start <= x <= #[trigger] pre[i].end;
                            assert(t[i] == pre[i]);
                        } else if x <= last.end {
                            assert(m[m.len() - 1].start <= x <= m[m.len() - 1].end);
                            assert(covers(m, x));
                            assert(covers(pre, x));
                            let i = choose|i: int| 0 <= i < pre.len() && pre[i].start <= x <= #[trigger] pre[i].end;
                            assert(t[i] == pre[i]);
                        } else {
                            assert(t[t.len() - 1].start <= x <= t[t.len() - 1].end);
                        }
                    }
                }
                assert forall|i: int| 0 <= i < out.len() - 1 implies out[i].end + 1 < out[i
                    + 1].start by {
                    if i + 1 < out.len() - 1 {
                        assert(out[i] == m[i] && out[i + 1] == m[i + 1]);
                    } else {
                        assert(out[i] == m[i]);
                        assert(m[i].end + 1 < m[i + 1].start);
                    }
                }
                assert(pre[k0] == t[k0]);
            } else {
                assert(out == m.push(r));
                assert forall|x: int| covers(out, x) <==> covers(t, x) by {
                    if covers(t, x) {
                        let i = choose|i: int| 0 <= i < t.len() && t[i].start <= x <= #[trigger] t[i].end;
                        if i < t.len() - 1 {
                            assert(pre[i].start <= x <= pre[i].end);
                            assert(covers(pre, x));
                            assert(covers(m, x));
                            let j = choose|j: int| 0 <= j < m.len() && m[j].start <= x <= #[trigger] m[j].end;
                            assert(out[j] == m[j]);
                        } else {
                            assert(out[out.len() - 1] == r);
                        }
                    }
                    if covers(out, x) {
                        let j = choose|j: int| 0 <= j < out.len() && out[j].start <= x <= #[trigger] out[j].end;
                        if j < out.len() - 1 {
                            assert(out[j] == m[j]);
                            assert(covers(m, x));
                            assert(covers(pre, x));
                            let i = choose|i: int| 0 <= i < pre.len() && pre[i].start <= x <= #[trigger] pre[i].end;
                            assert(t[i] == pre[i]);
                        } else {
                            assert(t[t.len() - 1] == r);
                        }
                    }
                }
                assert forall|i: int| 0 <= i < out.len() - 1 implies out[i].end + 1 < out[i
                    + 1].start by {
                    if i + 1 < out.len() - 1 {
                        assert(out[i] == m[i] && out[i + 1] == m[i + 1]);
                    } else {
                        assert(out[i] == m[i]);
                        assert(out[i + 1] == r);
                    }
                }
                assert(out.last().start == t[t.len() - 1].start);
            }
        }
    }
}

/// Merging snippet ranges keeps exactly the lines the input ranges cover,
/// yields non-empty ranges, and leaves at least one uncovered line between
/// neighbouring merged ranges (so they are in increasing order). Stated for
/// inputs whose every range is non-empty.
pub proof fn law_merge_keeps_coverage(ranges: Seq<RangeView>)
    requires
        ranges_well_formed(ranges),
    ensures
        ranges_well_formed(merged_ranges(ranges)),
        forall|x: int| covers(merged_ranges(ranges), x) <==> covers(ranges, x),
        forall|i: int|
            0 <= i < merged_ranges(ranges).len() - 1 ==> merged_ranges(ranges)[i].end + 1
                < merged_ranges(ranges)[i + 1].start,
{
    let t = sort_by_start(ranges);
    lemma_sort_by_start(ranges);
    assert(ranges_well_formed(t)) by {
        assert forall|i: int| 0 <= i < t.len() implies t[i].start <= #[trigger] t[i].end by {
            assert(t.contains(t[i]));
            assert(ranges.contains(t[i]));
            let k = choose|k: int| 0 <= k < ranges.len() && ranges[k] == t[i];
            assert(ranges[k].start <= ranges[k].end);
        }
    }
    lemma_merge_sorted(t);
    assert forall|x: int| covers(t, x) <==> covers(ranges, x) by {
        if covers(t, x) {
            let i = choose|i: int| 0 <= i < t.len() && t[i].start <= x <= #[trigger] t[i].end;
            assert(t.contains(t[i]));
            assert(ranges.contains(t[i]));
            let k = choose|k: int| 0 <= k < ranges.len() && ranges[k] == t[i];
            assert(ranges[k].start <= x <= ranges[k].end);
        }
        if covers(ranges, x) {
            let i = choose|i: int| 0 <= i < ranges.len() && ranges[i].start <= x <= #[trigger] ranges[i].end;
            assert(ranges.contains(ranges[i]));
            assert(t.contains(ranges[i]));
            let k = choose|k: int| 0 <= k < t.len() && t[k] == ranges[i];
            assert(t[k].start <= x <= t[k].end);
        }
    }
}

} // verus!
