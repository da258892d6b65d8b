//! The token budget of a diff context: the snippets of dependent files and
//! related tests compete for what the changed files leave of the budget,
//! the most relevant first; what does not fit is dropped.
use vstd::prelude::*;

use crate::diff_output::{ContextFile, ContextSymbol, DiffSnippet, ExpandedContext};
use crate::snippet_selection::sat_add;
use crate::text::{chars_eq, chars_of, contains, contains_str};

verus! {

// ---------------------------------------------------------------------------
// What each snippet weighs
// ---------------------------------------------------------------------------

/// The bonus, in hundredths, that a snippet's reason adds to its file's
/// relevance when snippets compete for the budget.
pub open spec fn reason_bonus(reason: Seq<char>) -> u32 {
    if contains(reason, "changed symbol"@) {
        30
    } else if contains(reason, "dependent symbol"@) {
        20
    } else if contains(reason, "diff hunk"@) {
        10
    } else if contains(reason, "file removed"@) {
        25
    } else {
        0
    }
}

/// The bonus of a snippet's reason, in hundredths; see `reason_bonus`.
pub fn snippet_reason_bonus(reason: &str) -> (r: u32)
    ensures
        r == reason_bonus(reason@),
{
    let s = chars_of(reason);
    if contains_str(&s, "changed symbol") {
        30
    } else if contains_str(&s, "dependent symbol") {
        20
    } else if contains_str(&s, "diff hunk") {
        10
    } else if contains_str(&s, "file removed") {
        25
    } else {
        0
    }
}

/// What the budget knows of one snippet: how many tokens it costs and its
/// rank; snippets of higher rank are kept first, and of two of equal rank
/// the cheaper one.
#[derive(Clone, Copy, Debug, PartialEq, Eq, Structural)]
pub struct SnippetMeasure {
    pub tokens: u32,
    pub rank: u64,
}

/// Whether snippet `a` is considered before snippet `b`.
pub open spec fn goes_before(a: SnippetMeasure, b: SnippetMeasure) -> bool {
    a.rank > b.rank || (a.rank == b.rank && a.tokens < b.tokens)
}

/// The measures of each file's snippets, as sequences.
pub open spec fn measure_views(ms: Seq<Vec<SnippetMeasure>>) -> Seq<Seq<SnippetMeasure>> {
    ms.map_values(|v: Vec<SnippetMeasure>| v@)
}

/// The measures of all files, one file after the other.
pub open spec fn flat(ms: Seq<Seq<SnippetMeasure>>) -> Seq<SnippetMeasure>
    decreases ms.len(),
{
    if ms.len() == 0 {
        Seq::empty()
    } else {
        flat(ms.drop_last()) + ms.last()
    }
}

/// The number of the first snippet of file `f`, when the files' snippets
/// are numbered one after the other from `base`.
pub open spec fn file_base(ms: Seq<Seq<SnippetMeasure>>, f: int, base: int) -> int {
    base + flat(ms.take(f)).len()
}

/// Each snippet with its number.
pub open spec fn numbered(ms: Seq<SnippetMeasure>) -> Seq<(usize, SnippetMeasure)> {
    Seq::new(ms.len(), |p: int| (p as usize, ms[p]))
}

/// The number of leading entries of `s` that `m` does not go before.
pub open spec fn rank_point(s: Seq<(usize, SnippetMeasure)>, m: SnippetMeasure) -> int
    decreases s.len(),
{
    if s.len() == 0 {
        0
    } else if !goes_before(m, s[0].1) {
        1 + rank_point(s.drop_first(), m)
    } else {
        0
    }
}

/// The snippets in the order they are considered: stably sorted so that
/// each goes after the ones that go before it.
pub open spec fn ranked(s: Seq<(usize, SnippetMeasure)>) -> Seq<(usize, SnippetMeasure)>
    decreases s.len(),
{
    if s.len() == 0 {
        Seq::empty()
    } else {
        let r = ranked(s.drop_last());
        r.insert(rank_point(r, s.last().1), s.last())
    }
}

proof fn lemma_rank_point(s: Seq<(usize, SnippetMeasure)>, m: SnippetMeasure)
    ensures
        0 <= rank_point(s, m) <= s.len(),
        forall|i: int| 0 <= i < rank_point(s, m) ==> !goes_before(m, #[trigger] s[i].1),
        rank_point(s, m) < s.len() ==> goes_before(m, s[rank_point(s, m)].1),
    decreases s.len(),
{
    if s.len() > 0 && !goes_before(m, s[0].1) {
        lemma_rank_point(s.drop_first(), m);
        assert forall|i: int| 0 <= i < rank_point(s, m) implies !goes_before(m, #[trigger] s[i].1) by {
            if i > 0 {
                assert(s[i] == s.drop_first()[i - 1]);
            }
        }
    }
}

fn flatten(ms: &Vec<Vec<SnippetMeasure>>) -> (r: Vec<SnippetMeasure>)
    ensures
        r@ == flat(measure_views(ms@)),
{
    let ghost mv = measure_views(ms@);
    let mut r: Vec<SnippetMeasure> = Vec::new();
    let mut f: usize = 0;
    while f < ms.len()
        invariant
            f <= ms.len(),
            mv == measure_views(ms@),
            r@ == flat(mv.take(f as int)),
        decreases ms.len() - f,
    {
        let ghost before = r@;
        let mut j: usize = 0;
        while j < ms[f].len()
            invariant
                f < ms.len(),
                j <= ms[f as int].len(),
                r@ == before + ms[f as int]@.take(j as int),
            decreases ms[f as int].len() - j,
        {
            r.push(ms[f][j]);
            assert(ms[f as int]@.take(j + 1) =~= ms[f as int]@.take(j as int).push(ms[f as int]@[j as int]));
            j = j + 1;
        }
        proof {
            assert(ms[f as int]@.take(j as int) =~= ms[f as int]@);
            assert(mv.take(f + 1).drop_last() =~= mv.take(f as int));
            assert(mv.take(f + 1).last() == mv[f as int]);
        }
        f = f + 1;
    }
    assert(mv.take(ms.len() as int) =~= mv);
    r
}

fn number_snippets(ms: &Vec<SnippetMeasure>) -> (r: Vec<(usize, SnippetMeasure)>)
    ensures
        r@ == numbered(ms@),
{
    let mut r: Vec<(usize, SnippetMeasure)> = Vec::new();
    let mut p: usize = 0;
    while p < ms.len()
        invariant
            p <= ms.len(),
            r@ == numbered(ms@).take(p as int),
        decreases ms.len() - p,
    {
        r.push((p, ms[p]));
        assert(r@ =~= numbered(ms@).take(p + 1));
        p = p + 1;
    }
    assert(numbered(ms@).take(ms.len() as int) =~= numbered(ms@));
    r
}

fn goes_before_exec(a: SnippetMeasure, b: SnippetMeasure) -> (r: bool)
    ensures
        r == goes_before(a, b),
{
    a.rank > b.rank || (a.rank == b.rank && a.tokens < b.tokens)
}

fn rank_snippets(all: Vec<(usize, SnippetMeasure)>, n: usize) -> (r: Vec<(usize, SnippetMeasure)>)
    requires
        forall|j: int| 0 <= j < all.len() ==> (#[trigger] all@[j]).0 < n,
    ensures
        r@ == ranked(all@),
        forall|j: int| 0 <= j < r.len() ==> (#[trigger] r@[j]).0 < n,
{
    let ghost orig = all@;
    let total = all.len();
    let mut rest = all;
    let mut sorted: Vec<(usize, SnippetMeasure)> = Vec::new();
    let mut i: usize = 0;
    while rest.len() > 0
        invariant
            i + rest.len() == total,
            total == orig.len(),
            rest@ == orig.subrange(i as int, total as int),
            forall|j: int| 0 <= j < orig.len() ==> (#[trigger] orig[j]).0 < n,
            forall|j: int| 0 <= j < sorted.len() ==> (#[trigger] sorted@[j]).0 < n,
            sorted@ == ranked(orig.take(i as int)),
        decreases rest.len(),
    {
        let c = rest.remove(0);
        proof {
            assert(c == orig[i as int]);
            assert(orig.take(i + 1).drop_last() =~= orig.take(i as int));
            assert(orig.take(i + 1).last() == orig[i as int]);
            assert(rest@ =~= orig.subrange(i + 1, total as int));
            lemma_rank_point(sorted@, c.1);
        }
        let ghost sv = sorted@;
        let mut pos: usize = 0;
        while pos < sorted.len()
            invariant
                pos <= sorted.len(),
                sv == sorted@,
                forall|j: int| 0 <= j < pos ==> !goes_before(c.1, #[trigger] sv[j].1),
            ensures
                pos <= sorted.len(),
                pos < sorted.len() ==> goes_before(c.1, sv[pos as int].1),
                forall|j: int| 0 <= j < pos ==> !goes_before(c.1, #[trigger] sv[j].1),
            decreases sorted.len() - pos,
        {
            if goes_before_exec(c.1, sorted[pos].1) {
                break;
            }
            pos = pos + 1;
        }
        proof {
            let ip = rank_point(sv, c.1);
            if ip < pos {
                assert(!goes_before(c.1, sv[ip].1));
            }
            if pos < ip {
                assert(!goes_before(c.1, sv[pos as int].1));
            }
            assert(pos == ip);
        }
        sorted.insert(pos, c);
        assert forall|j: int| 0 <= j < sorted.len() implies (#[trigger] sorted@[j]).0 < n by {
            if j < pos {
                assert(sorted@[j] == sv[j]);
            } else if j > pos {
                assert(sorted@[j] == sv[j - 1]);
            }
        }
        assert(sorted@ =~= ranked(orig.take(i + 1)));
        i = i + 1;
    }
    assert(orig.take(total as int) =~= orig);
    sorted
}

// ---------------------------------------------------------------------------
// Which snippets fit
// ---------------------------------------------------------------------------

/// The numbers of the snippets kept when `r` is taken in order and each is
/// kept if it still fits: the running total, saturating at `u32::MAX`,
/// starts at `running` and may not pass `budget`.
pub open spec fn kept_positions(r: Seq<(usize, SnippetMeasure)>, running: u32, budget: u32) -> Set<
    int,
>
    decreases r.len(),
{
    if r.len() == 0 {
        Set::empty()
    } else {
        let next = sat_add(running, r[0].1.tokens);
        if next <= budget {
            kept_positions(r.drop_first(), next, budget).insert(r[0].0 as int)
        } else {
            kept_positions(r.drop_first(), running, budget)
        }
    }
}

/// The numbers whose flag is set.
pub open spec fn flag_set(flags: Seq<bool>) -> Set<int> {
    Set::new(|p: int| 0 <= p < flags.len() && flags[p])
}

fn greedy_flags(ranked_all: &Vec<(usize, SnippetMeasure)>, start: u32, budget: u32, n: usize) -> (r:
    Vec<bool>)
    requires
        forall|j: int| 0 <= j < ranked_all.len() ==> (#[trigger] ranked_all@[j]).0 < n,
    ensures
        r.len() == n,
        flag_set(r@) == kept_positions(ranked_all@, start, budget),
{
    let mut flags: Vec<bool> = Vec::new();
    let mut k: usize = 0;
    while k < n
        invariant
            k <= n,
            flags.len() == k,
            forall|p: int| 0 <= p < k ==> !(#[trigger] flags@[p]),
        decreases n - k,
    {
        flags.push(false);
        k = k + 1;
    }
    let ghost all = ranked_all@;
    let ghost mut acc: Set<int> = Set::empty();
    assert(flag_set(flags@) =~= acc);
    assert(all.subrange(0, all.len() as int) =~= all);
    assert(acc.union(kept_positions(all, start, budget)) =~= kept_positions(all, start, budget));
    let mut running = start;
    let mut i: usize = 0;
    while i < ranked_all.len()
        invariant
            i <= ranked_all.len(),
            all == ranked_all@,
            flags.len() == n,
            forall|j: int| 0 <= j < ranked_all.len() ==> (#[trigger] ranked_all@[j]).0 < n,
            flag_set(flags@) == acc,
            kept_positions(all, start, budget) == acc.union(
                kept_positions(all.subrange(i as int, all.len() as int), running, budget),
            ),
        decreases ranked_all.len() - i,
    {
        let ghost rest = all.subrange(i as int, all.len() as int);
        assert(rest.drop_first() =~= all.subrange(i + 1, all.len() as int));
        assert(rest[0] == all[i as int]);
        let (p, m) = ranked_all[i];
        let next = running.saturating_add(m.tokens);
        assert(next == sat_add(running, m.tokens));
        if next <= budget {
            flags.set(p, true);
            proof {
                let old_acc = acc;
                acc = acc.insert(p as int);
                assert(flag_set(flags@) =~= acc);
                assert(kept_positions(all, start, budget) =~= acc.union(
                    kept_positions(all.subrange(i + 1, all.len() as int), next, budget),
                )) by {
                    assert(kept_positions(rest, running, budget) == kept_positions(
                        rest.drop_first(),
                        next,
                        budget,
                    ).insert(p as int));
                }
            }
            running = next;
        } else {
            assert(kept_positions(rest, running, budget) == kept_positions(
                rest.drop_first(),
                running,
                budget,
            ));
        }
        i = i + 1;
    }
    proof {
        assert(all.subrange(i as int, all.len() as int) =~= Seq::<(usize, SnippetMeasure)>::empty());
        assert(kept_positions(all, start, budget) =~= acc);
    }
    flags
}

// ---------------------------------------------------------------------------
// What the files keep
// ---------------------------------------------------------------------------

/// The snippets of a file whose numbers (counted from `base`) are kept.
pub open spec fn kept_snippets(snips: Seq<DiffSnippet>, base: int, kept: Set<int>) -> Seq<
    DiffSnippet,
>
    decreases snips.len(),
{
    if snips.len() == 0 {
        Seq::empty()
    } else {
        let prev = kept_snippets(snips.drop_last(), base, kept);
        if kept.contains(base + snips.len() - 1) {
            prev.push(snips.last())
        } else {
            prev
        }
    }
}

/// The tokens of a file's kept snippets, added up saturating at `u32::MAX`.
pub open spec fn kept_tokens(ms: Seq<SnippetMeasure>, base: int, kept: Set<int>) -> u32
    decreases ms.len(),
{
    if ms.len() == 0 {
        0
    } else {
        let prev = kept_tokens(ms.drop_last(), base, kept);
        if kept.contains(base + ms.len() - 1) {
            sat_add(prev, ms.last().tokens)
        } else {
            prev
        }
    }
}

/// Whether file `n` is file `o` with only its kept snippets, and their
/// tokens as its tokens.
pub open spec fn budgeted_file(
    n: ContextFile,
    o: ContextFile,
    ms: Seq<SnippetMeasure>,
    base: int,
    kept: Set<int>,
) -> bool {
    &&& n.path == o.path
    &&& n.language == o.language
    &&& n.relevance_reason == o.relevance_reason
    &&& n.relevance == o.relevance
    &&& n.relevance_short == o.relevance_short
    &&& n.diff_content == o.diff_content
    &&& n.snippets@ == kept_snippets(o.snippets@, base, kept)
    &&& n.tokens == kept_tokens(ms, base, kept)
}

/// The numbers of the files that keep at least one snippet, in order.
pub open spec fn surviving(
    o: Seq<ContextFile>,
    ms: Seq<Seq<SnippetMeasure>>,
    base: int,
    kept: Set<int>,
) -> Seq<int>
    decreases o.len(),
{
    if o.len() == 0 {
        Seq::empty()
    } else {
        let f = o.len() - 1;
        let prev = surviving(o.drop_last(), ms, base, kept);
        if kept_snippets(o[f].snippets@, file_base(ms, f, base), kept).len() > 0 {
            prev.push(f)
        } else {
            prev
        }
    }
}

/// Whether `n` are the files of `o` that keep a snippet, each with only its
/// kept snippets.
pub open spec fn files_after_budget(
    n: Seq<ContextFile>,
    o: Seq<ContextFile>,
    ms: Seq<Seq<SnippetMeasure>>,
    base: int,
    kept: Set<int>,
) -> bool {
    let s = surviving(o, ms, base, kept);
    &&& n.len() == s.len()
    &&& forall|j: int|
        0 <= j < n.len() ==> budgeted_file(
            #[trigger] n[j],
            o[s[j]],
            ms[s[j]],
            file_base(ms, s[j], base),
            kept,
        )
}

/// The tokens the files of `o` keep, added up.
pub open spec fn kept_tokens_total(
    o: Seq<ContextFile>,
    ms: Seq<Seq<SnippetMeasure>>,
    base: int,
    kept: Set<int>,
) -> int
    decreases o.len(),
{
    if o.len() == 0 {
        0
    } else {
        let f = o.len() - 1;
        let b = file_base(ms, f, base);
        let prev = kept_tokens_total(o.drop_last(), ms, base, kept);
        if kept_snippets(o[f].snippets@, b, kept).len() > 0 {
            prev + kept_tokens(ms[f], b, kept)
        } else {
            prev
        }
    }
}

proof fn lemma_surviving_bounds(
    o: Seq<ContextFile>,
    ms: Seq<Seq<SnippetMeasure>>,
    base: int,
    kept: Set<int>,
)
    ensures
        forall|j: int|
            0 <= j < surviving(o, ms, base, kept).len() ==> 0 <= #[trigger] surviving(
                o,
                ms,
                base,
                kept,
            )[j] < o.len(),
    decreases o.len(),
{
    if o.len() > 0 {
        lemma_surviving_bounds(o.drop_last(), ms, base, kept);
        let f = o.len() - 1;
        let prev = surviving(o.drop_last(), ms, base, kept);
        assert forall|j: int| 0 <= j < prev.push(f).len() implies 0 <= #[trigger] prev.push(f)[j]
            < o.len() by {
            if j < prev.len() {
                assert(prev.push(f)[j] == prev[j]);
            }
        }
    }
}

proof fn lemma_flat_take(ms: Seq<Seq<SnippetMeasure>>, f: int)
    requires
        0 <= f < ms.len(),
    ensures
        flat(ms.take(f + 1)).len() == flat(ms.take(f)).len() + ms[f].len(),
{
    assert(ms.take(f + 1).drop_last() =~= ms.take(f));
}

proof fn lemma_flat_len_bound(ms: Seq<Seq<SnippetMeasure>>, f: int)
    requires
        0 <= f <= ms.len(),
    ensures
        flat(ms.take(f)).len() <= flat(ms).len(),
    decreases ms.len() - f,
{
    if f < ms.len() {
        lemma_flat_take(ms, f);
        lemma_flat_len_bound(ms, f + 1);
    } else {
        assert(ms.take(f) =~= ms);
    }
}

fn keep_snippets(snippets: Vec<DiffSnippet>, ms: &Vec<SnippetMeasure>, flags: &Vec<bool>, base: usize) -> (r: (
    Vec<DiffSnippet>,
    u32,
))
    requires
        ms.len() == snippets.len(),
        base + ms.len() <= flags.len(),
    ensures
        r.0@ == kept_snippets(snippets@, base as int, flag_set(flags@)),
        r.1 == kept_tokens(ms@, base as int, flag_set(flags@)),
{
    let ghost orig = snippets@;
    let ghost k = flag_set(flags@);
    let n = snippets.len();
    let mut rest = snippets;
    let mut out: Vec<DiffSnippet> = Vec::new();
    let mut tokens: u32 = 0;
    let mut i: usize = 0;
    while rest.len() > 0
        invariant
            i + rest.len() == n,
            n == orig.len(),
            n == ms.len(),
            base + n <= flags.len(),
            k == flag_set(flags@),
            rest@ == orig.subrange(i as int, n as int),
            out@ == kept_snippets(orig.take(i as int), base as int, k),
            tokens == kept_tokens(ms@.take(i as int), base as int, k),
        decreases rest.len(),
    {
        let snip = rest.remove(0);
        proof {
            assert(snip == orig[i as int]);
            assert(rest@ =~= orig.subrange(i + 1, n as int));
            assert(orig.take(i + 1).drop_last() =~= orig.take(i as int));
            assert(ms@.take(i + 1).drop_last() =~= ms@.take(i as int));
            assert(k.contains(base + i) == flags@[base + i]);
        }
        if flags[base + i] {
            out.push(snip);
            tokens = tokens.saturating_add(ms[i].tokens);
        }
        i = i + 1;
    }
    assert(orig.take(n as int) =~= orig);
    assert(ms@.take(n as int) =~= ms@);
    (out, tokens)
}

fn budget_files(
    files: Vec<ContextFile>,
    ms: &Vec<Vec<SnippetMeasure>>,
    flags: &Vec<bool>,
    base: usize,
) -> (r: Vec<ContextFile>)
    requires
        ms.len() == files.len(),
        forall|f: int| 0 <= f < files.len() ==> (#[trigger] ms@[f]).len() == files@[f].snippets.len(),
        base + flat(measure_views(ms@)).len() <= flags.len(),
    ensures
        files_after_budget(
            r@,
            files@,
            measure_views(ms@),
            base as int,
            flag_set(flags@),
        ),
        kept_tokens_total(files@, measure_views(ms@), base as int, flag_set(flags@))
            == tokens_sum(r@),
{
    let ghost orig = files@;
    let ghost mv = measure_views(ms@);
    let ghost k = flag_set(flags@);
    let n = files.len();
    let mut rest = files;
    let mut out: Vec<ContextFile> = Vec::new();
    let mut b: usize = base;
    let mut f: usize = 0;
    while rest.len() > 0
        invariant
            f + rest.len() == n,
            n == orig.len(),
            n == ms.len(),
            mv == measure_views(ms@),
            k == flag_set(flags@),
            forall|g: int| 0 <= g < n ==> (#[trigger] ms@[g]).len() == orig[g].snippets.len(),
            base + flat(mv).len() <= flags.len(),
            rest@ == orig.subrange(f as int, n as int),
            b == file_base(mv, f as int, base as int),
            files_after_budget(out@, orig.take(f as int), mv, base as int, k),
            kept_tokens_total(orig.take(f as int), mv, base as int, k) == tokens_sum(out@),
        decreases rest.len(),
    {
        let mut file = rest.remove(0);
        let ghost old_file = file;
        let ghost prev_out = out@;
        proof {
            assert(file == orig[f as int]);
            assert(rest@ =~= orig.subrange(f + 1, n as int));
            lemma_flat_take(mv, f as int);
            lemma_flat_len_bound(mv, f + 1);
            assert(mv[f as int] == ms@[f as int]@);
        }
        let mut snips: Vec<DiffSnippet> = Vec::new();
        std::mem::swap(&mut snips, &mut file.snippets);
        let (kept, tokens) = keep_snippets(snips, &ms[f], flags, b);
        let keeps = kept.len() > 0;
        proof {
            let o2 = orig.take(f + 1);
            assert(o2.drop_last() =~= orig.take(f as int));
            assert(o2[f as int] == orig[f as int]);
            lemma_surviving_bounds(orig.take(f as int), mv, base as int, k);
        }
        if keeps {
            file.snippets = kept;
            file.tokens = tokens;
            out.push(file);
            proof {
                let s = surviving(orig.take(f + 1), mv, base as int, k);
                let s0 = surviving(orig.take(f as int), mv, base as int, k);
                assert(s == s0.push(f as int));
                assert forall|j: int| 0 <= j < out@.len() implies budgeted_file(
                    #[trigger] out@[j],
                    orig.take(f + 1)[s[j]],
                    mv[s[j]],
                    file_base(mv, s[j], base as int),
                    k,
                ) by {
                    if j < prev_out.len() {
                        assert(out@[j] == prev_out[j]);
                        assert(orig.take(f + 1)[s0[j]] == orig.take(f as int)[s0[j]]);
                    }
                }
                assert(tokens_sum(out@.drop_last()) == tokens_sum(prev_out)) by {
                    assert(out@.drop_last() =~= prev_out);
                }
            }
        } else {
            proof {
                let s = surviving(orig.take(f + 1), mv, base as int, k);
                let s0 = surviving(orig.take(f as int), mv, base as int, k);
                assert(s == s0);
                assert forall|j: int| 0 <= j < out@.len() implies budgeted_file(
                    #[trigger] out@[j],
                    orig.take(f + 1)[s[j]],
                    mv[s[j]],
                    file_base(mv, s[j], base as int),
                    k,
                ) by {
                    assert(orig.take(f + 1)[s0[j]] == orig.take(f as int)[s0[j]]);
                }
            }
        }
        b = b + ms[f].len();
        f = f + 1;
    }
    assert(orig.take(n as int) =~= orig);
    out
}

// ---------------------------------------------------------------------------
// Sums and paths
// ---------------------------------------------------------------------------

/// The tokens of some files, added up.
pub open spec fn tokens_sum(fs: Seq<ContextFile>) -> int
    decreases fs.len(),
{
    if fs.len() == 0 {
        0
    } else {
        tokens_sum(fs.drop_last()) + fs.last().tokens
    }
}

proof fn lemma_tokens_sum_prefix(fs: Seq<ContextFile>, i: int)
    requires
        0 <= i <= fs.len(),
    ensures
        0 <= tokens_sum(fs.take(i)) <= tokens_sum(fs),
    decreases fs.len() - i,
{
    if i < fs.len() {
        assert(fs.take(i + 1).drop_last() =~= fs.take(i));
        lemma_tokens_sum_prefix(fs, i + 1);
    } else {
        assert(fs.take(i) =~= fs);
    }
    lemma_tokens_sum_nonneg(fs.take(i));
}

proof fn lemma_tokens_sum_nonneg(fs: Seq<ContextFile>)
    ensures
        tokens_sum(fs) >= 0,
    decreases fs.len(),
{
    if fs.len() > 0 {
        lemma_tokens_sum_nonneg(fs.drop_last());
    }
}

fn sum_tokens(fs: &Vec<ContextFile>) -> (r: u32)
    requires
        tokens_sum(fs@) <= u32::MAX,
    ensures
        r == tokens_sum(fs@),
{
    let mut sum: u32 = 0;
    let mut i: usize = 0;
    while i < fs.len()
        invariant
            i <= fs.len(),
            tokens_sum(fs@) <= u32::MAX,
            sum == tokens_sum(fs@.take(i as int)),
        decreases fs.len() - i,
    {
        proof {
            assert(fs@.take(i + 1).drop_last() =~= fs@.take(i as int));
            lemma_tokens_sum_prefix(fs@, i + 1);
        }
        sum = sum + fs[i].tokens;
        i = i + 1;
    }
    assert(fs@.take(fs.len() as int) =~= fs@);
    sum
}

/// Whether one of the files has path `p`.
pub open spec fn lists_path(fs: Seq<ContextFile>, p: Seq<char>) -> bool {
    exists|i: int| 0 <= i < fs.len() && (#[trigger] fs[i]).path@ == p
}

fn has_path(fs: &Vec<ContextFile>, p: &Vec<char>) -> (r: bool)
    ensures
        r == lists_path(fs@, p@),
{
    let mut i: usize = 0;
    while i < fs.len()
        invariant
            i <= fs.len(),
            forall|j: int| 0 <= j < i ==> (#[trigger] fs@[j]).path@ != p@,
        decreases fs.len() - i,
    {
        let q = chars_of(fs[i].path.as_str());
        if chars_eq(&q, p) {
            return true;
        }
        i = i + 1;
    }
    false
}

// ---------------------------------------------------------------------------
// The budget
// ---------------------------------------------------------------------------

/// Whether `ms` gives one measure per snippet of each file.
pub open spec fn measures_fit(fs: Seq<ContextFile>, ms: Seq<Vec<SnippetMeasure>>) -> bool {
    &&& ms.len() == fs.len()
    &&& forall|f: int| 0 <= f < fs.len() ==> (#[trigger] ms[f]).len() == fs[f].snippets.len()
}

/// The numbers of the snippets a positive budget keeps. The snippets of the
/// dependent files and then those of the related tests are numbered one
/// after the other; they are considered in ranked order, and each is kept
/// if the changed files' tokens plus those kept so far plus its own
/// (saturating) stay within the budget.
pub open spec fn budget_kept(
    changed: Seq<ContextFile>,
    budget: u32,
    dm: Seq<Seq<SnippetMeasure>>,
    tm: Seq<Seq<SnippetMeasure>>,
) -> Set<int> {
    kept_positions(ranked(numbered(flat(dm) + flat(tm))), tokens_sum(changed) as u32, budget)
}

/// Whether a dependent symbol stays: its file is still in the context.
pub open spec fn symbol_stays(
    s: ContextSymbol,
    changed: Seq<ContextFile>,
    dependent: Seq<ContextFile>,
    tests: Seq<ContextFile>,
) -> bool {
    lists_path(changed, s.file_path@) || lists_path(dependent, s.file_path@) || lists_path(
        tests,
        s.file_path@,
    )
}

fn concat_measures(a: Vec<SnippetMeasure>, b: Vec<SnippetMeasure>) -> (r: Vec<SnippetMeasure>)
    ensures
        r@ == a@ + b@,
{
    let mut r = a;
    let ghost start = r@;
    let mut i: usize = 0;
    while i < b.len()
        invariant
            i <= b.len(),
            r@ == start + b@.take(i as int),
        decreases b.len() - i,
    {
        r.push(b[i]);
        assert(b@.take(i + 1) =~= b@.take(i as int).push(b@[i as int]));
        i = i + 1;
    }
    assert(b@.take(b.len() as int) =~= b@);
    r
}

fn keep_symbols(
    symbols: Vec<ContextSymbol>,
    changed: &Vec<ContextFile>,
    dependent: &Vec<ContextFile>,
    tests: &Vec<ContextFile>,
) -> (r: Vec<ContextSymbol>)
    ensures
        r@ == symbols@.filter(
            |s: ContextSymbol| symbol_stays(s, changed@, dependent@, tests@),
        ),
{
    let ghost orig = symbols@;
    let ghost keep = |s: ContextSymbol| symbol_stays(s, changed@, dependent@, tests@);
    let n = symbols.len();
    let mut rest = symbols;
    let mut out: Vec<ContextSymbol> = Vec::new();
    let mut i: usize = 0;
    while rest.len() > 0
        invariant
            i + rest.len() == n,
            n == orig.len(),
            rest@ == orig.subrange(i as int, n as int),
            keep == (|s: ContextSymbol| symbol_stays(s, changed@, dependent@, tests@)),
            out@ == orig.take(i as int).filter(keep),
        decreases rest.len(),
    {
        let sym = rest.remove(0);
        proof {
            assert(sym == orig[i as int]);
            assert(rest@ =~= orig.subrange(i + 1, n as int));
            assert(orig.take(i + 1) == orig.take(i as int).push(orig[i as int]));
            orig.take(i as int).lemma_filter_push(orig[i as int], keep);
        }
        let p = chars_of(sym.file_path.as_str());
        if has_path(changed, &p) || has_path(dependent, &p) || has_path(tests, &p) {
            out.push(sym);
        }
        i = i + 1;
    }
    assert(orig.take(n as int) =~= orig);
    out
}

/// Fits the snippets of a diff context into a token budget, as
/// `--budget` does. The changed files are always kept. With a positive
/// budget, each dependent file and related test keeps the snippets that
/// `budget_kept` keeps (their tokens, added up saturating, become the
/// file's tokens), and files left without snippets are dropped; with a
/// budget of 0 the files stay as they are. Either way, dependent symbols
/// whose file is no longer in the context are dropped, and the total is
/// the sum of the files' tokens. `dependent` and `tests` give the measure
/// of each snippet of the dependent files and of the related tests.
pub fn apply_diff_budget(
    context: &mut ExpandedContext,
    budget: u32,
    dependent: &Vec<Vec<SnippetMeasure>>,
    tests: &Vec<Vec<SnippetMeasure>>,
)
    requires
        measures_fit(old(context).dependent_files@, dependent@),
        measures_fit(old(context).related_tests@, tests@),
        flat(measure_views(dependent@)).len() + flat(measure_views(tests@)).len() <= usize::MAX,
        tokens_sum(old(context).changed_files@) <= u32::MAX,
        budget == 0 ==> tokens_sum(old(context).changed_files@) + tokens_sum(
            old(context).dependent_files@,
        ) + tokens_sum(old(context).related_tests@) <= u32::MAX,
        budget == u32::MAX ==> ({
            let dm = measure_views(dependent@);
            let tm = measure_views(tests@);
            let k = budget_kept(old(context).changed_files@, budget, dm, tm);
            tokens_sum(old(context).changed_files@) + kept_tokens_total(
                old(context).dependent_files@,
                dm,
                0,
                k,
            ) + kept_tokens_total(old(context).related_tests@, tm, flat(dm).len() as int, k)
                <= u32::MAX
        }),
    ensures
        final(context).changed_files == old(context).changed_files,
        final(context).changed_symbols == old(context).changed_symbols,
        final(context).call_chains == old(context).call_chains,
        final(context).impact_summary == old(context).impact_summary,
        budget == 0 ==> final(context).dependent_files == old(context).dependent_files
            && final(context).related_tests == old(context).related_tests,
        budget > 0 ==> ({
            let dm = measure_views(dependent@);
            let tm = measure_views(tests@);
            let k = budget_kept(old(context).changed_files@, budget, dm, tm);
            &&& files_after_budget(
                final(context).dependent_files@,
                old(context).dependent_files@,
                dm,
                0,
                k,
            )
            &&& files_after_budget(
                final(context).related_tests@,
                old(context).related_tests@,
                tm,
                flat(dm).len() as int,
                k,
            )
        }),
        final(context).dependent_symbols@ == old(context).dependent_symbols@.filter(
            |s: ContextSymbol|
                symbol_stays(
                    s,
                    final(context).changed_files@,
                    final(context).dependent_files@,
                    final(context).related_tests@,
                ),
        ),
        final(context).total_tokens == tokens_sum(final(context).changed_files@) + tokens_sum(
            final(context).dependent_files@,
        ) + tokens_sum(final(context).related_tests@),
        budget > 0 ==> ({
            let dm = measure_views(dependent@);
            let tm = measure_views(tests@);
            let k = budget_kept(old(context).changed_files@, budget, dm, tm);
            final(context).total_tokens == tokens_sum(old(context).changed_files@)
                + kept_tokens_total(old(context).dependent_files@, dm, 0, k) + kept_tokens_total(
                old(context).related_tests@,
                tm,
                flat(dm).len() as int,
                k,
            )
        }),
{
    let ghost dm = measure_views(dependent@);
    let ghost tm = measure_views(tests@);
    let changed_sum = sum_tokens(&context.changed_files);
    if budget > 0 {
        let dep_flat = flatten(dependent);
        let nd = dep_flat.len();
        let test_flat = flatten(tests);
        let all_m = concat_measures(dep_flat, test_flat);
        let n = all_m.len();
        let all = number_snippets(&all_m);
        assert forall|j: int| 0 <= j < all.len() implies (#[trigger] all@[j]).0 < n by {
            assert(all@[j].0 == j as usize);
        }
        let order = rank_snippets(all, n);
        let flags = greedy_flags(&order, changed_sum, budget, n);
        assert(flag_set(flags@) == budget_kept(context.changed_files@, budget, dm, tm));
        proof {
            assert forall|f: int| 0 <= f < dependent.len() implies (#[trigger] dependent@[f]).len()
                == context.dependent_files@[f].snippets.len() by {
                assert(measures_fit(context.dependent_files@, dependent@));
            }
            assert forall|f: int| 0 <= f < tests.len() implies (#[trigger] tests@[f]).len()
                == context.related_tests@[f].snippets.len() by {
                assert(measures_fit(context.related_tests@, tests@));
            }
        }
        proof {
            let k = budget_kept(context.changed_files@, budget, dm, tm);
            if budget < u32::MAX {
                if tokens_sum(context.changed_files@) <= budget {
                    law_budget_bounds_total(
                        context.changed_files@,
                        context.dependent_files@,
                        context.related_tests@,
                        budget,
                        dependent@,
                        tests@,
                    );
                } else {
                    law_budget_passed_keeps_nothing(
                        context.changed_files@,
                        context.dependent_files@,
                        context.related_tests@,
                        budget,
                        dependent@,
                        tests@,
                    );
                }
            }
        }
        let mut deps: Vec<ContextFile> = Vec::new();
        std::mem::swap(&mut deps, &mut context.dependent_files);
        context.dependent_files = budget_files(deps, dependent, &flags, 0);
        let mut tsts: Vec<ContextFile> = Vec::new();
        std::mem::swap(&mut tsts, &mut context.related_tests);
        context.related_tests = budget_files(tsts, tests, &flags, nd);
    }
    proof {
        lemma_tokens_sum_nonneg(context.changed_files@);
        lemma_tokens_sum_nonneg(context.dependent_files@);
        lemma_tokens_sum_nonneg(context.related_tests@);
    }
    let mut symbols: Vec<ContextSymbol> = Vec::new();
    std::mem::swap(&mut symbols, &mut context.dependent_symbols);
    context.dependent_symbols = keep_symbols(
        symbols,
        &context.changed_files,
        &context.dependent_files,
        &context.related_tests,
    );
    let a = sum_tokens(&context.dependent_files);
    let b = sum_tokens(&context.related_tests);
    context.total_tokens = changed_sum + a + b;
}

// ---------------------------------------------------------------------------
// The budget holds
// ---------------------------------------------------------------------------

/// The tokens of the snippets of `m` whose numbers (counted from `base`)
/// are kept, added up exactly.
pub open spec fn kept_exact(m: Seq<SnippetMeasure>, kept: Set<int>, base: int) -> int
    decreases m.len(),
{
    if m.len() == 0 {
        0
    } else {
        kept_exact(m.drop_last(), kept, base) + if kept.contains(base + m.len() - 1) {
            m.last().tokens as int
        } else {
            0
        }
    }
}

/// The tokens the greedy pass over `r` accepts, in the order it accepts
/// them.
pub open spec fn greedy_sum(r: Seq<(usize, SnippetMeasure)>, running: u32, budget: u32) -> int
    decreases r.len(),
{
    if r.len() == 0 {
        0
    } else {
        let next = sat_add(running, r[0].1.tokens);
        if next <= budget {
            r[0].1.tokens + greedy_sum(r.drop_first(), next, budget)
        } else {
            greedy_sum(r.drop_first(), running, budget)
        }
    }
}

/// The exact kept tokens of the first `n` files, file by file.
pub open spec fn files_kept_exact(ms: Seq<Seq<SnippetMeasure>>, kept: Set<int>, base: int, n: int) -> int
    decreases n,
{
    if n <= 0 {
        0
    } else {
        files_kept_exact(ms, kept, base, n - 1) + kept_exact(ms[n - 1], kept, file_base(ms, n - 1, base))
    }
}

/// Whether the entries carry distinct numbers below `m.len()`, each with
/// the measure `m` has under its number.
pub open spec fn numbered_from(r: Seq<(usize, SnippetMeasure)>, m: Seq<SnippetMeasure>) -> bool {
    &&& forall|j: int| 0 <= j < r.len() ==> (#[trigger] r[j]).0 < m.len() && r[j].1 == m[r[j].0 as int]
    &&& forall|i: int, j: int| 0 <= i < j < r.len() ==> (#[trigger] r[i]).0 != (#[trigger] r[j]).0
}

proof fn lemma_kept_exact_nonneg(m: Seq<SnippetMeasure>, kept: Set<int>, base: int)
    ensures
        kept_exact(m, kept, base) >= 0,
    decreases m.len(),
{
    if m.len() > 0 {
        lemma_kept_exact_nonneg(m.drop_last(), kept, base);
    }
}

proof fn lemma_kept_exact_concat(a: Seq<SnippetMeasure>, b: Seq<SnippetMeasure>, kept: Set<int>, base: int)
    ensures
        kept_exact(a + b, kept, base) == kept_exact(a, kept, base) + kept_exact(b, kept, base + a.len()),
    decreases b.len(),
{
    if b.len() == 0 {
        assert(a + b =~= a);
    } else {
        assert((a + b).drop_last() =~= a + b.drop_last());
        lemma_kept_exact_concat(a, b.drop_last(), kept, base);
    }
}

proof fn lemma_flat_kept(ms: Seq<Seq<SnippetMeasure>>, kept: Set<int>, base: int, n: int)
    requires
        0 <= n <= ms.len(),
    ensures
        kept_exact(flat(ms.take(n)), kept, base) == files_kept_exact(ms, kept, base, n),
    decreases n,
{
    if n == 0 {
        assert(ms.take(0) =~= Seq::<Seq<SnippetMeasure>>::empty());
    } else {
        lemma_flat_kept(ms, kept, base, n - 1);
        assert(ms.take(n).drop_last() =~= ms.take(n - 1));
        assert(ms.take(n).last() == ms[n - 1]);
        lemma_kept_exact_concat(flat(ms.take(n - 1)), ms[n - 1], kept, base);
    }
}

proof fn lemma_files_kept_mono(ms: Seq<Seq<SnippetMeasure>>, kept: Set<int>, base: int, f: int, n: int)
    requires
        0 <= f < n <= ms.len(),
    ensures
        0 <= kept_exact(ms[f], kept, file_base(ms, f, base)) <= files_kept_exact(ms, kept, base, n),
        files_kept_exact(ms, kept, base, f) <= files_kept_exact(ms, kept, base, n),
        files_kept_exact(ms, kept, base, f) >= 0,
    decreases n,
{
    lemma_kept_exact_nonneg(ms[n - 1], kept, file_base(ms, n - 1, base));
    if f < n - 1 {
        lemma_files_kept_mono(ms, kept, base, f, n - 1);
    } else {
        lemma_files_kept_nonneg(ms, kept, base, f);
        lemma_kept_exact_nonneg(ms[f], kept, file_base(ms, f, base));
    }
}

proof fn lemma_files_kept_nonneg(ms: Seq<Seq<SnippetMeasure>>, kept: Set<int>, base: int, n: int)
    requires
        0 <= n <= ms.len(),
    ensures
        files_kept_exact(ms, kept, base, n) >= 0,
    decreases n,
{
    if n > 0 {
        lemma_files_kept_nonneg(ms, kept, base, n - 1);
        lemma_kept_exact_nonneg(ms[n - 1], kept, file_base(ms, n - 1, base));
    }
}

proof fn lemma_kept_tokens_exact(ms: Seq<SnippetMeasure>, base: int, kept: Set<int>)
    requires
        kept_exact(ms, kept, base) <= u32::MAX,
    ensures
        kept_tokens(ms, base, kept) as int == kept_exact(ms, kept, base),
    decreases ms.len(),
{
    if ms.len() > 0 {
        let last_part = if kept.contains(base + ms.len() - 1) {
            ms.last().tokens as int
        } else {
            0
        };
        assert(last_part >= 0);
        lemma_kept_exact_nonneg(ms.drop_last(), kept, base);
        lemma_kept_tokens_exact(ms.drop_last(), base, kept);
    }
}

proof fn lemma_nothing_kept(snips: Seq<DiffSnippet>, ms: Seq<SnippetMeasure>, base: int, kept: Set<int>)
    requires
        snips.len() == ms.len(),
        kept_snippets(snips, base, kept).len() == 0,
    ensures
        kept_exact(ms, kept, base) == 0,
    decreases ms.len(),
{
    if ms.len() > 0 {
        lemma_nothing_kept(snips.drop_last(), ms.drop_last(), base, kept);
    }
}

proof fn lemma_kept_tokens_total_exact(
    o: Seq<ContextFile>,
    ms: Seq<Seq<SnippetMeasure>>,
    base: int,
    kept: Set<int>,
)
    requires
        o.len() <= ms.len(),
        forall|f: int| 0 <= f < o.len() ==> (#[trigger] ms[f]).len() == o[f].snippets.len(),
        files_kept_exact(ms, kept, base, o.len() as int) <= u32::MAX,
    ensures
        kept_tokens_total(o, ms, base, kept) == files_kept_exact(ms, kept, base, o.len() as int),
    decreases o.len(),
{
    if o.len() > 0 {
        let f = o.len() - 1;
        let b = file_base(ms, f, base);
        lemma_files_kept_mono(ms, kept, base, f, o.len() as int);
        assert forall|g: int| 0 <= g < o.drop_last().len() implies (#[trigger] ms[g]).len()
            == o.drop_last()[g].snippets.len() by {
            assert(o.drop_last()[g] == o[g]);
        }
        lemma_kept_tokens_total_exact(o.drop_last(), ms, base, kept);
        if kept_snippets(o[f].snippets@, b, kept).len() > 0 {
            lemma_kept_tokens_exact(ms[f], b, kept);
        } else {
            lemma_nothing_kept(o[f].snippets@, ms[f], b, kept);
        }
    }
}

proof fn lemma_greedy_within(r: Seq<(usize, SnippetMeasure)>, running: u32, budget: u32)
    requires
        running <= budget < u32::MAX,
    ensures
        0 <= greedy_sum(r, running, budget),
        running + greedy_sum(r, running, budget) <= budget,
    decreases r.len(),
{
    if r.len() > 0 {
        let next = sat_add(running, r[0].1.tokens);
        if next <= budget {
            lemma_greedy_within(r.drop_first(), next, budget);
        } else {
            lemma_greedy_within(r.drop_first(), running, budget);
        }
    }
}

proof fn lemma_kept_positions_from(r: Seq<(usize, SnippetMeasure)>, running: u32, budget: u32, p: int)
    requires
        kept_positions(r, running, budget).contains(p),
    ensures
        exists|j: int| 0 <= j < r.len() && (#[trigger] r[j]).0 == p,
    decreases r.len(),
{
    if r.len() > 0 {
        let next = sat_add(running, r[0].1.tokens);
        let rest = if next <= budget {
            next
        } else {
            running
        };
        if p != r[0].0 || !(next <= budget) {
            if kept_positions(r.drop_first(), rest, budget).contains(p) {
                lemma_kept_positions_from(r.drop_first(), rest, budget, p);
                let j = choose|j: int| 0 <= j < r.drop_first().len() && (#[trigger] r.drop_first()[j]).0 == p;
                assert(r[j + 1] == r.drop_first()[j]);
            }
        } else {
            assert(r[0].0 == p);
        }
    }
}

proof fn lemma_kept_exact_insert(m: Seq<SnippetMeasure>, kept: Set<int>, p: int)
    requires
        0 <= p < m.len(),
        !kept.contains(p),
    ensures
        kept_exact(m, kept.insert(p), 0) == kept_exact(m, kept, 0) + m[p].tokens,
    decreases m.len(),
{
    if m.len() - 1 != p {
        lemma_kept_exact_insert(m.drop_last(), kept, p);
    } else {
        lemma_kept_exact_same(m.drop_last(), kept, p);
    }
}

proof fn lemma_kept_exact_same(m: Seq<SnippetMeasure>, kept: Set<int>, p: int)
    requires
        m.len() <= p,
    ensures
        kept_exact(m, kept.insert(p), 0) == kept_exact(m, kept, 0),
    decreases m.len(),
{
    if m.len() > 0 {
        lemma_kept_exact_same(m.drop_last(), kept, p);
    }
}

proof fn lemma_greedy_is_kept_exact(
    r: Seq<(usize, SnippetMeasure)>,
    m: Seq<SnippetMeasure>,
    running: u32,
    budget: u32,
)
    requires
        numbered_from(r, m),
    ensures
        greedy_sum(r, running, budget) == kept_exact(m, kept_positions(r, running, budget), 0),
    decreases r.len(),
{
    if r.len() == 0 {
        lemma_kept_exact_empty(m);
    } else {
        let rest = r.drop_first();
        assert(numbered_from(rest, m)) by {
            assert forall|i: int, j: int| 0 <= i < j < rest.len() implies (#[trigger] rest[i]).0
                != (#[trigger] rest[j]).0 by {
                assert(rest[i] == r[i + 1] && rest[j] == r[j + 1]);
            }
            assert forall|j: int| 0 <= j < rest.len() implies (#[trigger] rest[j]).0 < m.len()
                && rest[j].1 == m[rest[j].0 as int] by {
                assert(rest[j] == r[j + 1]);
            }
        }
        let next = sat_add(running, r[0].1.tokens);
        if next <= budget {
            lemma_greedy_is_kept_exact(rest, m, next, budget);
            let k = kept_positions(rest, next, budget);
            let p = r[0].0 as int;
            if k.contains(p) {
                lemma_kept_positions_from(rest, next, budget, p);
                let j = choose|j: int| 0 <= j < rest.len() && (#[trigger] rest[j]).0 == p;
                assert(rest[j] == r[j + 1]);
                assert(r[0].0 != r[j + 1].0);
            }
            lemma_kept_exact_insert(m, k, p);
        } else {
            lemma_greedy_is_kept_exact(rest, m, running, budget);
        }
    }
}

proof fn lemma_kept_exact_empty(m: Seq<SnippetMeasure>)
    ensures
        kept_exact(m, Set::empty(), 0) == 0,
    decreases m.len(),
{
    if m.len() > 0 {
        lemma_kept_exact_empty(m.drop_last());
    }
}

proof fn lemma_ranked_from(s: Seq<(usize, SnippetMeasure)>)
    ensures
        ranked(s).len() == s.len(),
        forall|j: int| 0 <= j < ranked(s).len() ==> s.contains(#[trigger] ranked(s)[j]),
        (forall|i: int, j: int| 0 <= i < j < s.len() ==> (#[trigger] s[i]).0 != (#[trigger] s[j]).0)
            ==> (forall|i: int, j: int|
            0 <= i < j < ranked(s).len() ==> (#[trigger] ranked(s)[i]).0 != (#[trigger] ranked(
                s,
            )[j]).0),
    decreases s.len(),
{
    if s.len() > 0 {
        let prev = s.drop_last();
        lemma_ranked_from(prev);
        let r0 = ranked(prev);
        let x = s.last();
        lemma_rank_point(r0, x.1);
        let k = rank_point(r0, x.1);
        let r = r0.insert(k, x);
        assert forall|j: int| 0 <= j < r.len() implies s.contains(#[trigger] r[j]) by {
            if j < k {
                assert(r[j] == r0[j]);
                assert(prev.contains(r0[j]));
                let i = choose|i: int| 0 <= i < prev.len() && prev[i] == r0[j];
                assert(s[i] == prev[i]);
            } else if j == k {
                assert(s[s.len() - 1] == x);
            } else {
                assert(r[j] == r0[j - 1]);
                assert(prev.contains(r0[j - 1]));
                let i = choose|i: int| 0 <= i < prev.len() && prev[i] == r0[j - 1];
                assert(s[i] == prev[i]);
            }
        }
        if forall|i: int, j: int| 0 <= i < j < s.len() ==> (#[trigger] s[i]).0 != (#[trigger] s[j]).0 {
            assert forall|i: int, j: int| 0 <= i < j < prev.len() implies (#[trigger] prev[i]).0
                != (#[trigger] prev[j]).0 by {
                assert(prev[i] == s[i] && prev[j] == s[j]);
            }
            assert forall|a: int| 0 <= a < r0.len() implies (#[trigger] r0[a]).0 != x.0 by {
                assert(prev.contains(r0[a]));
                let i = choose|i: int| 0 <= i < prev.len() && prev[i] == r0[a];
                assert(s[i] == prev[i]);
                assert(s[s.len() - 1] == x);
            }
            assert forall|i: int, j: int| 0 <= i < j < r.len() implies (#[trigger] r[i]).0
                != (#[trigger] r[j]).0 by {
                if j < k {
                    assert(r[i] == r0[i] && r[j] == r0[j]);
                } else if j == k {
                    assert(r[i] == r0[i]);
                } else if i < k {
                    assert(r[i] == r0[i] && r[j] == r0[j - 1]);
                } else if i == k {
                    assert(r[j] == r0[j - 1]);
                } else {
                    assert(r[i] == r0[i - 1] && r[j] == r0[j - 1]);
                }
            }
        }
    }
}

proof fn lemma_ranked_numbered(m: Seq<SnippetMeasure>)
    requires
        m.len() <= usize::MAX,
    ensures
        numbered_from(ranked(numbered(m)), m),
{
    let s = numbered(m);
    assert forall|i: int, j: int| 0 <= i < j < s.len() implies (#[trigger] s[i]).0 != (
    #[trigger] s[j]).0 by {
        assert(s[i].0 == i as usize && s[j].0 == j as usize);
    }
    lemma_ranked_from(s);
    let r = ranked(s);
    assert forall|j: int| 0 <= j < r.len() implies (#[trigger] r[j]).0 < m.len() && r[j].1
        == m[r[j].0 as int] by {
        assert(s.contains(r[j]));
        let i = choose|i: int| 0 <= i < s.len() && s[i] == r[j];
        assert(s[i].0 == i as usize);
    }
}

proof fn lemma_nothing_fits(r: Seq<(usize, SnippetMeasure)>, running: u32, budget: u32)
    requires
        running > budget,
    ensures
        kept_positions(r, running, budget) == Set::<int>::empty(),
    decreases r.len(),
{
    if r.len() > 0 {
        lemma_nothing_fits(r.drop_first(), running, budget);
    }
}

proof fn lemma_none_kept_total(o: Seq<ContextFile>, ms: Seq<Seq<SnippetMeasure>>, base: int)
    ensures
        kept_tokens_total(o, ms, base, Set::empty()) == 0,
    decreases o.len(),
{
    if o.len() > 0 {
        lemma_none_kept_total(o.drop_last(), ms, base);
        lemma_none_kept_snippets(o[o.len() - 1].snippets@, file_base(ms, o.len() - 1, base));
    }
}

proof fn lemma_none_kept_snippets(snips: Seq<DiffSnippet>, base: int)
    ensures
        kept_snippets(snips, base, Set::empty()).len() == 0,
    decreases snips.len(),
{
    if snips.len() > 0 {
        lemma_none_kept_snippets(snips.drop_last(), base);
    }
}

/// When the changed files alone pass the budget, no snippet is kept.
pub proof fn law_budget_passed_keeps_nothing(
    changed: Seq<ContextFile>,
    dependent_files: Seq<ContextFile>,
    related_tests: Seq<ContextFile>,
    budget: u32,
    dependent: Seq<Vec<SnippetMeasure>>,
    tests: Seq<Vec<SnippetMeasure>>,
)
    requires
        budget < tokens_sum(changed) <= u32::MAX,
    ensures
        ({
            let dm = measure_views(dependent);
            let tm = measure_views(tests);
            let k = budget_kept(changed, budget, dm, tm);
            &&& k == Set::<int>::empty()
            &&& kept_tokens_total(dependent_files, dm, 0, k) == 0
            &&& kept_tokens_total(related_tests, tm, flat(dm).len() as int, k) == 0
        }),
{
    let dm = measure_views(dependent);
    let tm = measure_views(tests);
    let m = flat(dm) + flat(tm);
    lemma_nothing_fits(ranked(numbered(m)), tokens_sum(changed) as u32, budget);
    lemma_none_kept_total(dependent_files, dm, 0);
    lemma_none_kept_total(related_tests, tm, flat(dm).len() as int);
}

/// A budget holds: when the changed files fit in a budget below
/// `u32::MAX`, the changed files' tokens plus those the dependent files and
/// related tests keep (the context's total after the budget) are at most
/// the budget.
pub proof fn law_budget_bounds_total(
    changed: Seq<ContextFile>,
    dependent_files: Seq<ContextFile>,
    related_tests: Seq<ContextFile>,
    budget: u32,
    dependent: Seq<Vec<SnippetMeasure>>,
    tests: Seq<Vec<SnippetMeasure>>,
)
    requires
        measures_fit(dependent_files, dependent),
        measures_fit(related_tests, tests),
        flat(measure_views(dependent)).len() + flat(measure_views(tests)).len() <= usize::MAX,
        tokens_sum(changed) <= budget < u32::MAX,
    ensures
        ({
            let dm = measure_views(dependent);
            let tm = measure_views(tests);
            let k = budget_kept(changed, budget, dm, tm);
            tokens_sum(changed) + kept_tokens_total(dependent_files, dm, 0, k) + kept_tokens_total(
                related_tests,
                tm,
                flat(dm).len() as int,
                k,
            ) <= budget
        }),
{
    let dm = measure_views(dependent);
    let tm = measure_views(tests);
    let k = budget_kept(changed, budget, dm, tm);
    let m = flat(dm) + flat(tm);
    lemma_tokens_sum_nonneg(changed);
    let start = tokens_sum(changed) as u32;
    assert(start == tokens_sum(changed));
    let r = ranked(numbered(m));
    lemma_ranked_numbered(m);
    lemma_greedy_is_kept_exact(r, m, start, budget);
    lemma_greedy_within(r, start, budget);
    lemma_kept_exact_concat(flat(dm), flat(tm), k, 0);
    assert(dm.take(dm.len() as int) =~= dm);
    assert(tm.take(tm.len() as int) =~= tm);
    lemma_flat_kept(dm, k, 0, dm.len() as int);
    lemma_flat_kept(tm, k, flat(dm).len() as int, tm.len() as int);
    lemma_kept_exact_nonneg(flat(dm), k, 0);
    lemma_kept_exact_nonneg(flat(tm), k, flat(dm).len() as int);
    assert forall|f: int| 0 <= f < dependent_files.len() implies (#[trigger] dm[f]).len()
        == dependent_files[f].snippets.len() by {
        assert(dependent[f].len() == dependent_files[f].snippets.len());
    }
    assert forall|f: int| 0 <= f < related_tests.len() implies (#[trigger] tm[f]).len()
        == related_tests[f].snippets.len() by {
        assert(tests[f].len() == related_tests[f].snippets.len());
    }
    lemma_kept_tokens_total_exact(dependent_files, dm, 0, k);
    lemma_kept_tokens_total_exact(related_tests, tm, flat(dm).len() as int, k);
}

} // verus!
