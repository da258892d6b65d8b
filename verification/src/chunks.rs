//! Chunking helpers: how important a file is for ordering chunks, and the
//! one-line summary that heads each chunk.

use vstd::prelude::*;
use crate::text::{
    chars_of, contains, contains_str, decimal, decimal_chars, ends_with, ends_with_str, join,
    lowercase, push_all, push_str, starts_with, starts_with_str, string_from_chars, string_views,
    subrange_chars, to_lowercase_chars, is_ascii, ascii_lower, lemma_ascii_lower_twice,
};

verus! {

// ---------------------------------------------------------------------------
// File priority
// ---------------------------------------------------------------------------

/// The priority of a file by its lower-cased path: entry points 100,
/// manifests 90, core modules 80, API handlers 75, other sources 60,
/// utilities 30, tests 20, examples and docs 10, anything else 50 — the
/// first rule that applies wins (tests are checked before utilities).
pub open spec fn priority_of(l: Seq<char>) -> u32 {
    if ends_with(l, "main.rs"@) || ends_with(l, "main.py"@) || ends_with(l, "__main__.py"@)
        || ends_with(l, "index.ts"@) || ends_with(l, "index.js"@) || ends_with(l, "app.ts"@)
        || ends_with(l, "app.js"@) || ends_with(l, "main.go"@) || ends_with(l, "main.java"@) {
        100
    } else if ends_with(l, "cargo.toml"@) || ends_with(l, "package.json"@) || ends_with(
        l,
        "pyproject.toml"@,
    ) || ends_with(l, "go.mod"@) || ends_with(l, "pom.xml"@) || ends_with(l, "build.gradle"@) {
        90
    } else if contains(l, "/lib/"@) || contains(l, "/core/"@) || contains(l, "/src/lib"@)
        || ends_with(l, "lib.rs"@) || ends_with(l, "mod.rs"@) {
        80
    } else if contains(l, "/api/"@) || contains(l, "/handlers/"@) || contains(l, "/routes/"@)
        || contains(l, "/controllers/"@) || contains(l, "/endpoints/"@) {
        75
    } else if starts_with(l, "src/"@) || contains(l, "/src/"@) {
        60
    } else if contains(l, "/test"@) || contains(l, "test_"@) || contains(l, "_test."@) || contains(
        l,
        ".test."@,
    ) || contains(l, ".spec."@) || ends_with(l, "_test.rs"@) || ends_with(l, "_test.py"@)
        || ends_with(l, "_test.go"@) {
        20
    } else if contains(l, "/utils/"@) || contains(l, "/helpers/"@) || contains(l, "/util/"@)
        || contains(l, "/common/"@) || contains(l, "/shared/"@) {
        30
    } else if contains(l, "/examples/"@) || contains(l, "/docs/"@) || contains(l, "/example/"@)
        || ends_with(l, ".md"@) {
        10
    } else {
        50
    }
}

/// The priority of the file at `path`, matched case-insensitively; see
/// `priority_of`.
pub fn file_priority_score(path: &str) -> (r: u32)
    ensures
        r == priority_of(lowercase(path@)),
        is_ascii(path@) ==> r == priority_of(ascii_lower(path@)),
{
    let l = to_lowercase_chars(path);
    priority_of_chars(&l)
}

/// Entry points come first and manifests right after: a lower-cased path
/// ending in an entry-point name has priority 100, and one ending in a
/// manifest name has priority at least 90.
pub proof fn law_entry_points_then_manifests(l: Seq<char>)
    ensures
        (ends_with(l, "main.rs"@)
            || ends_with(l, "main.py"@)
            || ends_with(l, "__main__.py"@)
            || ends_with(l, "index.ts"@)
            || ends_with(l, "index.js"@)
            || ends_with(l, "app.ts"@)
            || ends_with(l, "app.js"@)
            || ends_with(l, "main.go"@)
            || ends_with(l, "main.java"@)) ==> priority_of(l) == 100,
        (ends_with(l, "cargo.toml"@)
            || ends_with(l, "package.json"@)
            || ends_with(l, "pyproject.toml"@)
            || ends_with(l, "go.mod"@)
            || ends_with(l, "pom.xml"@)
            || ends_with(l, "build.gradle"@)) ==> priority_of(l) >= 90,
{
}

/// The priority of an ASCII path does not depend on the case of its letters:
/// lower-casing the path first gives the same priority, and the priority is
/// always one of the nine tiers.
pub proof fn law_priority_ignores_case(p: Seq<char>)
    requires
        is_ascii(p),
    ensures
        is_ascii(ascii_lower(p)),
        priority_of(ascii_lower(ascii_lower(p))) == priority_of(ascii_lower(p)),
        ({
            let r = priority_of(ascii_lower(p));
            r == 100 || r == 90 || r == 80 || r == 75 || r == 60 || r == 50 || r == 30 || r == 20
                || r == 10
        }),
{
    lemma_ascii_lower_twice(p);
}

/// The priority of a path already in lower case; see `priority_of`.
pub fn lowercase_path_priority(path_lower: &str) -> (r: u32)
    ensures
        r == priority_of(path_lower@),
{
    let l = chars_of(path_lower);
    priority_of_chars(&l)
}

fn priority_of_chars(l: &Vec<char>) -> (r: u32)
    ensures
        r == priority_of(l@),
{
    let l = l;
    if ends_with_str(&l, "main.rs") || ends_with_str(&l, "main.py") || ends_with_str(
        &l,
        "__main__.py",
    ) || ends_with_str(&l, "index.ts") || ends_with_str(&l, "index.js") || ends_with_str(
        &l,
        "app.ts",
    ) || ends_with_str(&l, "app.js") || ends_with_str(&l, "main.go") || ends_with_str(
        &l,
        "main.java",
    ) {
        100
    } else if ends_with_str(&l, "cargo.toml") || ends_with_str(&l, "package.json")
        || ends_with_str(&l, "pyproject.toml") || ends_with_str(&l, "go.mod") || ends_with_str(
        &l,
        "pom.xml",
    ) || ends_with_str(&l, "build.gradle") {
        90
    } else if contains_str(&l, "/lib/") || contains_str(&l, "/core/") || contains_str(
        &l,
        "/src/lib",
    ) || ends_with_str(&l, "lib.rs") || ends_with_str(&l, "mod.rs") {
        80
    } else if contains_str(&l, "/api/") || contains_str(&l, "/handlers/") || contains_str(
        &l,
        "/routes/",
    ) || contains_str(&l, "/controllers/") || contains_str(&l, "/endpoints/") {
        75
    } else if starts_with_str(&l, "src/") || contains_str(&l, "/src/") {
        60
    } else if contains_str(&l, "/test") || contains_str(&l, "test_") || contains_str(&l, "_test.")
        || contains_str(&l, ".test.") || contains_str(&l, ".spec.") || ends_with_str(
        &l,
        "_test.rs",
    ) || ends_with_str(&l, "_test.py") || ends_with_str(&l, "_test.go") {
        20
    } else if contains_str(&l, "/utils/") || contains_str(&l, "/helpers/") || contains_str(
        &l,
        "/util/",
    ) || contains_str(&l, "/common/") || contains_str(&l, "/shared/") {
        30
    } else if contains_str(&l, "/examples/") || contains_str(&l, "/docs/") || contains_str(
        &l,
        "/example/",
    ) || ends_with_str(&l, ".md") {
        10
    } else {
        50
    }
}

// ---------------------------------------------------------------------------
// Chunk summaries
// ---------------------------------------------------------------------------

/// A chunk as its summary reads it: its place, focus, files, size, how many
/// cross references it has and whether it repeats the end of the previous
/// chunk.
pub struct ChunkOutline {
    pub index: usize,
    pub total: usize,
    pub focus: String,
    pub file_paths: Vec<String>,
    pub tokens: u32,
    pub cross_references: usize,
    pub has_overlap: bool,
}

/// The position of the last `c` in `s`.
pub open spec fn last_index_of(s: Seq<char>, c: char) -> Option<int>
    decreases s.len(),
{
    if s.len() == 0 {
        None
    } else if s.last() == c {
        Some(s.len() - 1)
    } else {
        last_index_of(s.drop_last(), c)
    }
}

/// The last segment of a `/`-separated path.
pub open spec fn file_name_part(p: Seq<char>) -> Seq<char> {
    match last_index_of(p, '/') {
        Some(i) => p.subrange(i + 1, p.len() as int),
        None => p,
    }
}

/// The file list of a summary: the names of the first five files, with the
/// number of the others.
pub open spec fn files_text(paths: Seq<Seq<char>>) -> Seq<char> {
    let names = paths.take(if paths.len() > 5 { 5 } else { paths.len() as int }).map_values(
        |p: Seq<char>| file_name_part(p),
    );
    if paths.len() == 0 {
        "no files"@
    } else if paths.len() > 5 {
        join(names, ", "@) + ", ... +"@ + decimal((paths.len() - 5) as nat) + " more"@
    } else {
        join(names, ", "@)
    }
}

/// The summary line of a chunk.
pub open spec fn chunk_summary(c: ChunkOutline) -> Seq<char> {
    "Chunk "@ + decimal((c.index + 1) as nat) + "/"@ + decimal(c.total as nat) + ": "@ + c.focus@
        + " | Files: "@ + files_text(string_views(c.file_paths@)) + " | ~"@ + decimal(c.tokens as nat)
        + " tokens"@ + (if c.cross_references == 0 {
        Seq::empty()
    } else {
        " | Refs: "@ + decimal(c.cross_references as nat)
    }) + if c.has_overlap {
        " [has overlap from previous]"@
    } else {
        Seq::empty()
    }
}

fn file_name_chars(p: &String) -> (r: Vec<char>)
    ensures
        r@ == file_name_part(p@),
{
    let v = chars_of(p.as_str());
    let mut i: usize = v.len();
    assert(v@.subrange(0, v.len() as int) =~= v@);
    while i > 0
        invariant
            i <= v.len(),
            v@ == p@,
            last_index_of(v@, '/') == last_index_of(v@.subrange(0, i as int), '/'),
            forall|k: int| i <= k < v.len() ==> v@[k] != '/',
        decreases i,
    {
        proof {
            assert(v@.subrange(0, i as int).drop_last() =~= v@.subrange(0, i - 1));
        }
        if v[i - 1] == '/' {
            assert(v@.subrange(0, i as int).last() == '/');
            assert(last_index_of(v@, '/') == Some(i - 1));
            return subrange_chars(&v, i, v.len());
        }
        i = i - 1;
    }
    proof {
        assert(v@.subrange(0, 0) =~= Seq::<char>::empty());
    }
    v
}

fn push_names(out: &mut Vec<char>, paths: &Vec<String>, n: usize)
    requires
        n <= paths.len(),
    ensures
        final(out)@ == old(out)@ + join(
            string_views(paths@).take(n as int).map_values(|p: Seq<char>| file_name_part(p)),
            ", "@,
        ),
{
    let ghost start = out@;
    let ghost f = |p: Seq<char>| file_name_part(p);
    let ghost names = string_views(paths@).map_values(f);
    let mut i: usize = 0;
    while i < n
        invariant
            i <= n <= paths.len(),
            f == (|p: Seq<char>| file_name_part(p)),
            names == string_views(paths@).map_values(f),
            out@ == start + join(names.take(i as int), ", "@),
        decreases n - i,
    {
        let ghost prev = names.take(i as int);
        if i > 0 {
            push_str(out, ", ");
        }
        let nm = file_name_chars(&paths[i]);
        push_all(out, &nm);
        i = i + 1;
        proof {
            let cur = names.take(i as int);
            assert(cur.drop_last() =~= prev);
            assert(cur.last() == nm@);
            if i == 1 {
                assert(out@ =~= start + cur[0]);
            } else {
                assert(out@ =~= start + join(cur, ", "@));
            }
        }
    }
    assert(names.take(n as int) =~= string_views(paths@).take(n as int).map_values(f));
}

/// The summary line that heads a chunk; see `chunk_summary`.
pub fn generate_chunk_summary(chunk: &ChunkOutline) -> (r: String)
    requires
        chunk.index < usize::MAX,
    ensures
        r@ == chunk_summary(*chunk),
{
    let mut out: Vec<char> = Vec::new();
    push_str(&mut out, "Chunk ");
    let a = decimal_chars((chunk.index + 1) as u64);
    push_all(&mut out, &a);
    push_str(&mut out, "/");
    let b = decimal_chars(chunk.total as u64);
    push_all(&mut out, &b);
    push_str(&mut out, ": ");
    push_str(&mut out, chunk.focus.as_str());
    push_str(&mut out, " | Files: ");
    let ghost before_files = out@;
    let n = chunk.file_paths.len();
    if n == 0 {
        push_str(&mut out, "no files");
    } else if n > 5 {
        push_names(&mut out, &chunk.file_paths, 5);
        push_str(&mut out, ", ... +");
        let m = decimal_chars((n - 5) as u64);
        push_all(&mut out, &m);
        push_str(&mut out, " more");
    } else {
        push_names(&mut out, &chunk.file_paths, n);
        assert(string_views(chunk.file_paths@).take(n as int) =~= string_views(chunk.file_paths@));
    }
    assert(out@ =~= before_files + files_text(string_views(chunk.file_paths@)));
    push_str(&mut out, " | ~");
    let t = decimal_chars(chunk.tokens as u64);
    push_all(&mut out, &t);
    push_str(&mut out, " tokens");
    if chunk.cross_references != 0 {
        push_str(&mut out, " | Refs: ");
        let c = decimal_chars(chunk.cross_references as u64);
        push_all(&mut out, &c);
    }
    if chunk.has_overlap {
        push_str(&mut out, " [has overlap from previous]");
    }
    assert(out@ =~= chunk_summary(*chunk));
    string_from_chars(&out)
}

// ---------------------------------------------------------------------------
// Strategies and file names
// ---------------------------------------------------------------------------

/// How the repository is cut into chunks.
#[derive(Clone, Copy, Debug, PartialEq, Eq, Structural)]
pub enum ChunkStrategy {
    Fixed { size: u32 },
    File,
    Module,
    Symbol,
    Semantic,
    Dependency,
}

/// The default chunk size of the fixed strategy, in tokens.
pub const DEFAULT_FIXED_CHUNK_SIZE: u32 = 8000;

/// The name a strategy is reported under.
pub open spec fn strategy_name(s: ChunkStrategy) -> Seq<char> {
    match s {
        ChunkStrategy::Fixed { .. } => "fixed"@,
        ChunkStrategy::File => "file"@,
        ChunkStrategy::Module => "module"@,
        ChunkStrategy::Symbol => "symbol"@,
        ChunkStrategy::Semantic => "semantic"@,
        ChunkStrategy::Dependency => "dependency"@,
    }
}

/// The name a strategy is reported under; see `strategy_name`.
pub fn strategy_label(s: ChunkStrategy) -> (r: &'static str)
    ensures
        r@ == strategy_name(s),
{
    match s {
        ChunkStrategy::Fixed { .. } => "fixed",
        ChunkStrategy::File => "file",
        ChunkStrategy::Module => "module",
        ChunkStrategy::Symbol => "symbol",
        ChunkStrategy::Semantic => "semantic",
        ChunkStrategy::Dependency => "dependency",
    }
}

/// Whether the strategy needs the files' symbols (to follow imports or cut
/// at symbols).
pub fn needs_symbols(s: ChunkStrategy) -> (r: bool)
    ensures
        r == (s == ChunkStrategy::Dependency || s == ChunkStrategy::Symbol),
{
    match s {
        ChunkStrategy::Dependency | ChunkStrategy::Symbol => true,
        _ => false,
    }
}

/// The strategy used for a token limit: the fixed strategy cuts at the
/// limit; the others are used as they are.
pub fn effective_strategy(s: ChunkStrategy, max_tokens: u32) -> (r: ChunkStrategy)
    ensures
        r == (match s {
            ChunkStrategy::Fixed { .. } => ChunkStrategy::Fixed { size: max_tokens },
            other => other,
        }),
{
    match s {
        ChunkStrategy::Fixed { .. } => ChunkStrategy::Fixed { size: max_tokens },
        other => other,
    }
}

/// A number written with at least three digits, padded with zeros.
pub open spec fn padded3(n: nat) -> Seq<char> {
    let d = decimal(n);
    if d.len() >= 3 {
        d
    } else if d.len() == 2 {
        seq!['0'] + d
    } else {
        seq!['0', '0'] + d
    }
}

fn push_padded3(out: &mut Vec<char>, n: u64)
    ensures
        final(out)@ == old(out)@ + padded3(n as nat),
{
    let d = decimal_chars(n);
    if d.len() == 2 {
        out.push('0');
    } else if d.len() < 2 {
        out.push('0');
        out.push('0');
    }
    let ghost mid = out@;
    push_all(out, &d);
    proof {
        let o = old(out)@;
        if d@.len() >= 3 {
            assert(out@ =~= o + padded3(n as nat));
        } else if d@.len() == 2 {
            assert(out@ =~= o + padded3(n as nat));
        } else {
            assert(out@ =~= o + padded3(n as nat));
        }
    }
}

/// The file a chunk is written to: `chunk_NNN_of_MMM.ext`.
pub open spec fn chunk_file_name_text(index: nat, total: nat, ext: Seq<char>) -> Seq<char> {
    "chunk_"@ + padded3(index + 1) + "_of_"@ + padded3(total) + "."@ + ext
}

/// The file name of a chunk; see `chunk_file_name_text`.
pub fn chunk_file_name(chunk: &ChunkOutline, extension: &str) -> (r: String)
    requires
        chunk.index < u64::MAX,
    ensures
        r@ == chunk_file_name_text(chunk.index as nat, chunk.total as nat, extension@),
{
    let mut out: Vec<char> = Vec::new();
    push_str(&mut out, "chunk_");
    push_padded3(&mut out, chunk.index as u64 + 1);
    push_str(&mut out, "_of_");
    push_padded3(&mut out, chunk.total as u64);
    push_str(&mut out, ".");
    push_str(&mut out, extension);
    assert(out@ =~= chunk_file_name_text(chunk.index as nat, chunk.total as nat, extension@));
    string_from_chars(&out)
}

// ---------------------------------------------------------------------------
// Important chunks first
// ---------------------------------------------------------------------------

/// The sum of the priorities of some paths.
pub open spec fn priority_sum(paths: Seq<Seq<char>>) -> nat
    decreases paths.len(),
{
    if paths.len() == 0 {
        0
    } else {
        priority_sum(paths.drop_last()) + priority_of(lowercase(paths.last())) as nat
    }
}

/// A chunk's average file priority as a fraction (sum, count); a chunk
/// without files counts as 0.
pub open spec fn chunk_weight(c: ChunkOutline) -> (nat, nat) {
    let paths = string_views(c.file_paths@);
    (priority_sum(paths), if paths.len() == 0 {
        1
    } else {
        paths.len()
    })
}

/// Whether the average `a` is at least the average `b`.
pub open spec fn weighs_at_least(a: (nat, nat), b: (nat, nat)) -> bool {
    a.0 * b.1 >= b.0 * a.1
}

/// The number of leading chunks of `s` whose average is at least `w`.
pub open spec fn weight_insertion_point(s: Seq<ChunkOutline>, w: (nat, nat)) -> int
    decreases s.len(),
{
    if s.len() == 0 {
        0
    } else if weighs_at_least(chunk_weight(s[0]), w) {
        1 + weight_insertion_point(s.drop_first(), w)
    } else {
        0
    }
}

/// The chunks stably sorted by average file priority, highest first.
pub open spec fn by_priority(s: Seq<ChunkOutline>) -> Seq<ChunkOutline>
    decreases s.len(),
{
    if s.len() == 0 {
        Seq::empty()
    } else {
        let sorted = by_priority(s.drop_last());
        sorted.insert(weight_insertion_point(sorted, chunk_weight(s.last())), s.last())
    }
}

/// The chunks renumbered after reordering: each knows its new place and the
/// count.
pub open spec fn renumbered(s: Seq<ChunkOutline>) -> Seq<ChunkOutline> {
    Seq::new(
        s.len(),
        |i: int| ChunkOutline { index: i as usize, total: s.len() as usize, ..s[i] },
    )
}

/// Chunks ordered for `--priority-first`: more than one chunk is sorted by
/// average file priority (highest first, ties in their order) and
/// renumbered; a single chunk is left as it is.
pub open spec fn prioritized_chunks(s: Seq<ChunkOutline>) -> Seq<ChunkOutline> {
    if s.len() > 1 {
        renumbered(by_priority(s))
    } else {
        s
    }
}

/// Every chunk holds fewer than 2^32 files (so that averages compare
/// exactly in 128 bits).
pub open spec fn chunks_fit(s: Seq<ChunkOutline>) -> bool {
    forall|i: int| 0 <= i < s.len() ==> (#[trigger] s[i]).file_paths@.len() < 0x1_0000_0000
}

proof fn lemma_priority_sum_bound(paths: Seq<Seq<char>>)
    ensures
        priority_sum(paths) <= 100 * paths.len(),
    decreases paths.len(),
{
    if paths.len() > 0 {
        lemma_priority_sum_bound(paths.drop_last());
    }
}

fn weight_of(c: &ChunkOutline) -> (r: (u64, u64))
    requires
        c.file_paths@.len() < 0x1_0000_0000,
    ensures
        (r.0 as nat, r.1 as nat) == chunk_weight(*c),
        r.0 <= 100 * 0x1_0000_0000,
        1 <= r.1 < 0x1_0000_0000,
{
    let ghost paths = string_views(c.file_paths@);
    let mut sum: u64 = 0;
    let mut i: usize = 0;
    while i < c.file_paths.len()
        invariant
            i <= c.file_paths.len() < 0x1_0000_0000,
            paths == string_views(c.file_paths@),
            sum as nat == priority_sum(paths.take(i as int)),
            sum <= 100 * i,
        decreases c.file_paths.len() - i,
    {
        proof {
            assert(paths.take(i + 1).drop_last() =~= paths.take(i as int));
            assert(paths.take(i + 1).last() == c.file_paths@[i as int]@);
        }
        let p = file_priority_score(c.file_paths[i].as_str());
        proof {
            assert(p <= 100) by {
                assert(priority_of(lowercase(c.file_paths@[i as int]@)) <= 100);
            }
        }
        sum = sum + p as u64;
        i = i + 1;
    }
    assert(paths.take(c.file_paths.len() as int) =~= paths);
    let n = c.file_paths.len() as u64;
    (sum, if n == 0 {
        1
    } else {
        n
    })
}

spec fn weight_entry_ok(w: (u64, u64), c: ChunkOutline) -> bool {
    &&& (w.0 as nat, w.1 as nat) == chunk_weight(c)
    &&& w.0 <= 100 * 0x1_0000_0000
    &&& 1 <= w.1 < 0x1_0000_0000
}

spec fn weights_ok(ws: Seq<(u64, u64)>, cs: Seq<ChunkOutline>) -> bool {
    &&& ws.len() == cs.len()
    &&& forall|j: int| 0 <= j < ws.len() ==> #[trigger] weight_entry_ok(ws[j], cs[j])
}

fn at_least(a: (u64, u64), b: (u64, u64)) -> (r: bool)
    requires
        a.0 <= 100 * 0x1_0000_0000,
        b.0 <= 100 * 0x1_0000_0000,
        a.1 < 0x1_0000_0000,
        b.1 < 0x1_0000_0000,
    ensures
        r == weighs_at_least((a.0 as nat, a.1 as nat), (b.0 as nat, b.1 as nat)),
{
    assert(a.0 as u128 * b.1 as u128 <= 100 * 0x1_0000_0000 * 0x1_0000_0000) by (nonlinear_arith)
        requires
            a.0 <= 100 * 0x1_0000_0000,
            b.1 < 0x1_0000_0000,
    ;
    assert(b.0 as u128 * a.1 as u128 <= 100 * 0x1_0000_0000 * 0x1_0000_0000) by (nonlinear_arith)
        requires
            b.0 <= 100 * 0x1_0000_0000,
            a.1 < 0x1_0000_0000,
    ;
    let l = a.0 as u128 * b.1 as u128;
    let r = b.0 as u128 * a.1 as u128;
    l >= r
}

proof fn lemma_weight_insertion_point(s: Seq<ChunkOutline>, w: (nat, nat))
    ensures
        0 <= weight_insertion_point(s, w) <= s.len(),
        forall|i: int|
            0 <= i < weight_insertion_point(s, w) ==> weighs_at_least(chunk_weight(s[i]), w),
        weight_insertion_point(s, w) < s.len() ==> !weighs_at_least(
            chunk_weight(s[weight_insertion_point(s, w)]),
            w,
        ),
    decreases s.len(),
{
    if s.len() > 0 && weighs_at_least(chunk_weight(s[0]), w) {
        lemma_weight_insertion_point(s.drop_first(), w);
        assert forall|i: int|
            0 <= i < weight_insertion_point(s, w) implies weighs_at_least(chunk_weight(s[i]), w) by {
            if i > 0 {
                assert(s[i] == s.drop_first()[i - 1]);
            }
        }
    }
}

/// Reorders chunks for `--priority-first`; see `prioritized_chunks`.
pub fn prioritize_chunks(chunks: Vec<ChunkOutline>) -> (r: Vec<ChunkOutline>)
    requires
        chunks_fit(chunks@),
    ensures
        r@ == prioritized_chunks(chunks@),
{
    if chunks.len() <= 1 {
        return chunks;
    }
    let ghost orig = chunks@;
    let n = chunks.len();
    let mut rest = chunks;
    let mut sorted: Vec<ChunkOutline> = Vec::new();
    let mut weights: Vec<(u64, u64)> = Vec::new();
    let mut i: usize = 0;
    while rest.len() > 0
        invariant
            i + rest.len() == n,
            n == orig.len(),
            rest@ == orig.subrange(i as int, n as int),
            chunks_fit(orig),
            weights_ok(weights@, sorted@),
            sorted@ == by_priority(orig.take(i as int)),
        decreases rest.len(),
    {
        let c = rest.remove(0);
        assert(c == orig[i as int]);
        proof {
            assert(orig.take(i + 1).drop_last() =~= orig.take(i as int));
            assert(orig.take(i + 1).last() == orig[i as int]);
            assert(rest@ =~= orig.subrange(i + 1, n as int));
        }
        assert(c.file_paths@.len() < 0x1_0000_0000);
        let w = weight_of(&c);
        let ghost sv = sorted@;
        let ghost wv = (w.0 as nat, w.1 as nat);
        proof {
            lemma_weight_insertion_point(sv, wv);
        }
        let mut pos: usize = 0;
        while pos < sorted.len()
            invariant
                pos <= sorted.len(),
                sv == sorted@,
                wv == (w.0 as nat, w.1 as nat),
                w.0 <= 100 * 0x1_0000_0000,
                1 <= w.1 < 0x1_0000_0000,
                weights_ok(weights@, sorted@),
                forall|j: int| 0 <= j < pos ==> weighs_at_least(chunk_weight(sv[j]), wv),
            ensures
                pos <= sorted.len(),
                pos < sorted.len() ==> !weighs_at_least(chunk_weight(sv[pos as int]), wv),
                forall|j: int| 0 <= j < pos ==> weighs_at_least(chunk_weight(sv[j]), wv),
            decreases sorted.len() - pos,
        {
            assert(weight_entry_ok(weights@[pos as int], sorted@[pos as int]));
            if !at_least(weights[pos], w) {
                break;
            }
            pos = pos + 1;
        }
        proof {
            let ip = weight_insertion_point(sv, wv);
            if pos < sorted.len() {
                assert(!weighs_at_least(chunk_weight(sv[pos as int]), wv));
            }
            if ip < pos {
                assert(weighs_at_least(chunk_weight(sv[ip]), wv));
            }
            if pos < ip {
                assert(weighs_at_least(chunk_weight(sv[pos as int]), wv));
            }
            assert(pos == ip);
        }
        let ghost old_w = weights@;
        let ghost old_s = sorted@;
        sorted.insert(pos, c);
        weights.insert(pos, w);
        assert forall|j: int| 0 <= j < weights.len() implies weight_entry_ok(
            weights@[j],
            sorted@[j],
        ) by {
            if j < pos {
                assert(weights@[j] == old_w[j] && sorted@[j] == old_s[j]);
                assert(weight_entry_ok(old_w[j], old_s[j]));
            } else if j > pos {
                assert(weights@[j] == old_w[j - 1] && sorted@[j] == old_s[j - 1]);
                assert(weight_entry_ok(old_w[j - 1], old_s[j - 1]));
            }
        }
        assert(sorted@ =~= by_priority(orig.take(i + 1)));
        i = i + 1;
    }
    assert(orig.take(n as int) =~= orig);
    let ghost ordered = sorted@;
    let total = sorted.len();
    let mut out: Vec<ChunkOutline> = Vec::new();
    let mut k: usize = 0;
    while sorted.len() > 0
        invariant
            k + sorted.len() == total,
            total == ordered.len(),
            sorted@ == ordered.subrange(k as int, total as int),
            out@ == renumbered(ordered).take(k as int),
        decreases sorted.len(),
    {
        let mut c = sorted.remove(0);
        assert(c == ordered[k as int]);
        assert(sorted@ =~= ordered.subrange(k + 1, total as int));
        c.index = k;
        c.total = total;
        out.push(c);
        k = k + 1;
        assert(out@ =~= renumbered(ordered).take(k as int));
    }
    assert(renumbered(ordered).take(total as int) =~= renumbered(ordered));
    out
}


/// Whether each chunk weighs at least as much as every chunk after it.
pub open spec fn weight_ordered(s: Seq<ChunkOutline>) -> bool {
    forall|i: int, j: int|
        0 <= i < j < s.len() ==> weighs_at_least(chunk_weight(s[i]), chunk_weight(s[j]))
}

proof fn lemma_weighs_transitive(a: (nat, nat), b: (nat, nat), c: (nat, nat))
    requires
        b.1 > 0,
        weighs_at_least(a, b),
        weighs_at_least(b, c),
    ensures
        weighs_at_least(a, c),
{
    assert(a.0 * b.1 * c.1 >= b.0 * a.1 * c.1) by (nonlinear_arith)
        requires
            a.0 * b.1 >= b.0 * a.1,
    ;
    assert(b.0 * c.1 * a.1 >= c.0 * b.1 * a.1) by (nonlinear_arith)
        requires
            b.0 * c.1 >= c.0 * b.1,
    ;
    assert(a.0 * c.1 >= c.0 * a.1) by (nonlinear_arith)
        requires
            b.1 > 0,
            a.0 * b.1 * c.1 >= b.0 * a.1 * c.1,
            b.0 * c.1 * a.1 >= c.0 * b.1 * a.1,
    ;
}

/// Ordering chunks by priority sorts them by average file priority, highest
/// first, and keeps every chunk: the same chunks come out, each once.
pub proof fn law_priority_order_keeps_chunks(s: Seq<ChunkOutline>)
    ensures
        weight_ordered(by_priority(s)),
        by_priority(s).to_multiset() == s.to_multiset(),
    decreases s.len(),
{
    broadcast use vstd::seq_lib::to_multiset_insert, vstd::seq_lib::to_multiset_build;

    if s.len() == 0 {
        assert(by_priority(s) =~= s);
    } else {
        let prev = by_priority(s.drop_last());
        law_priority_order_keeps_chunks(s.drop_last());
        let x = s.last();
        let w = chunk_weight(x);
        let p = weight_insertion_point(prev, w);
        lemma_weight_insertion_point(prev, w);
        let t = prev.insert(p, x);
        assert forall|i: int, j: int| 0 <= i < j < t.len() implies weighs_at_least(
            chunk_weight(t[i]),
            chunk_weight(t[j]),
        ) by {
            if j < p {
                assert(t[i] == prev[i] && t[j] == prev[j]);
            } else if j == p {
                assert(t[i] == prev[i]);
            } else if i < p {
                assert(t[i] == prev[i] && t[j] == prev[j - 1]);
            } else if i == p {
                assert(t[j] == prev[j - 1]);
                let wp = chunk_weight(prev[p]);
                assert(!weighs_at_least(wp, w));
                assert(weighs_at_least(w, wp)) by (nonlinear_arith)
                    requires
                        !(wp.0 * w.1 >= w.0 * wp.1),
                ;
                if j - 1 > p {
                    assert(weighs_at_least(wp, chunk_weight(prev[j - 1])));
                    lemma_weighs_transitive(w, wp, chunk_weight(prev[j - 1]));
                }
            } else {
                assert(t[i] == prev[i - 1] && t[j] == prev[j - 1]);
            }
        }
        assert(s.drop_last().push(x) =~= s);
    }
}

/// After ordering by priority, more than one chunk comes out sorted by
/// average file priority, highest first, numbered from 0 in that order with
/// the count as total; the chunks are the ones given, renumbered.
pub proof fn law_prioritized_chunks(s: Seq<ChunkOutline>)
    requires
        s.len() <= usize::MAX,
    ensures
        prioritized_chunks(s).len() == s.len(),
        s.len() > 1 ==> weight_ordered(prioritized_chunks(s)),
        s.len() > 1 ==> forall|i: int|
            0 <= i < s.len() ==> (#[trigger] prioritized_chunks(s)[i]).index == i
                && prioritized_chunks(s)[i].total == s.len(),
        s.len() > 1 ==> by_priority(s).to_multiset() == s.to_multiset(),
{
    law_priority_order_keeps_chunks(s);
    if s.len() > 1 {
        let b = by_priority(s);
        assert(b.len() == s.len()) by {
            vstd::seq_lib::to_multiset_len(b);
            vstd::seq_lib::to_multiset_len(s);
        }
        let r = prioritized_chunks(s);
        assert forall|i: int, j: int| 0 <= i < j < r.len() implies weighs_at_least(
            chunk_weight(r[i]),
            chunk_weight(r[j]),
        ) by {
            assert(r[i].file_paths == b[i].file_paths);
            assert(r[j].file_paths == b[j].file_paths);
            assert(chunk_weight(r[i]) == chunk_weight(b[i]));
            assert(chunk_weight(r[j]) == chunk_weight(b[j]));
            assert(weighs_at_least(chunk_weight(b[i]), chunk_weight(b[j])));
        }
        assert forall|i: int| 0 <= i < s.len() implies (#[trigger] r[i]).index == i && r[i].total
            == s.len() by {
            assert(r[i].index == i as usize);
        }
    }
}

} // verus!
