//! Reading what git prints: base references of ranges, `--name-status`
//! listings, untracked files from `status --porcelain`, and the changed
//! line ranges of `diff --unified=0` hunk headers.

use vstd::prelude::*;
use crate::text::{
    chars_of, decimal, decimal_chars, find, find_chars, index_of, join, lemma_index_of, lines,
    parse_unsigned, parse_unsigned_chars, push_all, push_str, split_lines, starts_with,
    starts_with_str, string_from_chars, string_views, subrange_chars, views,
};

verus! {

// ---------------------------------------------------------------------------
// Splitting on a character
// ---------------------------------------------------------------------------

/// The pieces of `s` between the occurrences of `c` (`str::split` with a
/// character): one more piece than there are separators.
pub open spec fn split_on(s: Seq<char>, c: char) -> Seq<Seq<char>>
    decreases s.len(),
{
    match index_of(s, c) {
        Some(i) => if 0 <= i < s.len() {
            seq![s.subrange(0, i)] + split_on(s.subrange(i + 1, s.len() as int), c)
        } else {
            seq![s]
        },
        None => seq![s],
    }
}

/// Splits `s` at every `c`.
pub fn split_char(s: &Vec<char>, c: char) -> (r: Vec<Vec<char>>)
    ensures
        views(r@) == split_on(s@, c),
        r@.len() >= 1,
{
    let mut r: Vec<Vec<char>> = Vec::new();
    let mut pos: usize = 0;
    assert(s@.subrange(0, s.len() as int) =~= s@);
    assert(views(r@) + split_on(s@, c) =~= split_on(s@, c));
    loop
        invariant
            pos <= s.len(),
            views(r@) + split_on(s@.subrange(pos as int, s.len() as int), c) == split_on(s@, c),
        decreases s.len() - pos,
    {
        let rest = subrange_chars(s, pos, s.len());
        proof {
            lemma_index_of(rest@, c);
        }
        match crate::text::index_of_char(&rest, c) {
            Some(k) => {
                let piece = subrange_chars(&rest, 0, k);
                let ghost before = views(r@);
                r.push(piece);
                proof {
                    assert(views(r@) == before.push(rest@.subrange(0, k as int)));
                    assert(rest@.subrange(k + 1, rest@.len() as int) =~= s@.subrange(
                        pos + k + 1,
                        s.len() as int,
                    ));
                    assert(split_on(rest@, c) == seq![rest@.subrange(0, k as int)] + split_on(
                        rest@.subrange(k + 1, rest@.len() as int),
                        c,
                    ));
                    assert(views(r@) + split_on(s@.subrange(pos + k + 1, s.len() as int), c)
                        =~= before + split_on(rest@, c));
                }
                pos = pos + k + 1;
            },
            None => {
                let ghost before = views(r@);
                r.push(rest);
                proof {
                    assert(split_on(rest@, c) == seq![rest@]);
                    assert(views(r@) =~= before + split_on(rest@, c));
                }
                return r;
            },
        }
    }
}

// ---------------------------------------------------------------------------
// Base references
// ---------------------------------------------------------------------------

/// What a reference names as the base of a diff.
pub enum BaseRef {
    /// The left side of a `base..head` or `base...head` range.
    Range(String),
    /// A single reference, to be checked with `git rev-parse --verify`.
    Single(String),
}

/// The reference text used: the given one or `HEAD`.
pub open spec fn reference_text(reference: Option<Seq<char>>) -> Seq<char> {
    match reference {
        Some(r) => r,
        None => "HEAD"@,
    }
}

/// The base named by a reference: the part before the first `..` when
/// there is one and it is not empty; otherwise the reference itself.
pub open spec fn base_ref_of(reference: Option<Seq<char>>) -> (bool, Seq<char>) {
    let r = reference_text(reference);
    match find(r, ".."@) {
        Some(i) => if i > 0 {
            (true, r.subrange(0, i))
        } else {
            (false, r)
        },
        None => (false, r),
    }
}

/// Splits off the base of a range reference; a single reference is handed
/// back for checking. See `base_ref_of`.
pub fn split_base_ref(reference: Option<&str>) -> (r: BaseRef)
    ensures
        (match r {
            BaseRef::Range(b) => base_ref_of(
                match reference {
                    Some(x) => Some(x@),
                    None => None,
                },
            ) == (true, b@),
            BaseRef::Single(b) => base_ref_of(
                match reference {
                    Some(x) => Some(x@),
                    None => None,
                },
            ) == (false, b@),
        }),
{
    let text = match reference {
        Some(x) => chars_of(x),
        None => chars_of("HEAD"),
    };
    let sep = chars_of("..");
    match find_chars(&text, &sep) {
        Some(i) => {
            if i > 0 {
                let b = subrange_chars(&text, 0, i);
                BaseRef::Range(string_from_chars(&b))
            } else {
                BaseRef::Single(string_from_chars(&text))
            }
        },
        None => BaseRef::Single(string_from_chars(&text)),
    }
}

// ---------------------------------------------------------------------------
// `git diff --name-status`
// ---------------------------------------------------------------------------

/// How a file changed.
#[derive(Clone, Copy, Debug, PartialEq, Eq, Structural)]
pub enum ChangeType {
    Added,
    Modified,
    Deleted,
    Renamed,
}

/// The change a status letter names; unknown letters count as modified.
pub open spec fn change_type_of(status: Seq<char>) -> ChangeType {
    if status.len() == 0 {
        ChangeType::Modified
    } else if status[0] == 'A' {
        ChangeType::Added
    } else if status[0] == 'M' {
        ChangeType::Modified
    } else if status[0] == 'D' {
        ChangeType::Deleted
    } else if status[0] == 'R' {
        ChangeType::Renamed
    } else {
        ChangeType::Modified
    }
}

/// One line of a `--name-status` listing.
pub struct NameStatus {
    pub file_path: String,
    pub old_path: Option<String>,
    pub change_type: ChangeType,
}

pub struct NameStatusView {
    pub file_path: Seq<char>,
    pub old_path: Option<Seq<char>>,
    pub change_type: ChangeType,
}

pub open spec fn name_status_view(n: NameStatus) -> NameStatusView {
    NameStatusView {
        file_path: n.file_path@,
        old_path: match n.old_path {
            Some(p) => Some(p@),
            None => None,
        },
        change_type: n.change_type,
    }
}

/// What a listing line says, when it has a status and a path (tab
/// separated); a rename (`R…`) with two paths names the old path first.
pub open spec fn name_status_entry(line: Seq<char>) -> Option<NameStatusView> {
    let parts = split_on(line, '\t');
    if parts.len() >= 2 {
        let status = parts[0];
        let renamed = status.len() > 0 && status[0] == 'R' && parts.len() >= 3;
        Some(
            NameStatusView {
                file_path: if renamed {
                    parts[2]
                } else {
                    parts[1]
                },
                old_path: if renamed {
                    Some(parts[1])
                } else {
                    None
                },
                change_type: change_type_of(status),
            },
        )
    } else {
        None
    }
}

/// The entries of a listing, line by line.
pub open spec fn name_status_entries(ls: Seq<Seq<char>>) -> Seq<NameStatusView>
    decreases ls.len(),
{
    if ls.len() == 0 {
        Seq::empty()
    } else {
        name_status_entries(ls.drop_last()) + match name_status_entry(ls.last()) {
            Some(e) => seq![e],
            None => Seq::empty(),
        }
    }
}

pub open spec fn name_status_views(v: Seq<NameStatus>) -> Seq<NameStatusView> {
    v.map_values(|n: NameStatus| name_status_view(n))
}

fn change_type_exec(status: &Vec<char>) -> (r: ChangeType)
    ensures
        r == change_type_of(status@),
{
    if status.len() == 0 {
        ChangeType::Modified
    } else if status[0] == 'A' {
        ChangeType::Added
    } else if status[0] == 'M' {
        ChangeType::Modified
    } else if status[0] == 'D' {
        ChangeType::Deleted
    } else if status[0] == 'R' {
        ChangeType::Renamed
    } else {
        ChangeType::Modified
    }
}

/// Reads the output of `git diff --name-status`; see `name_status_entries`.
pub fn parse_name_status(stdout: &str) -> (r: Vec<NameStatus>)
    ensures
        name_status_views(r@) == name_status_entries(lines(stdout@)),
{
    let sv = chars_of(stdout);
    let ls = split_lines(&sv);
    let ghost lv = views(ls@);
    let mut r: Vec<NameStatus> = Vec::new();
    let mut i: usize = 0;
    while i < ls.len()
        invariant
            i <= ls.len(),
            lv == views(ls@),
            lv == lines(stdout@),
            name_status_views(r@) == name_status_entries(lv.take(i as int)),
        decreases ls.len() - i,
    {
        let ghost before = name_status_views(r@);
        proof {
            assert(lv.take(i + 1).drop_last() =~= lv.take(i as int));
            assert(lv.take(i + 1).last() == ls@[i as int]@);
        }
        let parts = split_char(&ls[i], '\t');
        if parts.len() >= 2 {
            let renamed = parts[0].len() > 0 && parts[0][0] == 'R' && parts.len() >= 3;
            let change_type = change_type_exec(&parts[0]);
            let entry = if renamed {
                NameStatus {
                    file_path: string_from_chars(&parts[2]),
                    old_path: Some(string_from_chars(&parts[1])),
                    change_type,
                }
            } else {
                NameStatus { file_path: string_from_chars(&parts[1]), old_path: None, change_type }
            };
            proof {
                assert(views(parts@)[0] == parts@[0]@);
                assert(views(parts@)[1] == parts@[1]@);
                if parts.len() >= 3 {
                    assert(views(parts@)[2] == parts@[2]@);
                }
            }
            r.push(entry);
            assert(name_status_views(r@) =~= before.push(name_status_entry(ls@[i as int]@)->0));
        }
        i = i + 1;
        assert(name_status_views(r@) =~= name_status_entries(lv.take(i as int)));
    }
    assert(lv.take(ls.len() as int) =~= lv);
    r
}

// ---------------------------------------------------------------------------
// `git status --porcelain`
// ---------------------------------------------------------------------------

/// The untracked paths of a porcelain status: the lines that start with
/// `"?? "`, without that prefix.
pub open spec fn untracked_paths(ls: Seq<Seq<char>>) -> Seq<Seq<char>>
    decreases ls.len(),
{
    if ls.len() == 0 {
        Seq::empty()
    } else {
        untracked_paths(ls.drop_last()) + if starts_with(ls.last(), "?? "@) {
            seq![ls.last().subrange(3, ls.last().len() as int)]
        } else {
            Seq::empty()
        }
    }
}

/// Reads the untracked files from `git status --porcelain`; see
/// `untracked_paths`.
pub fn parse_untracked(stdout: &str) -> (r: Vec<String>)
    ensures
        string_views(r@) == untracked_paths(lines(stdout@)),
{
    let sv = chars_of(stdout);
    let ls = split_lines(&sv);
    let ghost lv = views(ls@);
    let mut r: Vec<String> = Vec::new();
    let mut i: usize = 0;
    while i < ls.len()
        invariant
            i <= ls.len(),
            lv == views(ls@),
            lv == lines(stdout@),
            string_views(r@) == untracked_paths(lv.take(i as int)),
        decreases ls.len() - i,
    {
        let ghost before = string_views(r@);
        proof {
            assert(lv.take(i + 1).drop_last() =~= lv.take(i as int));
            assert(lv.take(i + 1).last() == ls@[i as int]@);
        }
        if starts_with_str(&ls[i], "?? ") {
            proof {
                reveal_strlit("?? ");
            }
            let rest = subrange_chars(&ls[i], 3, ls[i].len());
            r.push(string_from_chars(&rest));
            assert(string_views(r@) =~= before.push(rest@));
        }
        i = i + 1;
        assert(string_views(r@) =~= untracked_paths(lv.take(i as int)));
    }
    assert(lv.take(ls.len() as int) =~= lv);
    r
}

// ---------------------------------------------------------------------------
// Hunk headers of `git diff --unified=0`
// ---------------------------------------------------------------------------

/// The start and count of the new-file side of a hunk header
/// (`@@ -a,b +c,d @@`): the text after the first `+` up to the next space,
/// split at `,`; a start that does not parse counts as 1, and so does a
/// missing or unparsable count. Lines that are no hunk header give none.
pub open spec fn hunk_header(line: Seq<char>) -> Option<(nat, nat)> {
    if !starts_with(line, "@@"@) {
        None
    } else {
        match index_of(line, '+') {
            None => None,
            Some(p) => {
                let rest = line.subrange(p + 1, line.len() as int);
                match index_of(rest, ' ') {
                    None => None,
                    Some(q) => {
                        let parts = split_on(rest.subrange(0, q), ',');
                        let start = match parse_unsigned(parts[0], u32::MAX as nat) {
                            Some(v) => v,
                            None => 1,
                        };
                        let count = if parts.len() >= 2 {
                            match parse_unsigned(parts[1], u32::MAX as nat) {
                                Some(v) => v,
                                None => 1,
                            }
                        } else {
                            1
                        };
                        Some((start, count))
                    },
                }
            },
        }
    }
}

/// The lines a hunk covers: from its start, `count - 1` more (none for an
/// empty hunk).
pub open spec fn hunk_span(h: (nat, nat)) -> (nat, nat) {
    (h.0, h.0 + if h.1 > 0 {
        (h.1 - 1) as nat
    } else {
        0
    })
}

/// The spans of the hunk headers among `ls`, in order.
pub open spec fn hunk_spans(ls: Seq<Seq<char>>) -> Seq<(nat, nat)>
    decreases ls.len(),
{
    if ls.len() == 0 {
        Seq::empty()
    } else {
        hunk_spans(ls.drop_last()) + match hunk_header(ls.last()) {
            Some(h) => seq![hunk_span(h)],
            None => Seq::empty(),
        }
    }
}

proof fn lemma_spans_ordered(ls: Seq<Seq<char>>)
    ensures
        forall|k: int| 0 <= k < hunk_spans(ls).len() ==> (#[trigger] hunk_spans(ls)[k]).0 <= hunk_spans(ls)[k].1,
    decreases ls.len(),
{
    if ls.len() > 0 {
        let prev = hunk_spans(ls.drop_last());
        lemma_spans_ordered(ls.drop_last());
        let all = hunk_spans(ls);
        assert forall|k: int| 0 <= k < all.len() implies (#[trigger] all[k]).0 <= all[k].1 by {
            if k < prev.len() {
                assert(all[k] == prev[k]);
            }
        }
    }
}

/// Whether every span ends within `u32` (the range type of line numbers).
pub open spec fn spans_fit(spans: Seq<(nat, nat)>) -> bool {
    forall|i: int| 0 <= i < spans.len() ==> (#[trigger] spans[i]).1 <= u32::MAX
}

/// The number of lines of a file, as a `u32` (truncated, like `as u32`),
/// at least 1; 1 when the file could not be read.
pub open spec fn line_count_at_least_one(content: Option<Seq<char>>) -> nat {
    let n = match content {
        Some(c) => (lines(c).len() as u32) as nat,
        None => 1,
    };
    if n >= 1 {
        n
    } else {
        1
    }
}

/// The changed line ranges of a file: the spans of the hunk headers, or,
/// when there are none, the whole file.
pub open spec fn changed_ranges(diff: Seq<char>, content: Option<Seq<char>>) -> Seq<(nat, nat)> {
    let spans = hunk_spans(lines(diff));
    if spans.len() == 0 {
        seq![(1, line_count_at_least_one(content))]
    } else {
        spans
    }
}

pub open spec fn pair_views(v: Seq<(u32, u32)>) -> Seq<(nat, nat)> {
    v.map_values(|p: (u32, u32)| (p.0 as nat, p.1 as nat))
}

fn parse_hunk_header(line: &Vec<char>) -> (r: Option<(u32, u32)>)
    ensures
        (match r {
            Some((s, c)) => hunk_header(line@) == Some((s as nat, c as nat)),
            None => hunk_header(line@) is None,
        }),
{
    if !starts_with_str(line, "@@") {
        return None;
    }
    proof {
        lemma_index_of(line@, '+');
    }
    let p = match crate::text::index_of_char(line, '+') {
        Some(p) => p,
        None => {
            return None;
        },
    };
    let rest = subrange_chars(line, p + 1, line.len());
    proof {
        lemma_index_of(rest@, ' ');
    }
    let q = match crate::text::index_of_char(&rest, ' ') {
        Some(q) => q,
        None => {
            return None;
        },
    };
    let range = subrange_chars(&rest, 0, q);
    let parts = split_char(&range, ',');
    proof {
        assert(views(parts@)[0] == parts@[0]@);
    }
    let start: u32 = match parse_unsigned_chars(&parts[0], 0xffff_ffff) {
        Some(v) => v as u32,
        None => 1,
    };
    let count: u32 = if parts.len() >= 2 {
        proof {
            assert(views(parts@)[1] == parts@[1]@);
        }
        match parse_unsigned_chars(&parts[1], 0xffff_ffff) {
            Some(v) => v as u32,
            None => 1,
        }
    } else {
        1
    };
    Some((start, count))
}

fn hunk_spans_exec(ls: &Vec<Vec<char>>) -> (r: Vec<(u64, u64)>)
    ensures
        r@.map_values(|p: (u64, u64)| (p.0 as nat, p.1 as nat)) == hunk_spans(views(ls@)),
{
    let ghost lv = views(ls@);
    let ghost f = |p: (u64, u64)| (p.0 as nat, p.1 as nat);
    let mut r: Vec<(u64, u64)> = Vec::new();
    let mut i: usize = 0;
    while i < ls.len()
        invariant
            i <= ls.len(),
            lv == views(ls@),
            f == (|p: (u64, u64)| (p.0 as nat, p.1 as nat)),
            r@.map_values(f) == hunk_spans(lv.take(i as int)),
        decreases ls.len() - i,
    {
        let ghost before = r@.map_values(f);
        proof {
            assert(lv.take(i + 1).drop_last() =~= lv.take(i as int));
            assert(lv.take(i + 1).last() == ls@[i as int]@);
        }
        match parse_hunk_header(&ls[i]) {
            Some((s, c)) => {
                let end: u64 = s as u64 + if c > 0 {
                    (c - 1) as u64
                } else {
                    0
                };
                r.push((s as u64, end));
                assert(r@.map_values(f) =~= before.push(hunk_span((s as nat, c as nat))));
            },
            None => {},
        }
        i = i + 1;
        assert(r@.map_values(f) =~= hunk_spans(lv.take(i as int)));
    }
    assert(lv.take(ls.len() as int) =~= lv);
    r
}

/// Whether all hunk spans of a diff end within `u32`; see `spans_fit`.
pub fn hunk_spans_fit(diff_output: &str) -> (r: bool)
    ensures
        r == spans_fit(hunk_spans(lines(diff_output@))),
{
    let dv = chars_of(diff_output);
    let ls = split_lines(&dv);
    let spans = hunk_spans_exec(&ls);
    let ghost sv = spans@.map_values(|p: (u64, u64)| (p.0 as nat, p.1 as nat));
    assert(sv == hunk_spans(lines(diff_output@)));
    let mut i: usize = 0;
    while i < spans.len()
        invariant
            i <= spans.len(),
            sv == spans@.map_values(|p: (u64, u64)| (p.0 as nat, p.1 as nat)),
            sv == hunk_spans(lines(diff_output@)),
            forall|k: int| 0 <= k < i ==> (#[trigger] sv[k]).1 <= u32::MAX,
        decreases spans.len() - i,
    {
        if spans[i].1 > 0xffff_ffff {
            assert(sv[i as int].1 > u32::MAX);
            return false;
        }
        i = i + 1;
    }
    true
}

fn line_count_exec(content: Option<&str>) -> (r: u32)
    ensures
        r as nat == line_count_at_least_one(
            match content {
                Some(c) => Some(c@),
                None => None,
            },
        ),
{
    let n: u32 = match content {
        Some(c) => {
            let cv = chars_of(c);
            let ls = split_lines(&cv);
            #[verifier::truncate]
            (ls.len() as u32)
        },
        None => 1,
    };
    if n >= 1 {
        n
    } else {
        1
    }
}

/// The changed line ranges of a file from `git diff --unified=0` output and
/// the file's text (`None` when it could not be read); see
/// `changed_ranges`. A hunk whose end does not fit in `u32` overflows the
/// addition, so such output is left out (see `hunk_spans_fit`).
pub fn changed_line_ranges(diff_output: &str, file_content: Option<&str>) -> (r: Vec<(u32, u32)>)
    requires
        spans_fit(hunk_spans(lines(diff_output@))),
    ensures
        pair_views(r@) == changed_ranges(
            diff_output@,
            match file_content {
                Some(c) => Some(c@),
                None => None,
            },
        ),
{
    let dv = chars_of(diff_output);
    let ls = split_lines(&dv);
    let spans = hunk_spans_exec(&ls);
    let ghost sv = spans@.map_values(|p: (u64, u64)| (p.0 as nat, p.1 as nat));
    proof {
        lemma_spans_ordered(views(ls@));
    }
    if spans.len() == 0 {
        let n = line_count_exec(file_content);
        let mut r: Vec<(u32, u32)> = Vec::new();
        r.push((1, n));
        assert(pair_views(r@) =~= seq![(1nat, n as nat)]);
        return r;
    }
    let mut r: Vec<(u32, u32)> = Vec::new();
    let mut i: usize = 0;
    while i < spans.len()
        invariant
            i <= spans.len(),
            sv == spans@.map_values(|p: (u64, u64)| (p.0 as nat, p.1 as nat)),
            spans_fit(sv),
            forall|k: int| 0 <= k < sv.len() ==> (#[trigger] sv[k]).0 <= sv[k].1,
            pair_views(r@) == sv.take(i as int),
        decreases spans.len() - i,
    {
        let ghost before = pair_views(r@);
        let (a, b) = spans[i];
        assert(sv[i as int] == (a as nat, b as nat));
        assert(sv[i as int].1 <= u32::MAX);
        assert(sv[i as int].0 <= sv[i as int].1);
        r.push((a as u32, b as u32));
        assert(pair_views(r@) =~= before.push(sv[i as int]));
        i = i + 1;
        assert(pair_views(r@) =~= sv.take(i as int));
    }
    assert(sv.take(spans.len() as int) =~= sv);
    r
}

/// The range of a whole added file: from line 1 to its last line (at least
/// line 1).
pub fn whole_file_range(file_content: Option<&str>) -> (r: (u32, u32))
    ensures
        r.0 == 1,
        r.1 as nat == line_count_at_least_one(
            match file_content {
                Some(c) => Some(c@),
                None => None,
            },
        ),
{
    (1, line_count_exec(file_content))
}

/// The diff an untracked file stands for: one hunk adding all its lines.
pub open spec fn untracked_diff(content: Seq<char>) -> Seq<char> {
    "@@ -0,0 +1,"@ + decimal(line_count_at_least_one(Some(content))) + " @@\n"@ + join(
        lines(content).map_values(|l: Seq<char>| seq!['+'] + l),
        "\n"@,
    )
}

/// Writes the diff of an untracked file from its text; see `untracked_diff`.
pub fn untracked_file_diff(content: &str) -> (r: String)
    ensures
        r@ == untracked_diff(content@),
{
    let n = line_count_exec(Some(content));
    let cv = chars_of(content);
    let ls = split_lines(&cv);
    let ghost lv = views(ls@);
    let mut added: Vec<Vec<char>> = Vec::new();
    let mut i: usize = 0;
    while i < ls.len()
        invariant
            i <= ls.len(),
            lv == views(ls@),
            views(added@) == lv.take(i as int).map_values(|l: Seq<char>| seq!['+'] + l),
        decreases ls.len() - i,
    {
        let ghost before = views(added@);
        let mut l: Vec<char> = Vec::new();
        l.push('+');
        push_all(&mut l, &ls[i]);
        assert(l@ =~= seq!['+'] + lv[i as int]);
        added.push(l);
        assert(views(added@) =~= before.push(seq!['+'] + lv[i as int]));
        i = i + 1;
        assert(views(added@) =~= lv.take(i as int).map_values(|l: Seq<char>| seq!['+'] + l));
    }
    assert(lv.take(ls.len() as int) =~= lv);
    let body = crate::snippet_selection::join_chars(&added, "\n");
    let mut out: Vec<char> = Vec::new();
    push_str(&mut out, "@@ -0,0 +1,");
    let d = decimal_chars(n as u64);
    push_all(&mut out, &d);
    push_str(&mut out, " @@\n");
    push_all(&mut out, &body);
    assert(out@ =~= untracked_diff(content@));
    string_from_chars(&out)
}

} // verus!
