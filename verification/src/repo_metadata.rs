//! Repository totals recomputed after the file list changed: files, lines,
//! tokens, languages and the directory listing.
use vstd::prelude::*;

use crate::snippet_selection::join_chars;
use crate::text::{chars_of, chars_eq, join, lines, split_lines, string_from_chars, views};

verus! {

/// Token counts of a text under each tokenizer family.
#[derive(Clone, Copy, Debug, PartialEq, Eq, Structural)]
pub struct TokenCounts {
    pub o200k: u32,
    pub cl100k: u32,
    pub claude: u32,
    pub gemini: u32,
    pub llama: u32,
    pub mistral: u32,
    pub deepseek: u32,
    pub qwen: u32,
    pub cohere: u32,
    pub grok: u32,
}

/// A scanned file as the totals see it.
pub struct ScannedFile {
    pub relative_path: String,
    pub language: Option<String>,
    pub content: Option<String>,
    pub size_bytes: u64,
    pub token_count: TokenCounts,
}

/// How many files of a language there are and how many lines they hold.
pub struct LanguageCount {
    pub language: String,
    pub files: u32,
    pub lines: u64,
}

/// The recomputed totals of a repository.
pub struct RepoMetadata {
    pub total_files: u32,
    pub total_lines: u64,
    pub total_tokens: TokenCounts,
    pub languages: Vec<LanguageCount>,
    pub directory_structure: Option<String>,
}

// ---------------------------------------------------------------------------
// Lines and tokens
// ---------------------------------------------------------------------------

/// A file's lines: those of its content when it was read, else an estimate
/// of one line per 40 bytes.
pub open spec fn file_lines(f: ScannedFile) -> nat {
    match f.content {
        Some(c) => lines(c@).len(),
        None => (f.size_bytes / 40) as nat,
    }
}

/// The lines of all files.
pub open spec fn lines_total(fs: Seq<ScannedFile>) -> nat
    decreases fs.len(),
{
    if fs.len() == 0 {
        0
    } else {
        lines_total(fs.drop_last()) + file_lines(fs.last())
    }
}

/// The count of tokenizer family `k` (in the order of the fields).
pub open spec fn count_of(t: TokenCounts, k: int) -> u32 {
    if k == 0 {
        t.o200k
    } else if k == 1 {
        t.cl100k
    } else if k == 2 {
        t.claude
    } else if k == 3 {
        t.gemini
    } else if k == 4 {
        t.llama
    } else if k == 5 {
        t.mistral
    } else if k == 6 {
        t.deepseek
    } else if k == 7 {
        t.qwen
    } else if k == 8 {
        t.cohere
    } else {
        t.grok
    }
}

/// The tokens of family `k` over all files.
pub open spec fn token_total(fs: Seq<ScannedFile>, k: int) -> nat
    decreases fs.len(),
{
    if fs.len() == 0 {
        0
    } else {
        token_total(fs.drop_last(), k) + count_of(fs.last().token_count, k) as nat
    }
}

/// Whether every family's total fits in 32 bits.
pub open spec fn tokens_fit(fs: Seq<ScannedFile>) -> bool {
    forall|k: int| 0 <= k < 10 ==> #[trigger] token_total(fs, k) <= u32::MAX
}

proof fn lemma_token_total_prefix(fs: Seq<ScannedFile>, i: int, k: int)
    requires
        0 <= i <= fs.len(),
    ensures
        token_total(fs.take(i), k) <= token_total(fs, k),
    decreases fs.len() - i,
{
    if i < fs.len() {
        assert(fs.take(i + 1).drop_last() =~= fs.take(i));
        lemma_token_total_prefix(fs, i + 1, k);
    } else {
        assert(fs.take(i) =~= fs);
    }
}

proof fn lemma_lines_total_prefix(fs: Seq<ScannedFile>, i: int)
    requires
        0 <= i <= fs.len(),
    ensures
        lines_total(fs.take(i)) <= lines_total(fs),
    decreases fs.len() - i,
{
    if i < fs.len() {
        assert(fs.take(i + 1).drop_last() =~= fs.take(i));
        lemma_lines_total_prefix(fs, i + 1);
    } else {
        assert(fs.take(i) =~= fs);
    }
}

fn count_lines(f: &ScannedFile) -> (r: u64)
    ensures
        r == file_lines(*f),
{
    match &f.content {
        Some(c) => {
            let v = chars_of(c.as_str());
            let ls = split_lines(&v);
            assert(views(ls@).len() == ls@.len());
            ls.len() as u64
        },
        None => f.size_bytes / 40,
    }
}

fn add_counts(a: TokenCounts, b: TokenCounts) -> (r: TokenCounts)
    requires
        forall|k: int| 0 <= k < 10 ==> count_of(a, k) + count_of(b, k) <= u32::MAX,
    ensures
        forall|k: int| 0 <= k < 10 ==> count_of(r, k) == count_of(a, k) + count_of(b, k),
{
    assert(count_of(a, 0) + count_of(b, 0) <= u32::MAX);
    assert(count_of(a, 1) + count_of(b, 1) <= u32::MAX);
    assert(count_of(a, 2) + count_of(b, 2) <= u32::MAX);
    assert(count_of(a, 3) + count_of(b, 3) <= u32::MAX);
    assert(count_of(a, 4) + count_of(b, 4) <= u32::MAX);
    assert(count_of(a, 5) + count_of(b, 5) <= u32::MAX);
    assert(count_of(a, 6) + count_of(b, 6) <= u32::MAX);
    assert(count_of(a, 7) + count_of(b, 7) <= u32::MAX);
    assert(count_of(a, 8) + count_of(b, 8) <= u32::MAX);
    assert(count_of(a, 9) + count_of(b, 9) <= u32::MAX);
    TokenCounts {
        o200k: a.o200k + b.o200k,
        cl100k: a.cl100k + b.cl100k,
        claude: a.claude + b.claude,
        gemini: a.gemini + b.gemini,
        llama: a.llama + b.llama,
        mistral: a.mistral + b.mistral,
        deepseek: a.deepseek + b.deepseek,
        qwen: a.qwen + b.qwen,
        cohere: a.cohere + b.cohere,
        grok: a.grok + b.grok,
    }
}

fn totals(files: &Vec<ScannedFile>) -> (r: (u64, TokenCounts))
    requires
        lines_total(files@) <= u64::MAX,
        tokens_fit(files@),
    ensures
        r.0 == lines_total(files@),
        forall|k: int| 0 <= k < 10 ==> count_of(r.1, k) == token_total(files@, k),
{
    let mut total_lines: u64 = 0;
    let mut tokens = TokenCounts {
        o200k: 0,
        cl100k: 0,
        claude: 0,
        gemini: 0,
        llama: 0,
        mistral: 0,
        deepseek: 0,
        qwen: 0,
        cohere: 0,
        grok: 0,
    };
    let mut i: usize = 0;
    while i < files.len()
        invariant
            i <= files.len(),
            lines_total(files@) <= u64::MAX,
            tokens_fit(files@),
            total_lines == lines_total(files@.take(i as int)),
            forall|k: int| 0 <= k < 10 ==> count_of(tokens, k) == token_total(files@.take(i as int), k),
        decreases files.len() - i,
    {
        proof {
            assert(files@.take(i + 1).drop_last() =~= files@.take(i as int));
            lemma_lines_total_prefix(files@, i + 1);
            assert forall|k: int| 0 <= k < 10 implies count_of(tokens, k) + count_of(
                files@[i as int].token_count,
                k,
            ) <= u32::MAX by {
                lemma_token_total_prefix(files@, i + 1, k);
                assert(token_total(files@, k) <= u32::MAX);
            }
        }
        let n = count_lines(&files[i]);
        total_lines = total_lines + n;
        tokens = add_counts(tokens, files[i].token_count);
        i = i + 1;
    }
    assert(files@.take(files.len() as int) =~= files@);
    (total_lines, tokens)
}

// ---------------------------------------------------------------------------
// Languages
// ---------------------------------------------------------------------------

/// A language's name, files and lines.
pub open spec fn count_view(c: LanguageCount) -> (Seq<char>, nat, nat) {
    (c.language@, c.files as nat, c.lines as nat)
}

pub open spec fn count_views(v: Seq<LanguageCount>) -> Seq<(Seq<char>, nat, nat)> {
    v.map_values(|c: LanguageCount| count_view(c))
}

/// The position of language `l` among the counts.
pub open spec fn language_slot(s: Seq<(Seq<char>, nat, nat)>, l: Seq<char>) -> Option<int>
    decreases s.len(),
{
    if s.len() == 0 {
        None
    } else {
        match language_slot(s.drop_last(), l) {
            Some(j) => Some(j),
            None => if s.last().0 == l {
                Some(s.len() - 1)
            } else {
                None
            },
        }
    }
}

/// The files and lines of each language, the languages in the order they
/// first occur; files without a language are not counted.
pub open spec fn language_counts(fs: Seq<ScannedFile>) -> Seq<(Seq<char>, nat, nat)>
    decreases fs.len(),
{
    if fs.len() == 0 {
        Seq::empty()
    } else {
        let prev = language_counts(fs.drop_last());
        let f = fs.last();
        match f.language {
            None => prev,
            Some(l) => match language_slot(prev, l@) {
                Some(j) => prev.update(j, (l@, prev[j].1 + 1, prev[j].2 + file_lines(f))),
                None => prev.push((l@, 1, file_lines(f))),
            },
        }
    }
}

/// The number of leading counts with at least `n` files.
pub open spec fn files_point(s: Seq<(Seq<char>, nat, nat)>, n: nat) -> int
    decreases s.len(),
{
    if s.len() == 0 {
        0
    } else if s[0].1 >= n {
        1 + files_point(s.drop_first(), n)
    } else {
        0
    }
}

/// The counts stably sorted by files, most first.
pub open spec fn by_files(s: Seq<(Seq<char>, nat, nat)>) -> Seq<(Seq<char>, nat, nat)>
    decreases s.len(),
{
    if s.len() == 0 {
        Seq::empty()
    } else {
        let r = by_files(s.drop_last());
        r.insert(files_point(r, s.last().1), s.last())
    }
}

proof fn lemma_language_slot(s: Seq<(Seq<char>, nat, nat)>, l: Seq<char>)
    ensures
        match language_slot(s, l) {
            Some(j) => 0 <= j < s.len() && s[j].0 == l && forall|k: int|
                0 <= k < j ==> (#[trigger] s[k]).0 != l,
            None => forall|k: int| 0 <= k < s.len() ==> (#[trigger] s[k]).0 != l,
        },
    decreases s.len(),
{
    if s.len() > 0 {
        lemma_language_slot(s.drop_last(), l);
        match language_slot(s.drop_last(), l) {
            Some(j) => {
                assert forall|k: int| 0 <= k < j implies (#[trigger] s[k]).0 != l by {
                    assert(s[k] == s.drop_last()[k]);
                }
                assert(s[j] == s.drop_last()[j]);
            },
            None => {
                assert forall|k: int| 0 <= k < s.len() - 1 implies (#[trigger] s[k]).0 != l by {
                    assert(s[k] == s.drop_last()[k]);
                }
            },
        }
    }
}

proof fn lemma_language_counts_bounds(fs: Seq<ScannedFile>)
    ensures
        language_counts(fs).len() <= fs.len(),
        forall|j: int|
            0 <= j < language_counts(fs).len() ==> (#[trigger] language_counts(fs)[j]).1 <= fs.len()
                && language_counts(fs)[j].2 <= lines_total(fs),
    decreases fs.len(),
{
    if fs.len() > 0 {
        lemma_language_counts_bounds(fs.drop_last());
        let prev = language_counts(fs.drop_last());
        match fs.last().language {
            None => {},
            Some(l) => {
                lemma_language_slot(prev, l@);
            },
        }
    }
}

proof fn lemma_files_point(s: Seq<(Seq<char>, nat, nat)>, n: nat)
    ensures
        0 <= files_point(s, n) <= s.len(),
        forall|i: int| 0 <= i < files_point(s, n) ==> (#[trigger] s[i]).1 >= n,
        files_point(s, n) < s.len() ==> s[files_point(s, n)].1 < n,
    decreases s.len(),
{
    if s.len() > 0 && s[0].1 >= n {
        lemma_files_point(s.drop_first(), n);
        assert forall|i: int| 0 <= i < files_point(s, n) implies (#[trigger] s[i]).1 >= n by {
            if i > 0 {
                assert(s[i] == s.drop_first()[i - 1]);
            }
        }
    }
}

fn find_language(names: &Vec<String>, l: &Vec<char>) -> (r: Option<usize>)
    ensures
        match r {
            Some(j) => j < names.len() && names@[j as int]@ == l@ && forall|k: int|
                0 <= k < j ==> (#[trigger] names@[k])@ != l@,
            None => forall|k: int| 0 <= k < names.len() ==> (#[trigger] names@[k])@ != l@,
        },
{
    let mut i: usize = 0;
    while i < names.len()
        invariant
            i <= names.len(),
            forall|k: int| 0 <= k < i ==> (#[trigger] names@[k])@ != l@,
        decreases names.len() - i,
    {
        let v = chars_of(names[i].as_str());
        if chars_eq(&v, l) {
            return Some(i);
        }
        i = i + 1;
    }
    None
}

/// The counts as three parallel lists.
spec fn parallel_view(names: Seq<String>, files: Seq<u32>, ls: Seq<u64>) -> Seq<(Seq<char>, nat, nat)> {
    Seq::new(names.len(), |j: int| (names[j]@, files[j] as nat, ls[j] as nat))
}

fn count_languages(fs: &Vec<ScannedFile>) -> (r: Vec<LanguageCount>)
    requires
        fs.len() <= u32::MAX,
        lines_total(fs@) <= u64::MAX,
    ensures
        count_views(r@) == language_counts(fs@),
{
    let mut names: Vec<String> = Vec::new();
    let mut files: Vec<u32> = Vec::new();
    let mut ls: Vec<u64> = Vec::new();
    let mut i: usize = 0;
    while i < fs.len()
        invariant
            i <= fs.len() <= u32::MAX,
            lines_total(fs@) <= u64::MAX,
            names.len() == files.len() && files.len() == ls.len(),
            parallel_view(names@, files@, ls@) == language_counts(fs@.take(i as int)),
        decreases fs.len() - i,
    {
        let ghost prev = language_counts(fs@.take(i as int));
        proof {
            assert(fs@.take(i + 1).drop_last() =~= fs@.take(i as int));
            assert(fs@.take(i + 1).last() == fs@[i as int]);
            lemma_language_counts_bounds(fs@.take(i as int));
            lemma_lines_total_prefix(fs@, i as int);
            lemma_lines_total_prefix(fs@, i + 1);
            assert(lines_total(fs@.take(i + 1)) == lines_total(fs@.take(i as int)) + file_lines(
                fs@[i as int],
            ));
        }
        match &fs[i].language {
            None => {
                assert(language_counts(fs@.take(i + 1)) == prev);
            },
            Some(lang) => {
                let l = chars_of(lang.as_str());
                assert(fs@[i as int].language == Some(*lang));
                let n = count_lines(&fs[i]);
                proof {
                    lemma_language_slot(prev, l@);
                }
                match find_language(&names, &l) {
                    Some(j) => {
                        proof {
                            assert(parallel_view(names@, files@, ls@)[j as int].0 == names@[j as int]@);
                            if language_slot(prev, l@) is Some {
                                let jj = language_slot(prev, l@)->0;
                                if jj < j {
                                    assert(names@[jj]@ == prev[jj].0);
                                }
                                if jj > j {
                                    assert(prev[j as int].0 == names@[j as int]@);
                                }
                            } else {
                                assert(prev[j as int].0 == names@[j as int]@);
                            }
                            assert(language_slot(prev, l@) == Some(j as int));
                        }
                        let f = files[j];
                        let c = ls[j];
                        files.set(j, f + 1);
                        ls.set(j, c + n);
                        assert(parallel_view(names@, files@, ls@) =~= prev.update(
                            j as int,
                            (l@, prev[j as int].1 + 1, prev[j as int].2 + file_lines(fs@[i as int])),
                        ));
                    },
                    None => {
                        proof {
                            if language_slot(prev, l@) is Some {
                                let jj = language_slot(prev, l@)->0;
                                assert(names@[jj]@ == prev[jj].0);
                            }
                        }
                        proof {
                            assert(language_slot(prev, l@) is None);
                        }
                        names.push(lang.clone());
                        files.push(1);
                        ls.push(n);
                        assert(parallel_view(names@, files@, ls@) =~= prev.push(
                            (l@, 1, file_lines(fs@[i as int])),
                        ));
                    },
                }
            },
        }
        i = i + 1;
    }
    assert(fs@.take(fs.len() as int) =~= fs@);
    let ghost target = parallel_view(names@, files@, ls@);
    let total = names.len();
    let mut out: Vec<LanguageCount> = Vec::new();
    let mut k: usize = 0;
    while names.len() > 0
        invariant
            k + names.len() == total,
            total == files.len() && total == ls.len(),
            target.len() == total,
            forall|j: int|
                0 <= j < names.len() ==> (#[trigger] names@[j])@ == target[k + j].0,
            forall|j: int| 0 <= j < total ==> files@[j] as nat == target[j].1 && ls@[j] as nat == target[j].2,
            count_views(out@) == target.take(k as int),
        decreases names.len(),
    {
        let ghost before = names@;
        let name = names.remove(0);
        assert(name@ == target[k as int].0);
        assert forall|j: int| 0 <= j < names.len() implies (#[trigger] names@[j])@ == target[k + 1
            + j].0 by {
            assert(names@[j] == before[j + 1]);
        }
        let entry = LanguageCount { language: name, files: files[k], lines: ls[k] };
        assert(count_view(entry) == target[k as int]);
        let ghost before_out = out@;
        out.push(entry);
        assert(count_views(out@) =~= count_views(before_out).push(count_view(entry)));
        k = k + 1;
        assert(count_views(out@) =~= target.take(k as int));
    }
    assert(target.take(total as int) =~= target);
    out
}

fn sort_by_files(v: Vec<LanguageCount>) -> (r: Vec<LanguageCount>)
    ensures
        count_views(r@) == by_files(count_views(v@)),
{
    let ghost orig = count_views(v@);
    let total = v.len();
    let mut rest = v;
    let mut sorted: Vec<LanguageCount> = Vec::new();
    let mut i: usize = 0;
    while rest.len() > 0
        invariant
            i + rest.len() == total,
            total == orig.len(),
            count_views(rest@) == orig.subrange(i as int, total as int),
            count_views(sorted@) == by_files(orig.take(i as int)),
        decreases rest.len(),
    {
        let ghost rv = rest@;
        let c = rest.remove(0);
        let ghost sv = count_views(sorted@);
        proof {
            assert(count_view(c) == count_views(rv)[0]);
            assert(count_view(c) == orig[i as int]);
            assert(rest@ == rv.remove(0));
            assert forall|j: int| 0 <= j < rest@.len() implies count_views(rest@)[j] == orig[i + 1
                + j] by {
                assert(rest@[j] == rv[j + 1]);
                assert(count_views(rv)[j + 1] == orig[i + 1 + j]);
            }
            assert(count_views(rest@) =~= orig.subrange(i + 1, total as int));
            assert(orig.take(i + 1).drop_last() =~= orig.take(i as int));
            assert(orig.take(i + 1).last() == orig[i as int]);
            lemma_files_point(sv, c.files as nat);
        }
        let mut pos: usize = 0;
        while pos < sorted.len()
            invariant
                pos <= sorted.len(),
                sv == count_views(sorted@),
                forall|j: int| 0 <= j < pos ==> (#[trigger] sv[j]).1 >= c.files,
            ensures
                pos <= sorted.len(),
                pos < sorted.len() ==> sv[pos as int].1 < c.files,
                forall|j: int| 0 <= j < pos ==> (#[trigger] sv[j]).1 >= c.files,
            decreases sorted.len() - pos,
        {
            assert(sv[pos as int].1 == sorted@[pos as int].files);
            if sorted[pos].files < c.files {
                break;
            }
            pos = pos + 1;
        }
        proof {
            let ip = files_point(sv, c.files as nat);
            if ip < pos {
                assert(sv[ip].1 >= c.files);
            }
            if pos < ip {
                assert(sv[pos as int].1 >= c.files);
            }
            assert(pos == ip);
        }
        let ghost cv = count_view(c);
        sorted.insert(pos, c);
        assert(count_views(sorted@) =~= sv.insert(pos as int, cv));
        assert(count_views(sorted@) =~= by_files(orig.take(i + 1)));
        i = i + 1;
    }
    assert(orig.take(total as int) =~= orig);
    sorted
}

// ---------------------------------------------------------------------------
// The directory listing
// ---------------------------------------------------------------------------

/// Whether `a` comes no later than `b` in the order of `str`: character by
/// character, by code point (which is the order of their UTF-8 bytes), a
/// prefix first.
pub open spec fn text_le(a: Seq<char>, b: Seq<char>) -> bool
    decreases a.len(),
{
    if a.len() == 0 {
        true
    } else if b.len() == 0 {
        false
    } else if a[0] != b[0] {
        (a[0] as u32) < (b[0] as u32)
    } else {
        text_le(a.drop_first(), b.drop_first())
    }
}

/// The number of leading texts of `s` that come no later than `t`.
pub open spec fn text_point(s: Seq<Seq<char>>, t: Seq<char>) -> int
    decreases s.len(),
{
    if s.len() == 0 {
        0
    } else if text_le(s[0], t) {
        1 + text_point(s.drop_first(), t)
    } else {
        0
    }
}

/// The texts in the order of `str`.
pub open spec fn sorted_texts(s: Seq<Seq<char>>) -> Seq<Seq<char>>
    decreases s.len(),
{
    if s.len() == 0 {
        Seq::empty()
    } else {
        let r = sorted_texts(s.drop_last());
        r.insert(text_point(r, s.last()), s.last())
    }
}

proof fn lemma_text_point(s: Seq<Seq<char>>, t: Seq<char>)
    ensures
        0 <= text_point(s, t) <= s.len(),
        forall|i: int| 0 <= i < text_point(s, t) ==> text_le(#[trigger] s[i], t),
        text_point(s, t) < s.len() ==> !text_le(s[text_point(s, t)], t),
    decreases s.len(),
{
    if s.len() > 0 && text_le(s[0], t) {
        lemma_text_point(s.drop_first(), t);
        assert forall|i: int| 0 <= i < text_point(s, t) implies text_le(#[trigger] s[i], t) by {
            if i > 0 {
                assert(s[i] == s.drop_first()[i - 1]);
            }
        }
    }
}

fn text_le_chars(a: &Vec<char>, b: &Vec<char>) -> (r: bool)
    ensures
        r == text_le(a@, b@),
{
    let mut i: usize = 0;
    assert(a@.subrange(0, a.len() as int) =~= a@);
    assert(b@.subrange(0, b.len() as int) =~= b@);
    while i < a.len() && i < b.len()
        invariant
            i <= a.len(),
            i <= b.len(),
            a@.subrange(0, i as int) == b@.subrange(0, i as int),
            text_le(a@, b@) == text_le(a@.subrange(i as int, a.len() as int), b@.subrange(
                i as int,
                b.len() as int,
            )),
        decreases a.len() - i,
    {
        let ghost sa = a@.subrange(i as int, a.len() as int);
        let ghost sb = b@.subrange(i as int, b.len() as int);
        assert(sa[0] == a@[i as int] && sb[0] == b@[i as int]);
        if a[i] != b[i] {
            return (a[i] as u32) < (b[i] as u32);
        }
        assert(sa.drop_first() =~= a@.subrange(i + 1, a.len() as int));
        assert(sb.drop_first() =~= b@.subrange(i + 1, b.len() as int));
        assert(a@.subrange(0, i + 1) =~= b@.subrange(0, i + 1)) by {
            assert(a@.subrange(0, i + 1) =~= a@.subrange(0, i as int).push(a@[i as int]));
            assert(b@.subrange(0, i + 1) =~= b@.subrange(0, i as int).push(b@[i as int]));
        }
        i = i + 1;
    }
    i == a.len()
}

fn sort_texts(v: Vec<Vec<char>>) -> (r: Vec<Vec<char>>)
    ensures
        views(r@) == sorted_texts(views(v@)),
{
    let ghost orig = views(v@);
    let total = v.len();
    let mut rest = v;
    let mut sorted: Vec<Vec<char>> = Vec::new();
    let mut i: usize = 0;
    while rest.len() > 0
        invariant
            i + rest.len() == total,
            total == orig.len(),
            views(rest@) == orig.subrange(i as int, total as int),
            views(sorted@) == sorted_texts(orig.take(i as int)),
        decreases rest.len(),
    {
        let ghost rv = rest@;
        let t = rest.remove(0);
        let ghost sv = views(sorted@);
        proof {
            assert(t@ == views(rv)[0]);
            assert(t@ == orig[i as int]);
            assert(rest@ == rv.remove(0));
            assert forall|j: int| 0 <= j < rest@.len() implies views(rest@)[j] == orig[i + 1 + j] by {
                assert(rest@[j] == rv[j + 1]);
                assert(views(rv)[j + 1] == orig[i + 1 + j]);
            }
            assert(views(rest@) =~= orig.subrange(i + 1, total as int));
            assert(orig.take(i + 1).drop_last() =~= orig.take(i as int));
            assert(orig.take(i + 1).last() == orig[i as int]);
            lemma_text_point(sv, t@);
        }
        let mut pos: usize = 0;
        while pos < sorted.len()
            invariant
                pos <= sorted.len(),
                sv == views(sorted@),
                forall|j: int| 0 <= j < pos ==> text_le(#[trigger] sv[j], t@),
            ensures
                pos <= sorted.len(),
                pos < sorted.len() ==> !text_le(sv[pos as int], t@),
                forall|j: int| 0 <= j < pos ==> text_le(#[trigger] sv[j], t@),
            decreases sorted.len() - pos,
        {
            assert(sv[pos as int] == sorted@[pos as int]@);
            if !text_le_chars(&sorted[pos], &t) {
                break;
            }
            pos = pos + 1;
        }
        proof {
            let ip = text_point(sv, t@);
            if ip < pos {
                assert(text_le(sv[ip], t@));
            }
            if pos < ip {
                assert(text_le(sv[pos as int], t@));
            }
            assert(pos == ip);
        }
        let ghost tv = t@;
        sorted.insert(pos, t);
        assert(views(sorted@) =~= sv.insert(pos as int, tv));
        assert(views(sorted@) =~= sorted_texts(orig.take(i + 1)));
        i = i + 1;
    }
    assert(orig.take(total as int) =~= orig);
    sorted
}

/// The relative paths of the files.
pub open spec fn paths_of(fs: Seq<ScannedFile>) -> Seq<Seq<char>> {
    fs.map_values(|f: ScannedFile| f.relative_path@)
}

// ---------------------------------------------------------------------------
// All together
// ---------------------------------------------------------------------------

/// Recomputes a repository's totals from its files: their number, lines
/// and tokens added up (each total must fit its field), the languages
/// by files (most first; languages with as many files in the order they
/// first occur), and the paths sorted, one per line.
pub fn recalculate_metadata(files: &Vec<ScannedFile>) -> (r: RepoMetadata)
    requires
        files.len() <= u32::MAX,
        lines_total(files@) <= u64::MAX,
        tokens_fit(files@),
    ensures
        r.total_files == files.len(),
        r.total_lines == lines_total(files@),
        forall|k: int| 0 <= k < 10 ==> count_of(r.total_tokens, k) == token_total(files@, k),
        count_views(r.languages@) == by_files(language_counts(files@)),
        r.directory_structure is Some,
        r.directory_structure->0@ == join(sorted_texts(paths_of(files@)), "\n"@),
{
    let (total_lines, total_tokens) = totals(files);
    let counts = count_languages(files);
    let languages = sort_by_files(counts);
    let mut paths: Vec<Vec<char>> = Vec::new();
    let mut i: usize = 0;
    while i < files.len()
        invariant
            i <= files.len(),
            views(paths@) == paths_of(files@).take(i as int),
        decreases files.len() - i,
    {
        let p = chars_of(files[i].relative_path.as_str());
        let ghost before = paths@;
        paths.push(p);
        assert(paths@ == before.push(p));
        assert(views(paths@) =~= views(before).push(p@));
        assert(p@ == paths_of(files@)[i as int]);
        assert(views(paths@) =~= paths_of(files@).take(i + 1));
        i = i + 1;
    }
    assert(paths_of(files@).take(files.len() as int) =~= paths_of(files@));
    let sorted = sort_texts(paths);
    let listing = join_chars(&sorted, "\n");
    RepoMetadata {
        total_files: files.len() as u32,
        total_lines,
        total_tokens,
        languages,
        directory_structure: Some(string_from_chars(&listing)),
    }
}

// ---------------------------------------------------------------------------
// Laws
// ---------------------------------------------------------------------------

proof fn lemma_text_le_total(a: Seq<char>, b: Seq<char>)
    ensures
        text_le(a, b) || text_le(b, a),
    decreases a.len(),
{
    if a.len() > 0 && b.len() > 0 {
        if a[0] == b[0] {
            lemma_text_le_total(a.drop_first(), b.drop_first());
        } else {
            vstd::utf8::char_u32_cast(a[0], a[0] as u32);
            vstd::utf8::char_u32_cast(b[0], b[0] as u32);
            assert((a[0] as u32) != (b[0] as u32));
        }
    }
}

proof fn lemma_text_le_trans(a: Seq<char>, b: Seq<char>, c: Seq<char>)
    requires
        text_le(a, b),
        text_le(b, c),
    ensures
        text_le(a, c),
    decreases a.len(),
{
    if a.len() > 0 && b.len() > 0 && c.len() > 0 && a[0] == b[0] && b[0] == c[0] {
        lemma_text_le_trans(a.drop_first(), b.drop_first(), c.drop_first());
    }
}

/// Whether the texts are in the order of `str`.
pub open spec fn texts_sorted(s: Seq<Seq<char>>) -> bool {
    forall|i: int, j: int| 0 <= i < j < s.len() ==> text_le(#[trigger] s[i], #[trigger] s[j])
}

/// The directory listing is sorted and lists every path as often as the
/// files have it.
pub proof fn law_listing_sorted(s: Seq<Seq<char>>)
    ensures
        texts_sorted(sorted_texts(s)),
        sorted_texts(s).to_multiset() == s.to_multiset(),
    decreases s.len(),
{
    broadcast use vstd::seq_lib::to_multiset_insert, vstd::seq_lib::to_multiset_build;

    if s.len() == 0 {
        assert(sorted_texts(s) =~= s);
    } else {
        let prev = sorted_texts(s.drop_last());
        law_listing_sorted(s.drop_last());
        let x = s.last();
        let k = text_point(prev, x);
        lemma_text_point(prev, x);
        let t = prev.insert(k, x);
        assert forall|i: int, j: int| 0 <= i < j < t.len() implies text_le(
            #[trigger] t[i],
            #[trigger] t[j],
        ) by {
            if j < k {
                assert(t[i] == prev[i] && t[j] == prev[j]);
            } else if j == k {
                assert(t[i] == prev[i]);
            } else if i < k {
                assert(t[i] == prev[i] && t[j] == prev[j - 1]);
            } else if i == k {
                assert(t[j] == prev[j - 1]);
                lemma_text_le_total(prev[k], x);
                if j - 1 > k {
                    assert(text_le(prev[k], prev[j - 1]));
                    lemma_text_le_trans(x, prev[k], prev[j - 1]);
                }
            } else {
                assert(t[i] == prev[i - 1] && t[j] == prev[j - 1]);
            }
        }
        assert(s.drop_last().push(x) =~= s);
    }
}

/// Whether the counts have non-increasing file numbers.
pub open spec fn files_descending(s: Seq<(Seq<char>, nat, nat)>) -> bool {
    forall|i: int, j: int| 0 <= i < j < s.len() ==> (#[trigger] s[i]).1 >= (#[trigger] s[j]).1
}

/// The languages come most files first, and none is lost or repeated: the
/// sorted counts are the counts.
pub proof fn law_languages_by_files(s: Seq<(Seq<char>, nat, nat)>)
    ensures
        files_descending(by_files(s)),
        by_files(s).to_multiset() == s.to_multiset(),
    decreases s.len(),
{
    broadcast use vstd::seq_lib::to_multiset_insert, vstd::seq_lib::to_multiset_build;

    if s.len() == 0 {
        assert(by_files(s) =~= s);
    } else {
        let prev = by_files(s.drop_last());
        law_languages_by_files(s.drop_last());
        let x = s.last();
        let k = files_point(prev, x.1);
        lemma_files_point(prev, x.1);
        let t = prev.insert(k, x);
        assert forall|i: int, j: int| 0 <= i < j < t.len() implies (#[trigger] t[i]).1 >= (
        #[trigger] t[j]).1 by {
            if j < k {
                assert(t[i] == prev[i] && t[j] == prev[j]);
            } else if j == k {
                assert(t[i] == prev[i]);
            } else if i < k {
                assert(t[i] == prev[i] && t[j] == prev[j - 1]);
            } else if i == k {
                assert(t[j] == prev[j - 1]);
                if j - 1 > k {
                    assert(prev[k].1 >= prev[j - 1].1);
                }
            } else {
                assert(t[i] == prev[i - 1] && t[j] == prev[j - 1]);
            }
        }
        assert(s.drop_last().push(x) =~= s);
    }
}

} // verus!
