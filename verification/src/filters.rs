//! Choosing the files to pack: glob include and exclude patterns, matched on
//! the relative path or on the file name alone, and the paths given on
//! standard input.

use vstd::prelude::*;
use crate::text::{
    chars_of, chars_eq, contains, contains_char, copy_string, ends_with, ends_with_str, find_chars,
    string_views,
};

verus! {

// ---------------------------------------------------------------------------
// Globs
// ---------------------------------------------------------------------------

/// Whether `glob::Pattern::new` accepts `pattern`.
pub uninterp spec fn glob_valid(pattern: Seq<char>) -> bool;

/// What `glob::Pattern::matches` answers for the compiled `pattern` on `path`
/// (default match options: case-sensitive, `*` also crosses `/`).
pub uninterp spec fn glob_match(pattern: Seq<char>, path: Seq<char>) -> bool;

/// The final component of `path`, as `std::path::Path::file_name` gives it.
pub uninterp spec fn path_file_name(path: Seq<char>) -> Option<Seq<char>>;

/// Calls `glob::Pattern::new` and reports whether it succeeded. Claimed: the
/// answer depends on the pattern text alone.
#[verifier::external_body]
fn glob_compiles(pattern: &str) -> (r: bool)
    ensures
        r == glob_valid(pattern@),
{
    glob::Pattern::new(pattern).is_ok()
}

/// Compiles `pattern` with `glob::Pattern::new` and calls
/// `Pattern::matches(path)` on the result. Claimed: the answer depends on the
/// two texts alone.
#[verifier::external_body]
fn glob_matches(pattern: &str, path: &str) -> (r: bool)
    requires
        glob_valid(pattern@),
    ensures
        r == glob_match(pattern@, path@),
{
    match glob::Pattern::new(pattern) {
        Ok(compiled) => compiled.matches(path),
        Err(_) => false,
    }
}

/// `std::path::Path::file_name` of `path`, as a string (a path made from a
/// `str` always converts back). Claimed: the answer depends on the path text
/// alone.
#[verifier::external_body]
fn file_name(path: &str) -> (r: Option<String>)
    ensures
        (match r {
            Some(f) => path_file_name(path@) == Some(f@),
            None => path_file_name(path@) is None,
        }),
{
    std::path::Path::new(path).file_name().and_then(|f| f.to_str()).map(|f| f.to_owned())
}

/// A glob pattern that compiles, kept as its text.
pub struct GlobPattern {
    source: String,
}

impl GlobPattern {
    #[verifier::type_invariant]
    spec fn compiles(self) -> bool {
        glob_valid(self.source@)
    }

    /// The pattern text.
    pub closed spec fn text(self) -> Seq<char> {
        self.source@
    }

    /// Compiles `pattern`; `None` when the glob syntax rejects it.
    pub fn new(pattern: &str) -> (r: Option<GlobPattern>)
        ensures
            r is Some <==> glob_valid(pattern@),
            r matches Some(p) ==> p.text() == pattern@,
    {
        if glob_compiles(pattern) {
            Some(GlobPattern { source: pattern.to_owned() })
        } else {
            None
        }
    }

    /// The pattern text.
    pub fn as_str(&self) -> (r: &str)
        ensures
            r@ == self.text(),
    {
        self.source.as_str()
    }

    /// Every pattern compiles.
    pub fn is_valid(&self) -> (r: bool)
        ensures
            r,
            glob_valid(self.text()),
    {
        proof {
            use_type_invariant(self);
        }
        true
    }
}

/// Whether `pattern` matches the whole relative path or, failing that, its
/// file name.
pub open spec fn file_matches(pattern: Seq<char>, path: Seq<char>) -> bool {
    glob_match(pattern, path) || match path_file_name(path) {
        Some(f) => glob_match(pattern, f),
        None => false,
    }
}

/// Whether `pattern` matches `relative_path` or its file name; see
/// `file_matches`.
pub fn pattern_matches_file(pattern: &GlobPattern, relative_path: &str) -> (r: bool)
    ensures
        r == file_matches(pattern.text(), relative_path@),
{
    proof {
        use_type_invariant(pattern);
    }
    if glob_matches(pattern.source.as_str(), relative_path) {
        return true;
    }
    match file_name(relative_path) {
        Some(f) => glob_matches(pattern.source.as_str(), f.as_str()),
        None => false,
    }
}

/// The texts of a sequence of patterns.
pub open spec fn pattern_texts(ps: Seq<GlobPattern>) -> Seq<Seq<char>> {
    ps.map_values(|p: GlobPattern| p.text())
}

/// Compiles each of `patterns` in order, dropping those the glob syntax
/// rejects.
pub fn compile_patterns(patterns: &Vec<String>) -> (r: Vec<GlobPattern>)
    ensures
        pattern_texts(r@) == string_views(patterns@).filter(|p: Seq<char>| glob_valid(p)),
{
    let ghost texts = string_views(patterns@);
    let ghost valid = |p: Seq<char>| glob_valid(p);
    let mut r: Vec<GlobPattern> = Vec::new();
    let mut i: usize = 0;
    while i < patterns.len()
        invariant
            i <= patterns.len(),
            texts == string_views(patterns@),
            valid == (|p: Seq<char>| glob_valid(p)),
            pattern_texts(r@) == texts.take(i as int).filter(valid),
        decreases patterns.len() - i,
    {
        let ghost before = pattern_texts(r@);
        proof {
            assert(texts.take(i + 1) == texts.take(i as int).push(texts[i as int]));
            texts.take(i as int).lemma_filter_push(texts[i as int], valid);
        }
        match GlobPattern::new(patterns[i].as_str()) {
            Some(p) => {
                r.push(p);
                assert(pattern_texts(r@) == before.push(texts[i as int]));
            },
            None => {},
        }
        i = i + 1;
    }
    assert(texts.take(patterns.len() as int) == texts);
    r
}

/// Whether one of `patterns` matches `path` (or its file name).
pub open spec fn matches_some(patterns: Seq<Seq<char>>, path: Seq<char>) -> bool {
    exists|i: int| 0 <= i < patterns.len() && file_matches(#[trigger] patterns[i], path)
}

/// Whether one of `patterns` matches `path` (or its file name).
pub fn matches_any_pattern(patterns: &Vec<GlobPattern>, path: &str) -> (r: bool)
    ensures
        r == matches_some(pattern_texts(patterns@), path@),
{
    let ghost texts = pattern_texts(patterns@);
    let mut i: usize = 0;
    while i < patterns.len()
        invariant
            i <= patterns.len(),
            texts == pattern_texts(patterns@),
            forall|j: int| 0 <= j < i ==> !file_matches(#[trigger] texts[j], path@),
        decreases patterns.len() - i,
    {
        if pattern_matches_file(&patterns[i], path) {
            assert(file_matches(texts[i as int], path@));
            return true;
        }
        i = i + 1;
    }
    false
}

// ---------------------------------------------------------------------------
// Narrowing a file list
// ---------------------------------------------------------------------------

/// Whether `path` was named on standard input: it equals one of `given`, or
/// ends with one of them.
pub open spec fn named_in(given: Seq<Seq<char>>, path: Seq<char>) -> bool {
    exists|i: int|
        0 <= i < given.len() && (path == #[trigger] given[i] || ends_with(path, given[i]))
}

fn is_named_in(given: &Vec<String>, path: &String) -> (r: bool)
    ensures
        r == named_in(string_views(given@), path@),
{
    let ghost texts = string_views(given@);
    let pv = chars_of(path.as_str());
    let mut i: usize = 0;
    while i < given.len()
        invariant
            i <= given.len(),
            texts == string_views(given@),
            pv@ == path@,
            forall|j: int|
                0 <= j < i ==> !(path@ == #[trigger] texts[j] || ends_with(path@, texts[j])),
        decreases given.len() - i,
    {
        let gv = chars_of(given[i].as_str());
        if chars_eq(&pv, &gv) || ends_with_str(&pv, given[i].as_str()) {
            assert(path@ == texts[i as int] || ends_with(path@, texts[i as int]));
            return true;
        }
        i = i + 1;
    }
    false
}

/// Keeps the files of `files` that were named on standard input, when paths
/// were given there; keeps all otherwise.
pub fn filter_stdin_paths(files: &mut Vec<String>, stdin_paths: &Option<Vec<String>>)
    ensures
        string_views(final(files)@) == (match stdin_paths {
            Some(given) => string_views(old(files)@).filter(
                |p: Seq<char>| named_in(string_views(given@), p),
            ),
            None => string_views(old(files)@),
        }),
{
    match stdin_paths {
        Some(given) => {
            let ghost texts = string_views(files@);
            let ghost keep = |p: Seq<char>| named_in(string_views(given@), p);
            let mut kept: Vec<String> = Vec::new();
            let mut i: usize = 0;
            while i < files.len()
                invariant
                    i <= files.len(),
                    texts == string_views(files@),
                    keep == (|p: Seq<char>| named_in(string_views(given@), p)),
                    string_views(kept@) == texts.take(i as int).filter(keep),
                decreases files.len() - i,
            {
                let ghost before = string_views(kept@);
                proof {
                    assert(texts.take(i + 1) == texts.take(i as int).push(texts[i as int]));
                    texts.take(i as int).lemma_filter_push(texts[i as int], keep);
                }
                if is_named_in(given, &files[i]) {
                    kept.push(copy_string(&files[i]));
                    assert(string_views(kept@) == before.push(texts[i as int]));
                }
                i = i + 1;
            }
            assert(texts.take(files.len() as int) == texts);
            *files = kept;
        },
        None => {},
    }
}

/// Keeps the files of `files` for which `matches_some(patterns, f)` is
/// `wanted`.
fn retain_by_patterns(files: &mut Vec<String>, patterns: &Vec<GlobPattern>, wanted: bool)
    ensures
        string_views(final(files)@) == string_views(old(files)@).filter(
            |p: Seq<char>| matches_some(pattern_texts(patterns@), p) == wanted,
        ),
{
    let ghost texts = string_views(files@);
    let ghost keep = |p: Seq<char>| matches_some(pattern_texts(patterns@), p) == wanted;
    let mut kept: Vec<String> = Vec::new();
    let mut i: usize = 0;
    while i < files.len()
        invariant
            i <= files.len(),
            texts == string_views(files@),
            keep == (|p: Seq<char>| matches_some(pattern_texts(patterns@), p) == wanted),
            string_views(kept@) == texts.take(i as int).filter(keep),
        decreases files.len() - i,
    {
        let ghost before = string_views(kept@);
        proof {
            assert(texts.take(i + 1) == texts.take(i as int).push(texts[i as int]));
            texts.take(i as int).lemma_filter_push(texts[i as int], keep);
        }
        if matches_any_pattern(patterns, files[i].as_str()) == wanted {
            kept.push(copy_string(&files[i]));
            assert(string_views(kept@) == before.push(texts[i as int]));
        }
        i = i + 1;
    }
    assert(texts.take(files.len() as int) == texts);
    *files = kept;
}

/// Keeps only the files that one of `include_patterns` matches, when at
/// least one of the patterns compiles; returns the compiled patterns.
pub fn apply_include_patterns(files: &mut Vec<String>, include_patterns: Vec<String>) -> (r: Vec<
    GlobPattern,
>)
    ensures
        pattern_texts(r@) == string_views(include_patterns@).filter(
            |p: Seq<char>| glob_valid(p),
        ),
        string_views(final(files)@) == if r@.len() == 0 {
            string_views(old(files)@)
        } else {
            string_views(old(files)@).filter(
                |p: Seq<char>| matches_some(pattern_texts(r@), p),
            )
        },
{
    let compiled = compile_patterns(&include_patterns);
    if compiled.len() > 0 {
        retain_by_patterns(files, &compiled, true);
        proof {
            let a = |p: Seq<char>| matches_some(pattern_texts(compiled@), p) == true;
            let b = |p: Seq<char>| matches_some(pattern_texts(compiled@), p);
            assert(a == b);
        }
    }
    compiled
}

/// Drops the files that one of `exclude_patterns` matches; returns the
/// compiled patterns.
pub fn apply_exclude_patterns(files: &mut Vec<String>, exclude_patterns: Vec<String>) -> (r: Vec<
    GlobPattern,
>)
    ensures
        pattern_texts(r@) == string_views(exclude_patterns@).filter(
            |p: Seq<char>| glob_valid(p),
        ),
        string_views(final(files)@) == string_views(old(files)@).filter(
            |p: Seq<char>| !matches_some(pattern_texts(r@), p),
        ),
{
    let compiled = compile_patterns(&exclude_patterns);
    retain_by_patterns(files, &compiled, false);
    proof {
        let a = |p: Seq<char>| matches_some(pattern_texts(compiled@), p) == false;
        let b = |p: Seq<char>| !matches_some(pattern_texts(compiled@), p);
        assert(a == b);
    }
    compiled
}

// ---------------------------------------------------------------------------
// The scan command's filters
// ---------------------------------------------------------------------------

/// Whether the scan's exclusion drops `path`: one of the patterns occurs
/// in it. (The scan also tests whether the path starts with a pattern or has
/// it as a `/`-separated part; both imply that it occurs in the path.)
pub open spec fn scan_excluded(path: Seq<char>, patterns: Seq<Seq<char>>) -> bool {
    exists|i: int| 0 <= i < patterns.len() && contains(path, #[trigger] patterns[i])
}

/// Whether one scan inclusion pattern takes `path`: a pattern with `*` is
/// a glob that must compile and match; another must occur in the path (or
/// end it, which implies that).
pub open spec fn scan_included_by(path: Seq<char>, pattern: Seq<char>) -> bool {
    if pattern.contains('*') {
        glob_valid(pattern) && glob_match(pattern, path)
    } else {
        contains(path, pattern)
    }
}

/// Whether one of the scan's inclusion patterns takes `path`.
pub open spec fn scan_included(path: Seq<char>, patterns: Seq<Seq<char>>) -> bool {
    exists|i: int| 0 <= i < patterns.len() && scan_included_by(path, #[trigger] patterns[i])
}

fn occurs_in(path: &Vec<char>, pattern: &String) -> (r: bool)
    ensures
        r == contains(path@, pattern@),
{
    let p = chars_of(pattern.as_str());
    find_chars(path, &p).is_some()
}

/// Whether the scan's exclusion patterns drop `path`; see `scan_excluded`.
pub fn scan_excludes(path: &str, exclude: &Vec<String>) -> (r: bool)
    ensures
        r == scan_excluded(path@, string_views(exclude@)),
{
    let v = chars_of(path);
    let mut i: usize = 0;
    while i < exclude.len()
        invariant
            i <= exclude.len(),
            v@ == path@,
            forall|j: int| 0 <= j < i ==> !contains(path@, #[trigger] string_views(exclude@)[j]),
        decreases exclude.len() - i,
    {
        if occurs_in(&v, &exclude[i]) {
            assert(contains(path@, string_views(exclude@)[i as int]));
            return true;
        }
        i = i + 1;
    }
    false
}

/// Whether one of the scan's inclusion patterns takes `path`; see
/// `scan_included`.
pub fn scan_includes(path: &str, inclusions: &Vec<String>) -> (r: bool)
    ensures
        r == scan_included(path@, string_views(inclusions@)),
{
    let v = chars_of(path);
    let mut i: usize = 0;
    while i < inclusions.len()
        invariant
            i <= inclusions.len(),
            v@ == path@,
            forall|j: int|
                0 <= j < i ==> !scan_included_by(path@, #[trigger] string_views(inclusions@)[j]),
        decreases inclusions.len() - i,
    {
        let pattern = &inclusions[i];
        let pv = chars_of(pattern.as_str());
        let takes = if contains_char(&pv, '*') {
            glob_compiles(pattern.as_str()) && glob_matches(pattern.as_str(), path)
        } else {
            occurs_in(&v, pattern)
        };
        if takes {
            assert(scan_included_by(path@, string_views(inclusions@)[i as int]));
            return true;
        }
        i = i + 1;
    }
    false
}

/// Applies the scan's exclusion patterns, then, when there are any, its
/// inclusion patterns, to the relative paths.
pub fn apply_scan_patterns(files: &mut Vec<String>, exclude: &Vec<String>, inclusions: &Vec<String>)
    ensures
        string_views(final(files)@) == string_views(old(files)@).filter(
            |p: Seq<char>|
                !scan_excluded(p, string_views(exclude@)) && (inclusions@.len() == 0 || scan_included(
                    p,
                    string_views(inclusions@),
                )),
        ),
{
    let ghost texts = string_views(files@);
    let ghost keep = |p: Seq<char>|
        !scan_excluded(p, string_views(exclude@)) && (inclusions@.len() == 0 || scan_included(
            p,
            string_views(inclusions@),
        ));
    let mut kept: Vec<String> = Vec::new();
    let mut i: usize = 0;
    while i < files.len()
        invariant
            i <= files.len(),
            texts == string_views(files@),
            keep == (|p: Seq<char>|
                !scan_excluded(p, string_views(exclude@)) && (inclusions@.len() == 0 || scan_included(
                    p,
                    string_views(inclusions@),
                ))),
            string_views(kept@) == texts.take(i as int).filter(keep),
        decreases files.len() - i,
    {
        let ghost before = string_views(kept@);
        proof {
            assert(texts.take(i + 1) == texts.take(i as int).push(texts[i as int]));
            texts.take(i as int).lemma_filter_push(texts[i as int], keep);
        }
        let path = files[i].as_str();
        if !scan_excludes(path, exclude) && (inclusions.len() == 0 || scan_includes(path, inclusions)) {
            kept.push(copy_string(&files[i]));
            assert(string_views(kept@) == before.push(texts[i as int]));
        }
        i = i + 1;
    }
    assert(texts.take(files.len() as int) == texts);
    *files = kept;
}

/// How many files a scan samples: the requested number when it is positive
/// and fewer than the files there are; `None` (no sampling) otherwise.
pub fn sample_size(requested: Option<usize>, count: usize) -> (r: Option<usize>)
    ensures
        r == (match requested {
            Some(n) => if 0 < n < count {
                Some(n)
            } else {
                None
            },
            None => None,
        }),
{
    match requested {
        Some(n) => if 0 < n && n < count {
            Some(n)
        } else {
            None
        },
        None => None,
    }
}

/// Whether a file stays after the default ignores, given whether the
/// default, test and documentation ignore lists match its path: with the
/// default ignores on, a file they match leaves, and so does a test or
/// documentation file unless those are asked for.
pub fn passes_default_ignores(
    use_default_ignores: bool,
    include_tests: bool,
    include_docs: bool,
    ignored: bool,
    test_file: bool,
    doc_file: bool,
) -> (r: bool)
    ensures
        r == (!use_default_ignores || (!ignored && (include_tests || !test_file) && (include_docs
            || !doc_file))),
{
    if !use_default_ignores {
        return true;
    }
    if ignored {
        return false;
    }
    if !include_tests && test_file {
        return false;
    }
    if !include_docs && doc_file {
        return false;
    }
    true
}

/// Drops the files the default ignore lists rule out; see
/// `passes_default_ignores`. `ignored`, `test_files` and `doc_files` say, file
/// by file, whether the default, test and documentation lists match its path.
pub fn apply_default_ignores(
    files: &mut Vec<String>,
    use_default_ignores: bool,
    include_tests: bool,
    include_docs: bool,
    ignored: &Vec<bool>,
    test_files: &Vec<bool>,
    doc_files: &Vec<bool>,
)
    requires
        ignored.len() == old(files).len(),
        test_files.len() == old(files).len(),
        doc_files.len() == old(files).len(),
    ensures
        string_views(final(files)@) == kept_by_flags(
            string_views(old(files)@),
            Seq::new(
                old(files)@.len(),
                |i: int|
                    !use_default_ignores || (!ignored@[i] && (include_tests || !test_files@[i]) && (
                    include_docs || !doc_files@[i])),
            ),
        ),
{
    let ghost texts = string_views(files@);
    let ghost keep = Seq::new(
        files@.len(),
        |i: int|
            !use_default_ignores || (!ignored@[i] && (include_tests || !test_files@[i]) && (
            include_docs || !doc_files@[i])),
    );
    let mut kept: Vec<String> = Vec::new();
    let mut i: usize = 0;
    while i < files.len()
        invariant
            i <= files.len(),
            texts == string_views(files@),
            ignored.len() == files.len() && test_files.len() == files.len() && doc_files.len()
                == files.len(),
            keep.len() == files.len(),
            forall|j: int|
                0 <= j < files.len() ==> #[trigger] keep[j] == (!use_default_ignores || (
                !ignored@[j] && (include_tests || !test_files@[j]) && (include_docs
                    || !doc_files@[j]))),
            string_views(kept@) == kept_by_flags(texts.take(i as int), keep.take(i as int)),
        decreases files.len() - i,
    {
        let ghost before = string_views(kept@);
        proof {
            assert(texts.take(i + 1).drop_last() =~= texts.take(i as int));
            assert(keep.take(i + 1).drop_last() =~= keep.take(i as int));
        }
        if passes_default_ignores(
            use_default_ignores,
            include_tests,
            include_docs,
            ignored[i],
            test_files[i],
            doc_files[i],
        ) {
            kept.push(copy_string(&files[i]));
            assert(string_views(kept@) =~= before.push(texts[i as int]));
        }
        i = i + 1;
    }
    assert(texts.take(files.len() as int) =~= texts);
    assert(keep.take(files.len() as int) =~= keep);
    *files = kept;
}

/// The entries whose flag is set, in order.
pub open spec fn kept_by_flags(s: Seq<Seq<char>>, flags: Seq<bool>) -> Seq<Seq<char>>
    decreases s.len(),
{
    if s.len() == 0 || flags.len() != s.len() {
        Seq::empty()
    } else {
        let prev = kept_by_flags(s.drop_last(), flags.drop_last());
        if flags.last() {
            prev.push(s.last())
        } else {
            prev
        }
    }
}

} // verus!
