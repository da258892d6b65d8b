//! Content compression used by `pack`: dropping blank lines and comments,
//! and a keyword-based signature extractor.

use vstd::prelude::*;
use crate::text::{
    contains_char, push_str, starts_with_str, chars_eq_str, find, find_chars, lemma_find_from, occurs_at_chars, starts_with, to_lowercase_chars,
    lowercase, trim, trim_chars, trim_end, trim_end_chars, chars_of, decimal, decimal_chars, index_of, index_of_char, is_blank, is_blank_chars, join,
    join_lines, lemma_index_of, lines, parse_unsigned, parse_unsigned_chars, push_all,
    split_lines, string_from_chars, subrange_chars, views, newline_free, lemma_lines_newline_free,
    lemma_decimal_newline_free, lemma_lines_of_join, lemma_join_front, strip_cr, is_ascii,
    ascii_lower, trim_start, lemma_trim_start_shape, lemma_trim_end_shape,
};

verus! {

// ---------------------------------------------------------------------------
// String-literal tracking
// ---------------------------------------------------------------------------

/// The quote state after scanning `s` from the left:
/// (inside a double-quoted literal, inside a single-quoted literal,
/// the previous character was an unconsumed backslash).
/// A backslash escapes the next character; a quote of one kind does not
/// toggle while inside a literal of the other kind.
pub open spec fn quote_state(s: Seq<char>) -> (bool, bool, bool)
    decreases s.len(),
{
    if s.len() == 0 {
        (false, false, false)
    } else {
        let (d, q, b) = quote_state(s.drop_last());
        let c = s.last();
        if b {
            (d, q, false)
        } else if c == '\\' {
            (d, q, true)
        } else if c == '"' && !q {
            (!d, q, false)
        } else if c == '\'' && !d {
            (d, !q, false)
        } else {
            (d, q, false)
        }
    }
}

/// `text` ends inside an unterminated string literal.
pub open spec fn inside_string(text: Seq<char>) -> bool {
    quote_state(text).0 || quote_state(text).1
}

/// Whether `text` ends inside a string literal.
pub fn is_inside_string_chars(text: &Vec<char>) -> (r: bool)
    ensures
        r == inside_string(text@),
{
    let mut in_double = false;
    let mut in_single = false;
    let mut prev_backslash = false;
    let mut i: usize = 0;
    while i < text.len()
        invariant
            i <= text.len(),
            quote_state(text@.subrange(0, i as int)) == (in_double, in_single, prev_backslash),
        decreases text.len() - i,
    {
        let c = text[i];
        proof {
            assert(text@.subrange(0, i + 1).drop_last() == text@.subrange(0, i as int));
        }
        if prev_backslash {
            prev_backslash = false;
        } else if c == '\\' {
            prev_backslash = true;
        } else if c == '"' && !in_single {
            in_double = !in_double;
        } else if c == '\'' && !in_double {
            in_single = !in_single;
        }
        i = i + 1;
    }
    assert(text@.subrange(0, text.len() as int) == text@);
    in_double || in_single
}

/// Whether `text` ends inside an unterminated string literal.
pub fn is_inside_string(text: &str) -> (r: bool)
    ensures
        r == inside_string(text@),
{
    let v = chars_of(text);
    is_inside_string_chars(&v)
}

// ---------------------------------------------------------------------------
// Embedded line numbers
// ---------------------------------------------------------------------------

/// The largest `u32`.
pub open spec fn u32_max() -> nat {
    0xffff_ffff
}

/// The first line of `s`, or the empty line when `s` has none.
pub open spec fn first_line(s: Seq<char>) -> Seq<char> {
    if lines(s).len() > 0 {
        lines(s)[0]
    } else {
        Seq::empty()
    }
}

/// Content already carries line numbers when its first line has a `':'` and
/// the text before the first `':'` parses as a `u32`.
pub open spec fn has_embedded_numbers(s: Seq<char>) -> bool {
    starts_with_number(first_line(s))
}

/// A line that starts with a line number: it has a `':'`, and the text
/// before the first `':'` parses as a `u32`.
pub open spec fn starts_with_number(l: Seq<char>) -> bool {
    match index_of(l, ':') {
        Some(i) => parse_unsigned(l.subrange(0, i), u32_max()) is Some,
        None => false,
    }
}

/// The text after the first `':'` of a line (`split_once(':')`), if any.
pub open spec fn after_colon(l: Seq<char>) -> Option<Seq<char>> {
    match index_of(l, ':') {
        Some(i) => Some(l.subrange(i + 1, l.len() as int)),
        None => None,
    }
}

/// The text after the first `':'` of a line, if it has one.
pub fn after_colon_chars(l: &Vec<char>) -> (r: Option<Vec<char>>)
    ensures
        r matches Some(v) ==> after_colon(l@) == Some(v@),
        r is None ==> after_colon(l@) is None,
{
    proof {
        lemma_index_of(l@, ':');
    }
    match index_of_char(l, ':') {
        Some(i) => Some(subrange_chars(l, i + 1, l.len())),
        None => None,
    }
}

/// The first line of `lines`, or an empty line.
fn first_line_of(ls: &Vec<Vec<char>>) -> (r: Vec<char>)
    ensures
        r@ == (if ls@.len() > 0 {
            ls@[0]@
        } else {
            Seq::<char>::empty()
        }),
{
    if ls.len() > 0 {
        let mut r = Vec::new();
        push_all(&mut r, &ls[0]);
        r
    } else {
        Vec::new()
    }
}

/// Whether the content (given as its lines) carries embedded line numbers.
fn has_embedded_numbers_lines(content: &Vec<char>, ls: &Vec<Vec<char>>) -> (r: bool)
    requires
        views(ls@) == lines(content@),
    ensures
        r == has_embedded_numbers(content@),
{
    let f = first_line_of(ls);
    proof {
        lemma_index_of(f@, ':');
    }
    match index_of_char(&f, ':') {
        Some(i) => {
            let head = subrange_chars(&f, 0, i);
            parse_unsigned_chars(&head, 0xffff_ffff).is_some()
        },
        None => false,
    }
}

// ---------------------------------------------------------------------------
// Removing empty lines
// ---------------------------------------------------------------------------

/// What remains of line `l` (at 0-based position `idx`) when empty lines are
/// removed: with embedded numbers a line is dropped when the text after its
/// first `':'` is blank, and the number is kept or cut off; without them blank
/// lines are dropped and, when numbers are wanted, `"{idx + 1}:"` is prefixed.
pub open spec fn kept_line(l: Seq<char>, idx: int, embedded: bool, preserve: bool) -> Option<
    Seq<char>,
> {
    if embedded {
        match after_colon(l) {
            Some(rest) => if is_blank(rest) {
                None
            } else if preserve {
                Some(l)
            } else {
                Some(rest)
            },
            None => if is_blank(l) {
                None
            } else {
                Some(l)
            },
        }
    } else if is_blank(l) {
        None
    } else if preserve {
        Some(decimal((idx + 1) as nat) + seq![':'] + l)
    } else {
        Some(l)
    }
}

/// The lines that survive, in order.
pub open spec fn kept_lines(ls: Seq<Seq<char>>, embedded: bool, preserve: bool) -> Seq<Seq<char>>
    decreases ls.len(),
{
    if ls.len() == 0 {
        Seq::empty()
    } else {
        let prev = kept_lines(ls.drop_last(), embedded, preserve);
        match kept_line(ls.last(), ls.len() - 1, embedded, preserve) {
            Some(x) => prev.push(x),
            None => prev,
        }
    }
}

/// The result of removing empty lines from `content`: the surviving lines
/// joined with `'\n'`.
pub open spec fn without_empty_lines(content: Seq<char>, preserve: bool) -> Seq<char> {
    join(kept_lines(lines(content), has_embedded_numbers(content), preserve), seq!['\n'])
}

proof fn lemma_kept_lines(ls: Seq<Seq<char>>, embedded: bool, preserve: bool)
    requires
        forall|k: int| 0 <= k < ls.len() ==> newline_free(#[trigger] ls[k]),
    ensures
        kept_lines(ls, embedded, preserve).len() <= ls.len(),
        forall|k: int|
            0 <= k < kept_lines(ls, embedded, preserve).len() ==> newline_free(
                #[trigger] kept_lines(ls, embedded, preserve)[k],
            ),
    decreases ls.len(),
{
    if ls.len() > 0 {
        let pre = ls.drop_last();
        assert forall|k: int| 0 <= k < pre.len() implies newline_free(#[trigger] pre[k]) by {
            assert(pre[k] == ls[k]);
        }
        lemma_kept_lines(pre, embedded, preserve);
        let l = ls.last();
        assert(newline_free(l));
        lemma_decimal_newline_free((ls.len() - 1 + 1) as nat);
        match kept_line(l, ls.len() - 1, embedded, preserve) {
            Some(x) => {
                assert(newline_free(x)) by {
                    if embedded {
                        lemma_index_of(l, ':');
                    }
                }
                let all = kept_lines(ls, embedded, preserve);
                assert forall|k: int| 0 <= k < all.len() implies newline_free(#[trigger] all[k]) by {
                    if k < all.len() - 1 {
                        assert(all[k] == kept_lines(pre, embedded, preserve)[k]);
                    }
                }
            },
            None => {},
        }
    }
}

/// Removing empty lines never leaves more lines than there were.
pub proof fn lemma_without_empty_lines_count(content: Seq<char>, preserve: bool)
    ensures
        lines(without_empty_lines(content, preserve)).len() <= lines(content).len(),
{
    let ls = lines(content);
    lemma_lines_newline_free(content);
    let e = has_embedded_numbers(content);
    lemma_kept_lines(ls, e, preserve);
    lemma_lines_of_join(kept_lines(ls, e, preserve));
}

fn kept_line_chars(l: &Vec<char>, idx: usize, embedded: bool, preserve: bool) -> (r: Option<
    Vec<char>,
>)
    requires
        idx < u64::MAX,
    ensures
        r matches Some(v) ==> kept_line(l@, idx as int, embedded, preserve) == Some(v@),
        r is None ==> kept_line(l@, idx as int, embedded, preserve) is None,
{
    if embedded {
        match after_colon_chars(l) {
            Some(rest) => {
                if is_blank_chars(&rest) {
                    None
                } else if preserve {
                    let mut v = Vec::new();
                    push_all(&mut v, l);
                    Some(v)
                } else {
                    Some(rest)
                }
            },
            None => {
                if is_blank_chars(l) {
                    None
                } else {
                    let mut v = Vec::new();
                    push_all(&mut v, l);
                    Some(v)
                }
            },
        }
    } else if is_blank_chars(l) {
        None
    } else if preserve {
        let mut v = decimal_chars(idx as u64 + 1);
        v.push(':');
        push_all(&mut v, l);
        Some(v)
    } else {
        let mut v = Vec::new();
        push_all(&mut v, l);
        Some(v)
    }
}

/// Removes blank lines from `content`, keeping or adding line numbers.
pub fn remove_empty_lines_chars(content: &Vec<char>, preserve_line_numbers: bool) -> (r: Vec<
    char,
>)
    ensures
        r@ == without_empty_lines(content@, preserve_line_numbers),
{
    let ls = split_lines(content);
    let embedded = has_embedded_numbers_lines(content, &ls);
    let mut kept: Vec<Vec<char>> = Vec::new();
    let mut i: usize = 0;
    while i < ls.len()
        invariant
            i <= ls.len(),
            views(ls@) == lines(content@),
            embedded == has_embedded_numbers(content@),
            views(kept@) == kept_lines(views(ls@).take(i as int), embedded, preserve_line_numbers),
        decreases ls.len() - i,
    {
        let ghost prev = views(kept@);
        proof {
            assert(views(ls@).take(i + 1).drop_last() == views(ls@).take(i as int));
            assert(views(ls@).take(i + 1).last() == ls@[i as int]@);
        }
        match kept_line_chars(&ls[i], i, embedded, preserve_line_numbers) {
            Some(v) => {
                kept.push(v);
                assert(views(kept@) == prev.push(kept@.last()@));
            },
            None => {},
        }
        i = i + 1;
    }
    assert(views(ls@).take(ls.len() as int) == views(ls@));
    join_lines(&kept)
}

/// Removes empty (all-whitespace) lines from `content`; see
/// `without_empty_lines` for the exact result.
pub fn remove_empty_lines_from_content(content: &str, preserve_line_numbers: bool) -> (r: String)
    ensures
        r@ == without_empty_lines(content@, preserve_line_numbers),
{
    let v = chars_of(content);
    let r = remove_empty_lines_chars(&v, preserve_line_numbers);
    string_from_chars(&r)
}

/// The lines of a text that are not blank, in order.
pub open spec fn nonblank(ls: Seq<Seq<char>>) -> Seq<Seq<char>> {
    ls.filter(|l: Seq<char>| !is_blank(l))
}

/// Without embedded numbers and without numbering, the surviving lines are
/// exactly the non-blank ones, and each is kept as it is.
proof fn lemma_plain_kept_lines(ls: Seq<Seq<char>>)
    ensures
        kept_lines(ls, false, false) == nonblank(ls),
        forall|k: int|
            0 <= k < nonblank(ls).len() ==> !is_blank(#[trigger] nonblank(ls)[k]),
    decreases ls.len(),
{
    reveal(Seq::filter);
    if ls.len() > 0 {
        let pre = ls.drop_last();
        lemma_plain_kept_lines(pre);
        let all = nonblank(ls);
        assert forall|k: int| 0 <= k < all.len() implies !is_blank(#[trigger] all[k]) by {
            if k < nonblank(pre).len() {
                assert(all[k] == nonblank(pre)[k]);
            }
        }
    }
}

/// Keeping the non-blank lines of lines that are all non-blank keeps them all.
proof fn lemma_nonblank_of_nonblank(ls: Seq<Seq<char>>)
    requires
        forall|k: int| 0 <= k < ls.len() ==> !is_blank(#[trigger] ls[k]),
    ensures
        nonblank(ls) == ls,
    decreases ls.len(),
{
    reveal(Seq::filter);
    if ls.len() > 0 {
        let pre = ls.drop_last();
        assert forall|k: int| 0 <= k < pre.len() implies !is_blank(#[trigger] pre[k]) by {
            assert(pre[k] == ls[k]);
        }
        lemma_nonblank_of_nonblank(pre);
        assert(!is_blank(ls[ls.len() - 1]));
        assert(pre.push(ls.last()) =~= ls);
    }
}

/// Non-empty lines without line breaks, none but the last ending in `'\r'`,
/// joined with `'\n'`, split back into the same lines.
proof fn lemma_lines_of_join_exact(ls: Seq<Seq<char>>)
    requires
        forall|k: int|
            0 <= k < ls.len() ==> newline_free(#[trigger] ls[k]) && ls[k].len() > 0 && (k + 1
                < ls.len() ==> ls[k].last() != '\r'),
    ensures
        lines(join(ls, seq!['\n'])) == ls,
    decreases ls.len(),
{
    let nl = seq!['\n'];
    if ls.len() == 1 {
        let x = ls[0];
        lemma_index_of(x, '\n');
        if x.contains('\n') {
            let j = choose|j: int| 0 <= j < x.len() && x[j] == '\n';
            assert(false);
        }
        assert(lines(x) =~= seq![x]);
        assert(ls =~= seq![x]);
    } else if ls.len() > 1 {
        let rest = ls.drop_first();
        assert forall|k: int| 0 <= k < rest.len() implies newline_free(#[trigger] rest[k])
            && rest[k].len() > 0 && (k + 1 < rest.len() ==> rest[k].last() != '\r') by {
            assert(rest[k] == ls[k + 1]);
        }
        lemma_join_front(ls);
        lemma_lines_of_join_exact(rest);
        let x = ls[0];
        let j = join(rest, nl);
        let t = x + nl + j;
        lemma_index_of(t, '\n');
        assert(t[x.len() as int] == '\n');
        if index_of(t, '\n') != Some(x.len() as int) {
            let k = index_of(t, '\n')->0;
            assert(k < x.len());
            assert(t[k] == x[k]);
        }
        assert(t.subrange(0, x.len() as int) =~= x);
        assert(t.subrange(x.len() as int + 1, t.len() as int) =~= j);
        assert(x.last() != '\r');
        assert(strip_cr(x) == x);
        assert(lines(t) == seq![strip_cr(x)] + lines(j));
        assert(ls =~= seq![x] + rest);
    }
}

/// Without embedded line numbers and without numbering, removing empty lines
/// keeps exactly the non-blank lines of `content`, unchanged and in order,
/// joined with `'\n'`.
pub proof fn law_remove_empty_lines_keeps_nonblank(content: Seq<char>)
    requires
        !has_embedded_numbers(content),
    ensures
        without_empty_lines(content, false) == join(nonblank(lines(content)), seq!['\n']),
{
    lemma_plain_kept_lines(lines(content));
}

/// Removing empty lines (without numbering) a second time changes nothing,
/// when the first non-blank line does not start with a line number and no
/// non-blank line but the last ends in a carriage return (which the line
/// break added after it would absorb).
pub proof fn law_remove_empty_lines_idempotent(content: Seq<char>)
    requires
        !has_embedded_numbers(content),
        nonblank(lines(content)).len() > 0 ==> !starts_with_number(nonblank(lines(content))[0]),
        forall|k: int|
            0 <= k && k + 1 < nonblank(lines(content)).len() ==> (#[trigger] nonblank(
                lines(content),
            )[k]).last() != '\r',
    ensures
        without_empty_lines(without_empty_lines(content, false), false) == without_empty_lines(
            content,
            false,
        ),
{
    let ls = lines(content);
    let f = nonblank(ls);
    lemma_plain_kept_lines(ls);
    lemma_lines_newline_free(content);
    lemma_kept_lines(ls, false, false);
    assert forall|k: int| 0 <= k < f.len() implies newline_free(#[trigger] f[k]) && f[k].len() > 0
        && (k + 1 < f.len() ==> f[k].last() != '\r') by {
        assert(!is_blank(f[k]));
        assert(kept_lines(ls, false, false)[k] == f[k]);
    }
    let r = join(f, seq!['\n']);
    lemma_lines_of_join_exact(f);
    assert(lines(r) == f);
    assert(!has_embedded_numbers(r));
    lemma_plain_kept_lines(f);
    lemma_nonblank_of_nonblank(f);
}

// ---------------------------------------------------------------------------
// Removing comments
// ---------------------------------------------------------------------------

/// The comment syntax of a (lower-cased) language name:
/// (line comment marker, block start, block end); an empty marker means the
/// language has no such comment.
pub open spec fn comment_syntax(lang: Seq<char>) -> (Seq<char>, Seq<char>, Seq<char>) {
    if lang == "python"@ || lang == "ruby"@ || lang == "shell"@ || lang == "bash"@ || lang
        == "sh"@ || lang == "yaml"@ || lang == "yml"@ {
        ("#"@, ""@, ""@)
    } else if lang == "javascript"@ || lang == "typescript"@ || lang == "java"@ || lang == "c"@
        || lang == "cpp"@ || lang == "c++"@ || lang == "rust"@ || lang == "go"@ || lang
        == "swift"@ || lang == "kotlin"@ || lang == "scala"@ {
        ("//"@, "/*"@, "*/"@)
    } else if lang == "html"@ || lang == "xml"@ {
        (""@, "<!--"@, "-->"@)
    } else if lang == "css"@ || lang == "scss"@ || lang == "sass"@ {
        (""@, "/*"@, "*/"@)
    } else if lang == "sql"@ {
        ("--"@, "/*"@, "*/"@)
    } else if lang == "lua"@ {
        ("--"@, "--[["@, "]]"@)
    } else {
        ("//"@, "/*"@, "*/"@)
    }
}

/// The comment syntax of a lower-cased language name.
pub fn comment_syntax_of(lang: &Vec<char>) -> (r: (&'static str, &'static str, &'static str))
    ensures
        (r.0@, r.1@, r.2@) == comment_syntax(lang@),
{
    if chars_eq_str(lang, "python") || chars_eq_str(lang, "ruby") || chars_eq_str(lang, "shell")
        || chars_eq_str(lang, "bash") || chars_eq_str(lang, "sh") || chars_eq_str(lang, "yaml")
        || chars_eq_str(lang, "yml") {
        ("#", "", "")
    } else if chars_eq_str(lang, "javascript") || chars_eq_str(lang, "typescript")
        || chars_eq_str(lang, "java") || chars_eq_str(lang, "c") || chars_eq_str(lang, "cpp")
        || chars_eq_str(lang, "c++") || chars_eq_str(lang, "rust") || chars_eq_str(lang, "go")
        || chars_eq_str(lang, "swift") || chars_eq_str(lang, "kotlin") || chars_eq_str(
        lang,
        "scala",
    ) {
        ("//", "/*", "*/")
    } else if chars_eq_str(lang, "html") || chars_eq_str(lang, "xml") {
        ("", "<!--", "-->")
    } else if chars_eq_str(lang, "css") || chars_eq_str(lang, "scss") || chars_eq_str(lang, "sass") {
        ("", "/*", "*/")
    } else if chars_eq_str(lang, "sql") {
        ("--", "/*", "*/")
    } else if chars_eq_str(lang, "lua") {
        ("--", "--[[", "]]")
    } else {
        ("//", "/*", "*/")
    }
}


/// The first character of a line's trimmed text occurs in the line.
proof fn lemma_trimmed_start_in_line(line: Seq<char>)
    requires
        trim(line).len() > 0,
    ensures
        line.contains(trim(line)[0]),
{
    let y = trim_start(line);
    lemma_trim_start_shape(line);
    lemma_trim_end_shape(y);
    assert(trim(line)[0] == y[0]);
    assert(y[0] == line[line.len() - y.len()]);
}

/// In the languages with `#` comments (Python, Ruby, shell, YAML) a line
/// whose trimmed text starts with `#` is dropped, a line without `#` is kept
/// as it is, and no block comment is ever opened or closed.
pub proof fn law_hash_comment_languages(
    lang: Seq<char>,
    line: Seq<char>,
    num: nat,
    in_block: bool,
    preserve: bool,
)
    requires
        lang == "python"@ || lang == "ruby"@ || lang == "shell"@ || lang == "bash"@ || lang == "sh"@ || lang == "yaml"@ || lang == "yml"@,
    ensures
        starts_with(trim(line), "#"@) ==> comment_step(line, num, in_block, comment_syntax(lang), preserve)
            == (Seq::<char>::empty(), in_block),
        !line.contains('#') ==> comment_step(line, num, in_block, comment_syntax(lang), preserve)
            == (format_line(num, line, preserve), in_block),
{
    reveal_strlit("#");
    reveal_strlit("");
    if !line.contains('#') {
        if starts_with(trim(line), "#"@) {
            assert(trim(line).subrange(0, 1)[0] == trim(line)[0]);
            assert(trim(line)[0] == '#');
            lemma_trimmed_start_in_line(line);
        }
        lemma_find_from(line, "#"@, 0);
        if find(line, "#"@) is Some {
            let k = find(line, "#"@)->0;
            assert(line.subrange(k, k + 1)[0] == line[k]);
            assert(line[k] == '#');
        }
    }
}

/// The comment syntax of each language, as (line marker, block start, block
/// end): `#` alone for Python, Ruby, shell and YAML; `//` with `/* */` for
/// the C family, Rust, Go, Swift, Kotlin and Scala; `<!-- -->` alone for
/// HTML and XML; `/* */` alone for CSS, SCSS and Sass; `--` with `/* */` for
/// SQL; `--` with `--[[ ]]` for Lua; and `//` with `/* */` for any other
/// language.
#[verifier::rlimit(50)]
pub proof fn law_comment_syntax_by_language(lang: Seq<char>)
    ensures
        lang == "python"@ || lang == "ruby"@ || lang == "shell"@ || lang == "bash"@ || lang == "sh"@ || lang == "yaml"@ || lang == "yml"@ ==> comment_syntax(lang) == ("#"@, ""@, ""@),
        lang == "javascript"@ || lang == "typescript"@ || lang == "java"@ || lang == "c"@ || lang == "cpp"@ || lang == "c++"@ || lang == "rust"@ || lang == "go"@ || lang == "swift"@ || lang == "kotlin"@ || lang == "scala"@ ==> comment_syntax(lang) == ("//"@, "/*"@, "*/"@),
        lang == "html"@ || lang == "xml"@ ==> comment_syntax(lang) == (""@, "<!--"@, "-->"@),
        lang == "css"@ || lang == "scss"@ || lang == "sass"@ ==> comment_syntax(lang) == (""@, "/*"@, "*/"@),
        lang == "sql"@ ==> comment_syntax(lang) == ("--"@, "/*"@, "*/"@),
        lang == "lua"@ ==> comment_syntax(lang) == ("--"@, "--[["@, "]]"@),
        lang != "python"@ && lang != "ruby"@ && lang != "shell"@ && lang != "bash"@ && lang != "sh"@ && lang != "yaml"@ && lang != "yml"@ && lang != "javascript"@ && lang != "typescript"@ && lang != "java"@ && lang != "c"@ && lang != "cpp"@ && lang != "c++"@ && lang != "rust"@ && lang != "go"@ && lang != "swift"@ && lang != "kotlin"@ && lang != "scala"@ && lang != "html"@ && lang != "xml"@ && lang != "css"@ && lang != "scss"@ && lang != "sass"@ && lang != "sql"@ && lang != "lua"@ ==> comment_syntax(lang) == ("//"@, "/*"@, "*/"@),
{
    reveal_strlit("python");
    reveal_strlit("ruby");
    reveal_strlit("shell");
    reveal_strlit("bash");
    reveal_strlit("sh");
    reveal_strlit("yaml");
    reveal_strlit("yml");
    reveal_strlit("javascript");
    reveal_strlit("typescript");
    reveal_strlit("java");
    reveal_strlit("c");
    reveal_strlit("cpp");
    reveal_strlit("c++");
    reveal_strlit("rust");
    reveal_strlit("go");
    reveal_strlit("swift");
    reveal_strlit("kotlin");
    reveal_strlit("scala");
    reveal_strlit("html");
    reveal_strlit("xml");
    reveal_strlit("css");
    reveal_strlit("scss");
    reveal_strlit("sass");
    reveal_strlit("sql");
    reveal_strlit("lua");
    reveal_strlit("#");
    reveal_strlit("");
    reveal_strlit("//");
    reveal_strlit("/*");
    reveal_strlit("*/");
    reveal_strlit("<!--");
    reveal_strlit("-->");
    reveal_strlit("--");
    reveal_strlit("--[[");
    reveal_strlit("]]");
    if lang == "javascript"@ {
        assert("javascript"@.len() != "python"@.len());
        assert("javascript"@.len() != "ruby"@.len());
        assert("javascript"@.len() != "shell"@.len());
        assert("javascript"@.len() != "bash"@.len());
        assert("javascript"@.len() != "sh"@.len());
        assert("javascript"@.len() != "yaml"@.len());
        assert("javascript"@.len() != "yml"@.len());
        assert(comment_syntax(lang) == ("//"@, "/*"@, "*/"@));
    }
    if lang == "typescript"@ {
        assert("typescript"@.len() != "python"@.len());
        assert("typescript"@.len() != "ruby"@.len());
        assert("typescript"@.len() != "shell"@.len());
        assert("typescript"@.len() != "bash"@.len());
        assert("typescript"@.len() != "sh"@.len());
        assert("typescript"@.len() != "yaml"@.len());
        assert("typescript"@.len() != "yml"@.len());
        assert("typescript"@[0] != "javascript"@[0]);
        assert(comment_syntax(lang) == ("//"@, "/*"@, "*/"@));
    }
    if lang == "java"@ {
        assert("java"@.len() != "python"@.len());
        assert("java"@[0] != "ruby"@[0]);
        assert("java"@.len() != "shell"@.len());
        assert("java"@[0] != "bash"@[0]);
        assert("java"@.len() != "sh"@.len());
        assert("java"@[0] != "yaml"@[0]);
        assert("java"@.len() != "yml"@.len());
        assert("java"@.len() != "javascript"@.len());
        assert("java"@.len() != "typescript"@.len());
        assert(comment_syntax(lang) == ("//"@, "/*"@, "*/"@));
    }
    if lang == "c"@ {
        assert("c"@.len() != "python"@.len());
        assert("c"@.len() != "ruby"@.len());
        assert("c"@.len() != "shell"@.len());
        assert("c"@.len() != "bash"@.len());
        assert("c"@.len() != "sh"@.len());
        assert("c"@.len() != "yaml"@.len());
        assert("c"@.len() != "yml"@.len());
        assert("c"@.len() != "javascript"@.len());
        assert("c"@.len() != "typescript"@.len());
        assert("c"@.len() != "java"@.len());
        assert(comment_syntax(lang) == ("//"@, "/*"@, "*/"@));
    }
    if lang == "cpp"@ {
        assert("cpp"@.len() != "python"@.len());
        assert("cpp"@.len() != "ruby"@.len());
        assert("cpp"@.len() != "shell"@.len());
        assert("cpp"@.len() != "bash"@.len());
        assert("cpp"@.len() != "sh"@.len());
        assert("cpp"@.len() != "yaml"@.len());
        assert("cpp"@[0] != "yml"@[0]);
        assert("cpp"@.len() != "javascript"@.len());
        assert("cpp"@.len() != "typescript"@.len());
        assert("cpp"@.len() != "java"@.len());
        assert("cpp"@.len() != "c"@.len());
        assert(comment_syntax(lang) == ("//"@, "/*"@, "*/"@));
    }
    if lang == "c++"@ {
        assert("c++"@.len() != "python"@.len());
        assert("c++"@.len() != "ruby"@.len());
        assert("c++"@.len() != "shell"@.len());
        assert("c++"@.len() != "bash"@.len());
        assert("c++"@.len() != "sh"@.len());
        assert("c++"@.len() != "yaml"@.len());
        assert("c++"@[0] != "yml"@[0]);
        assert("c++"@.len() != "javascript"@.len());
        assert("c++"@.len() != "typescript"@.len());
        assert("c++"@.len() != "java"@.len());
        assert("c++"@.len() != "c"@.len());
        assert("c++"@[1] != "cpp"@[1]);
        assert(comment_syntax(lang) == ("//"@, "/*"@, "*/"@));
    }
    if lang == "rust"@ {
        assert("rust"@.len() != "python"@.len());
        assert("rust"@[2] != "ruby"@[2]);
        assert("rust"@.len() != "shell"@.len());
        assert("rust"@[0] != "bash"@[0]);
        assert("rust"@.len() != "sh"@.len());
        assert("rust"@[0] != "yaml"@[0]);
        assert("rust"@.len() != "yml"@.len());
        assert("rust"@.len() != "javascript"@.len());
        assert("rust"@.len() != "typescript"@.len());
        assert("rust"@[0] != "java"@[0]);
        assert("rust"@.len() != "c"@.len());
        assert("rust"@.len() != "cpp"@.len());
        assert("rust"@.len() != "c++"@.len());
        assert(comment_syntax(lang) == ("//"@, "/*"@, "*/"@));
    }
    if lang == "go"@ {
        assert("go"@.len() != "python"@.len());
        assert("go"@.len() != "ruby"@.len());
        assert("go"@.len() != "shell"@.len());
        assert("go"@.len() != "bash"@.len());
        assert("go"@[0] != "sh"@[0]);
        assert("go"@.len() != "yaml"@.len());
        assert("go"@.len() != "yml"@.len());
        assert("go"@.len() != "javascript"@.len());
        assert("go"@.len() != "typescript"@.len());
        assert("go"@.len() != "java"@.len());
        assert("go"@.len() != "c"@.len());
        assert("go"@.len() != "cpp"@.len());
        assert("go"@.len() != "c++"@.len());
        assert("go"@.len() != "rust"@.len());
        assert(comment_syntax(lang) == ("//"@, "/*"@, "*/"@));
    }
    if lang == "swift"@ {
        assert("swift"@.len() != "python"@.len());
        assert("swift"@.len() != "ruby"@.len());
        assert("swift"@[1] != "shell"@[1]);
        assert("swift"@.len() != "bash"@.len());
        assert("swift"@.len() != "sh"@.len());
        assert("swift"@.len() != "yaml"@.len());
        assert("swift"@.len() != "yml"@.len());
        assert("swift"@.len() != "javascript"@.len());
        assert("swift"@.len() != "typescript"@.len());
        assert("swift"@.len() != "java"@.len());
        assert("swift"@.len() != "c"@.len());
        assert("swift"@.len() != "cpp"@.len());
        assert("swift"@.len() != "c++"@.len());
        assert("swift"@.len() != "rust"@.len());
        assert("swift"@.len() != "go"@.len());
        assert(comment_syntax(lang) == ("//"@, "/*"@, "*/"@));
    }
    if lang == "kotlin"@ {
        assert("kotlin"@[0] != "python"@[0]);
        assert("kotlin"@.len() != "ruby"@.len());
        assert("kotlin"@.len() != "shell"@.len());
        assert("kotlin"@.len() != "bash"@.len());
        assert("kotlin"@.len() != "sh"@.len());
        assert("kotlin"@.len() != "yaml"@.len());
        assert("kotlin"@.len() != "yml"@.len());
        assert("kotlin"@.len() != "javascript"@.len());
        assert("kotlin"@.len() != "typescript"@.len());
        assert("kotlin"@.len() != "java"@.len());
        assert("kotlin"@.len() != "c"@.len());
        assert("kotlin"@.len() != "cpp"@.len());
        assert("kotlin"@.len() != "c++"@.len());
        assert("kotlin"@.len() != "rust"@.len());
        assert("kotlin"@.len() != "go"@.len());
        assert("kotlin"@.len() != "swift"@.len());
        assert(comment_syntax(lang) == ("//"@, "/*"@, "*/"@));
    }
    if lang == "scala"@ {
        assert("scala"@.len() != "python"@.len());
        assert("scala"@.len() != "ruby"@.len());
        assert("scala"@[1] != "shell"@[1]);
        assert("scala"@.len() != "bash"@.len());
        assert("scala"@.len() != "sh"@.len());
        assert("scala"@.len() != "yaml"@.len());
        assert("scala"@.len() != "yml"@.len());
        assert("scala"@.len() != "javascript"@.len());
        assert("scala"@.len() != "typescript"@.len());
        assert("scala"@.len() != "java"@.len());
        assert("scala"@.len() != "c"@.len());
        assert("scala"@.len() != "cpp"@.len());
        assert("scala"@.len() != "c++"@.len());
        assert("scala"@.len() != "rust"@.len());
        assert("scala"@.len() != "go"@.len());
        assert("scala"@[1] != "swift"@[1]);
        assert("scala"@.len() != "kotlin"@.len());
        assert(comment_syntax(lang) == ("//"@, "/*"@, "*/"@));
    }
    if lang == "html"@ {
        assert("html"@.len() != "python"@.len());
        assert("html"@[0] != "ruby"@[0]);
        assert("html"@.len() != "shell"@.len());
        assert("html"@[0] != "bash"@[0]);
        assert("html"@.len() != "sh"@.len());
        assert("html"@[0] != "yaml"@[0]);
        assert("html"@.len() != "yml"@.len());
        assert("html"@.len() != "javascript"@.len());
        assert("html"@.len() != "typescript"@.len());
        assert("html"@[0] != "java"@[0]);
        assert("html"@.len() != "c"@.len());
        assert("html"@.len() != "cpp"@.len());
        assert("html"@.len() != "c++"@.len());
        assert("html"@[0] != "rust"@[0]);
        assert("html"@.len() != "go"@.len());
        assert("html"@.len() != "swift"@.len());
        assert("html"@.len() != "kotlin"@.len());
        assert("html"@.len() != "scala"@.len());
        assert(comment_syntax(lang) == (""@, "<!--"@, "-->"@));
    }
    if lang == "xml"@ {
        assert("xml"@.len() != "python"@.len());
        assert("xml"@.len() != "ruby"@.len());
        assert("xml"@.len() != "shell"@.len());
        assert("xml"@.len() != "bash"@.len());
        assert("xml"@.len() != "sh"@.len());
        assert("xml"@.len() != "yaml"@.len());
        assert("xml"@[0] != "yml"@[0]);
        assert("xml"@.len() != "javascript"@.len());
        assert("xml"@.len() != "typescript"@.len());
        assert("xml"@.len() != "java"@.len());
        assert("xml"@.len() != "c"@.len());
        assert("xml"@[0] != "cpp"@[0]);
        assert("xml"@[0] != "c++"@[0]);
        assert("xml"@.len() != "rust"@.len());
        assert("xml"@.len() != "go"@.len());
        assert("xml"@.len() != "swift"@.len());
        assert("xml"@.len() != "kotlin"@.len());
        assert("xml"@.len() != "scala"@.len());
        assert("xml"@.len() != "html"@.len());
        assert(comment_syntax(lang) == (""@, "<!--"@, "-->"@));
    }
    if lang == "css"@ {
        assert("css"@.len() != "python"@.len());
        assert("css"@.len() != "ruby"@.len());
        assert("css"@.len() != "shell"@.len());
        assert("css"@.len() != "bash"@.len());
        assert("css"@.len() != "sh"@.len());
        assert("css"@.len() != "yaml"@.len());
        assert("css"@[0] != "yml"@[0]);
        assert("css"@.len() != "javascript"@.len());
        assert("css"@.len() != "typescript"@.len());
        assert("css"@.len() != "java"@.len());
        assert("css"@.len() != "c"@.len());
        assert("css"@[1] != "cpp"@[1]);
        assert("css"@[1] != "c++"@[1]);
        assert("css"@.len() != "rust"@.len());
        assert("css"@.len() != "go"@.len());
        assert("css"@.len() != "swift"@.len());
        assert("css"@.len() != "kotlin"@.len());
        assert("css"@.len() != "scala"@.len());
        assert("css"@.len() != "html"@.len());
        assert("css"@[0] != "xml"@[0]);
        assert(comment_syntax(lang) == (""@, "/*"@, "*/"@));
    }
    if lang == "scss"@ {
        assert("scss"@.len() != "python"@.len());
        assert("scss"@[0] != "ruby"@[0]);
        assert("scss"@.len() != "shell"@.len());
        assert("scss"@[0] != "bash"@[0]);
        assert("scss"@.len() != "sh"@.len());
        assert("scss"@[0] != "yaml"@[0]);
        assert("scss"@.len() != "yml"@.len());
        assert("scss"@.len() != "javascript"@.len());
        assert("scss"@.len() != "typescript"@.len());
        assert("scss"@[0] != "java"@[0]);
        assert("scss"@.len() != "c"@.len());
        assert("scss"@.len() != "cpp"@.len());
        assert("scss"@.len() != "c++"@.len());
        assert("scss"@[0] != "rust"@[0]);
        assert("scss"@.len() != "go"@.len());
        assert("scss"@.len() != "swift"@.len());
        assert("scss"@.len() != "kotlin"@.len());
        assert("scss"@.len() != "scala"@.len());
        assert("scss"@[0] != "html"@[0]);
        assert("scss"@.len() != "xml"@.len());
        assert("scss"@.len() != "css"@.len());
        assert(comment_syntax(lang) == (""@, "/*"@, "*/"@));
    }
    if lang == "sass"@ {
        assert("sass"@.len() != "python"@.len());
        assert("sass"@[0] != "ruby"@[0]);
        assert("sass"@.len() != "shell"@.len());
        assert("sass"@[0] != "bash"@[0]);
        assert("sass"@.len() != "sh"@.len());
        assert("sass"@[0] != "yaml"@[0]);
        assert("sass"@.len() != "yml"@.len());
        assert("sass"@.len() != "javascript"@.len());
        assert("sass"@.len() != "typescript"@.len());
        assert("sass"@[0] != "java"@[0]);
        assert("sass"@.len() != "c"@.len());
        assert("sass"@.len() != "cpp"@.len());
        assert("sass"@.len() != "c++"@.len());
        assert("sass"@[0] != "rust"@[0]);
        assert("sass"@.len() != "go"@.len());
        assert("sass"@.len() != "swift"@.len());
        assert("sass"@.len() != "kotlin"@.len());
        assert("sass"@.len() != "scala"@.len());
        assert("sass"@[0] != "html"@[0]);
        assert("sass"@.len() != "xml"@.len());
        assert("sass"@.len() != "css"@.len());
        assert("sass"@[1] != "scss"@[1]);
        assert(comment_syntax(lang) == (""@, "/*"@, "*/"@));
    }
    if lang == "sql"@ {
        assert("sql"@.len() != "python"@.len());
        assert("sql"@.len() != "ruby"@.len());
        assert("sql"@.len() != "shell"@.len());
        assert("sql"@.len() != "bash"@.len());
        assert("sql"@.len() != "sh"@.len());
        assert("sql"@.len() != "yaml"@.len());
        assert("sql"@[0] != "yml"@[0]);
        assert("sql"@.len() != "javascript"@.len());
        assert("sql"@.len() != "typescript"@.len());
        assert("sql"@.len() != "java"@.len());
        assert("sql"@.len() != "c"@.len());
        assert("sql"@[0] != "cpp"@[0]);
        assert("sql"@[0] != "c++"@[0]);
        assert("sql"@.len() != "rust"@.len());
        assert("sql"@.len() != "go"@.len());
        assert("sql"@.len() != "swift"@.len());
        assert("sql"@.len() != "kotlin"@.len());
        assert("sql"@.len() != "scala"@.len());
        assert("sql"@.len() != "html"@.len());
        assert("sql"@[0] != "xml"@[0]);
        assert("sql"@[0] != "css"@[0]);
        assert("sql"@.len() != "scss"@.len());
        assert("sql"@.len() != "sass"@.len());
        assert(comment_syntax(lang) == ("--"@, "/*"@, "*/"@));
    }
    if lang == "lua"@ {
        assert("lua"@.len() != "python"@.len());
        assert("lua"@.len() != "ruby"@.len());
        assert("lua"@.len() != "shell"@.len());
        assert("lua"@.len() != "bash"@.len());
        assert("lua"@.len() != "sh"@.len());
        assert("lua"@.len() != "yaml"@.len());
        assert("lua"@[0] != "yml"@[0]);
        assert("lua"@.len() != "javascript"@.len());
        assert("lua"@.len() != "typescript"@.len());
        assert("lua"@.len() != "java"@.len());
        assert("lua"@.len() != "c"@.len());
        assert("lua"@[0] != "cpp"@[0]);
        assert("lua"@[0] != "c++"@[0]);
        assert("lua"@.len() != "rust"@.len());
        assert("lua"@.len() != "go"@.len());
        assert("lua"@.len() != "swift"@.len());
        assert("lua"@.len() != "kotlin"@.len());
        assert("lua"@.len() != "scala"@.len());
        assert("lua"@.len() != "html"@.len());
        assert("lua"@[0] != "xml"@[0]);
        assert("lua"@[0] != "css"@[0]);
        assert("lua"@.len() != "scss"@.len());
        assert("lua"@.len() != "sass"@.len());
        assert("lua"@[0] != "sql"@[0]);
        assert(comment_syntax(lang) == ("--"@, "--[["@, "]]"@));
    }
}

/// An output line: `"{num}:{text}\n"` when numbers are kept, else `"{text}\n"`.
pub open spec fn format_line(num: nat, text: Seq<char>, preserve: bool) -> Seq<char> {
    if preserve {
        decimal(num) + seq![':'] + text + seq!['\n']
    } else {
        text + seq!['\n']
    }
}

/// The line number and text of the line at 0-based position `idx`: with
/// embedded numbers a leading `"N:"` (N a `u32`) supplies the number and is cut
/// off; otherwise the number is `idx + 1`.
pub open spec fn numbered_line(raw: Seq<char>, idx: int, embedded: bool) -> (nat, Seq<char>) {
    if embedded {
        match index_of(raw, ':') {
            Some(i) => match parse_unsigned(raw.subrange(0, i), u32_max()) {
                Some(n) => (n, raw.subrange(i + 1, raw.len() as int)),
                None => ((idx + 1) as nat, raw),
            },
            None => ((idx + 1) as nat, raw),
        }
    } else {
        ((idx + 1) as nat, raw)
    }
}

/// One line outside any block comment, under line-comment marker `lc`: a line
/// whose trimmed text starts with the marker is dropped; otherwise text from
/// the first marker on is cut when that marker is not inside a string literal
/// (the rest kept only when something is left); otherwise the line is kept.
pub open spec fn line_comment_output(line: Seq<char>, num: nat, lc: Seq<char>, preserve: bool) -> Seq<
    char,
> {
    if lc.len() != 0 && starts_with(trim(line), lc) {
        Seq::empty()
    } else if lc.len() != 0 && find(line, lc) is Some && !inside_string(
        line.subrange(0, find(line, lc)->0),
    ) {
        let cleaned = trim_end(line.subrange(0, find(line, lc)->0));
        if cleaned.len() != 0 {
            format_line(num, cleaned, preserve)
        } else {
            Seq::empty()
        }
    } else {
        format_line(num, line, preserve)
    }
}

/// The output of one line and the new "inside a block comment" state.
pub open spec fn comment_step(
    line: Seq<char>,
    num: nat,
    in_block: bool,
    syntax: (Seq<char>, Seq<char>, Seq<char>),
    preserve: bool,
) -> (Seq<char>, bool) {
    let (lc, bs, be) = syntax;
    if bs.len() != 0 && be.len() != 0 {
        if in_block {
            match find(line, be) {
                Some(idx) => {
                    let after = line.subrange(idx + be.len(), line.len() as int);
                    (
                        if !is_blank(after) {
                            format_line(num, after, preserve)
                        } else {
                            Seq::empty()
                        },
                        false,
                    )
                },
                None => (Seq::empty(), true),
            }
        } else {
            match find(line, bs) {
                Some(idx) => {
                    let tail = line.subrange(idx + bs.len(), line.len() as int);
                    let before = line.subrange(0, idx);
                    match find(tail, be) {
                        Some(e) => {
                            let after = tail.subrange(e + be.len(), tail.len() as int);
                            let combined = trim_end(before) + after;
                            (
                                if !is_blank(combined) {
                                    format_line(num, combined, preserve)
                                } else {
                                    Seq::empty()
                                },
                                false,
                            )
                        },
                        None => (
                            if !is_blank(before) {
                                format_line(num, trim_end(before), preserve)
                            } else {
                                Seq::empty()
                            },
                            true,
                        ),
                    }
                },
                None => (line_comment_output(line, num, lc, preserve), false),
            }
        }
    } else {
        (line_comment_output(line, num, lc, preserve), in_block)
    }
}

/// Comment removal over the lines `ls`, scanned from the first: the output so
/// far and whether a block comment is still open.
pub open spec fn strip_comments(
    ls: Seq<Seq<char>>,
    embedded: bool,
    syntax: (Seq<char>, Seq<char>, Seq<char>),
    preserve: bool,
) -> (Seq<char>, bool)
    decreases ls.len(),
{
    if ls.len() == 0 {
        (Seq::empty(), false)
    } else {
        let (out, st) = strip_comments(ls.drop_last(), embedded, syntax, preserve);
        let (num, line) = numbered_line(ls.last(), ls.len() - 1, embedded);
        let (o, st2) = comment_step(line, num, st, syntax, preserve);
        (out + o, st2)
    }
}

/// The result of removing comments from `content` written in `language`.
pub open spec fn without_comments(content: Seq<char>, language: Seq<char>, preserve: bool) -> Seq<
    char,
> {
    strip_comments(
        lines(content),
        has_embedded_numbers(content),
        comment_syntax(lowercase(language)),
        preserve,
    ).0
}

fn format_line_chars(num: u32, text: &Vec<char>, preserve: bool) -> (r: Vec<char>)
    ensures
        r@ == format_line(num as nat, text@, preserve),
{
    let mut r: Vec<char> = if preserve {
        let mut d = decimal_chars(num as u64);
        d.push(':');
        d
    } else {
        Vec::new()
    };
    push_all(&mut r, text);
    r.push('\n');
    r
}

fn numbered_line_chars(raw: &Vec<char>, idx: usize, embedded: bool) -> (r: (u32, Vec<char>))
    requires
        idx < u32_max(),
    ensures
        (r.0 as nat, r.1@) == numbered_line(raw@, idx as int, embedded),
{
    let default_num: u32 = (idx + 1) as u32;
    if embedded {
        match index_of_char(raw, ':') {
            Some(i) => {
                let head = subrange_chars(raw, 0, i);
                match parse_unsigned_chars(&head, 0xffff_ffff) {
                    Some(n) => (n as u32, subrange_chars(raw, i + 1, raw.len())),
                    None => (default_num, copy_chars(raw)),
                }
            },
            None => (default_num, copy_chars(raw)),
        }
    } else {
        (default_num, copy_chars(raw))
    }
}

fn copy_chars(s: &Vec<char>) -> (r: Vec<char>)
    ensures
        r@ == s@,
{
    let mut r = Vec::new();
    push_all(&mut r, s);
    r
}

fn line_comment_output_chars(line: &Vec<char>, num: u32, lc: &Vec<char>, preserve: bool) -> (r: Vec<
    char,
>)
    ensures
        r@ == line_comment_output(line@, num as nat, lc@, preserve),
{
    if lc.len() != 0 {
        let t = trim_chars(line);
        if occurs_at_chars(&t, lc, 0) {
            return Vec::new();
        }
        match find_chars(line, lc) {
            Some(idx) => {
                proof {
                    lemma_find_from(line@, lc@, 0);
                }
                let before = subrange_chars(line, 0, idx);
                if !is_inside_string_chars(&before) {
                    let cleaned = trim_end_chars(&before);
                    if cleaned.len() != 0 {
                        return format_line_chars(num, &cleaned, preserve);
                    } else {
                        return Vec::new();
                    }
                }
            },
            None => {},
        }
    }
    format_line_chars(num, line, preserve)
}

fn comment_step_chars(
    line: &Vec<char>,
    num: u32,
    in_block: bool,
    lc: &Vec<char>,
    bs: &Vec<char>,
    be: &Vec<char>,
    preserve: bool,
) -> (r: (Vec<char>, bool))
    ensures
        (r.0@, r.1) == comment_step(line@, num as nat, in_block, (lc@, bs@, be@), preserve),
{
    if bs.len() != 0 && be.len() != 0 {
        if in_block {
            match find_chars(line, be) {
                Some(idx) => {
                    proof {
                        lemma_find_from(line@, be@, 0);
                    }
                    let after = subrange_chars(line, idx + be.len(), line.len());
                    if !is_blank_chars(&after) {
                        (format_line_chars(num, &after, preserve), false)
                    } else {
                        (Vec::new(), false)
                    }
                },
                None => (Vec::new(), true),
            }
        } else {
            match find_chars(line, bs) {
                Some(idx) => {
                    proof {
                        lemma_find_from(line@, bs@, 0);
                    }
                    let tail = subrange_chars(line, idx + bs.len(), line.len());
                    let before = subrange_chars(line, 0, idx);
                    match find_chars(&tail, be) {
                        Some(e) => {
                            proof {
                                lemma_find_from(tail@, be@, 0);
                            }
                            let after = subrange_chars(&tail, e + be.len(), tail.len());
                            let mut combined = trim_end_chars(&before);
                            push_all(&mut combined, &after);
                            if !is_blank_chars(&combined) {
                                (format_line_chars(num, &combined, preserve), false)
                            } else {
                                (Vec::new(), false)
                            }
                        },
                        None => {
                            if !is_blank_chars(&before) {
                                let t = trim_end_chars(&before);
                                (format_line_chars(num, &t, preserve), true)
                            } else {
                                (Vec::new(), true)
                            }
                        },
                    }
                },
                None => (line_comment_output_chars(line, num, lc, preserve), false),
            }
        }
    } else {
        (line_comment_output_chars(line, num, lc, preserve), in_block)
    }
}

/// Removes comments from `content` given as characters and a lower-cased
/// language name.
pub fn remove_comments_chars(content: &Vec<char>, lang: &Vec<char>, preserve_line_numbers: bool) -> (r:
    Vec<char>)
    requires
        lines(content@).len() < u32_max(),
    ensures
        r@ == strip_comments(
            lines(content@),
            has_embedded_numbers(content@),
            comment_syntax(lang@),
            preserve_line_numbers,
        ).0,
{
    let (lc_s, bs_s, be_s) = comment_syntax_of(lang);
    let lc = chars_of(lc_s);
    let bs = chars_of(bs_s);
    let be = chars_of(be_s);
    let ls = split_lines(content);
    let embedded = has_embedded_numbers_lines(content, &ls);
    let mut result: Vec<char> = Vec::new();
    let mut in_block = false;
    let mut i: usize = 0;
    while i < ls.len()
        invariant
            i <= ls.len(),
            ls.len() < u32_max(),
            views(ls@) == lines(content@),
            embedded == has_embedded_numbers(content@),
            (lc@, bs@, be@) == comment_syntax(lang@),
            (result@, in_block) == strip_comments(
                views(ls@).take(i as int),
                embedded,
                (lc@, bs@, be@),
                preserve_line_numbers,
            ),
        decreases ls.len() - i,
    {
        proof {
            assert(views(ls@).take(i + 1).drop_last() == views(ls@).take(i as int));
            assert(views(ls@).take(i + 1).last() == ls@[i as int]@);
        }
        let (num, line) = numbered_line_chars(&ls[i], i, embedded);
        let (o, st) = comment_step_chars(&line, num, in_block, &lc, &bs, &be, preserve_line_numbers);
        push_all(&mut result, &o);
        in_block = st;
        i = i + 1;
    }
    assert(views(ls@).take(ls.len() as int) == views(ls@));
    result
}

/// Removes comments from `content` written in `language` (matched
/// case-insensitively); see `without_comments` for the exact result.
pub fn remove_comments_from_content(content: &str, language: &str, preserve_line_numbers: bool) -> (r:
    String)
    requires
        lines(content@).len() < u32_max(),
    ensures
        r@ == without_comments(content@, language@, preserve_line_numbers),
        is_ascii(language@) ==> r@ == strip_comments(
            lines(content@),
            has_embedded_numbers(content@),
            comment_syntax(ascii_lower(language@)),
            preserve_line_numbers,
        ).0,
{
    let v = chars_of(content);
    let lang = to_lowercase_chars(language);
    let r = remove_comments_chars(&v, &lang, preserve_line_numbers);
    string_from_chars(&r)
}

// ---------------------------------------------------------------------------
// Heuristic signature extraction
// ---------------------------------------------------------------------------

/// The line prefixes that mark a declaration in a (lower-cased) language.
pub open spec fn signature_patterns(lang: Seq<char>) -> Seq<Seq<char>> {
    if lang == "python"@ {
        seq!["def "@, "class "@, "async def "@]
    } else if lang == "javascript"@ || lang == "typescript"@ || lang == "jsx"@ || lang == "tsx"@ {
        seq!["function "@, "class "@, "const "@, "let "@, "export "@, "async "@]
    } else if lang == "rust"@ {
        seq!["fn "@, "pub fn "@, "struct "@, "enum "@, "trait "@, "impl "@, "type "@, "const "@]
    } else if lang == "go"@ {
        seq!["func "@, "type "@, "const "@, "var "@]
    } else if lang == "java"@ || lang == "kotlin"@ {
        seq!["public "@, "private "@, "protected "@, "class "@, "interface "@, "enum "@]
    } else if lang == "c"@ || lang == "cpp"@ || lang == "c++"@ {
        seq!["void "@, "int "@, "char "@, "bool "@, "class "@, "struct "@, "enum "@]
    } else {
        seq!["def "@, "fn "@, "func "@, "function "@, "class "@, "struct "@]
    }
}

/// A line is a signature line when its trimmed text starts with a pattern.
pub open spec fn is_signature_line(l: Seq<char>, pats: Seq<Seq<char>>) -> bool {
    exists|k: int| 0 <= k < pats.len() && starts_with(trim(l), #[trigger] pats[k])
}

/// The signature lines of `ls`, each followed by `'\n'`.
pub open spec fn signature_lines(ls: Seq<Seq<char>>, pats: Seq<Seq<char>>) -> Seq<char>
    decreases ls.len(),
{
    if ls.len() == 0 {
        Seq::empty()
    } else {
        signature_lines(ls.drop_last(), pats) + if is_signature_line(ls.last(), pats) {
            ls.last() + seq!['\n']
        } else {
            Seq::empty()
        }
    }
}

/// The heuristic signature view of `content`: its signature lines, or, when
/// there are none, its first 50 lines joined with `'\n'`.
pub open spec fn heuristic_signatures(content: Seq<char>, language: Seq<char>) -> Seq<char> {
    signatures_for(content, lowercase(language))
}

/// The heuristic signature view of `content` for a lower-cased language
/// name; see `heuristic_signatures`.
pub open spec fn signatures_for(content: Seq<char>, lang: Seq<char>) -> Seq<char> {
    let ls = lines(content);
    let out = signature_lines(ls, signature_patterns(lang));
    if out.len() == 0 {
        join(ls.take(if ls.len() < 50 {
            ls.len() as int
        } else {
            50
        }), seq!['\n'])
    } else {
        out
    }
}

/// A declaration line in Python: `def `, `class `, `async def ` — a line is a
/// signature line exactly when its trimmed text starts with one of these.
pub proof fn law_python_signatures(lang: Seq<char>, l: Seq<char>)
    requires
        lang == "python"@,
    ensures
        is_signature_line(l, signature_patterns(lang)) <==> (starts_with(trim(l), "def "@)
            || starts_with(trim(l), "class "@)
            || starts_with(trim(l), "async def "@)),
{
    let pats = signature_patterns(lang);
    assert(pats =~= seq!["def "@, "class "@, "async def "@]);
    assert(pats[0] == "def "@);
    assert(pats[1] == "class "@);
    assert(pats[2] == "async def "@);
    if is_signature_line(l, pats) {
        let k = choose|k: int| 0 <= k < pats.len() && starts_with(trim(l), #[trigger] pats[k]);
        assert(starts_with(trim(l), pats[k]));
    }
}

/// A declaration line in JavaScript and TypeScript (and JSX/TSX): `function `, `class `, `const `, `let `, `export `, `async ` — a line is a
/// signature line exactly when its trimmed text starts with one of these.
pub proof fn law_script_signatures(lang: Seq<char>, l: Seq<char>)
    requires
        lang == "javascript"@ || lang == "typescript"@ || lang == "jsx"@ || lang == "tsx"@,
    ensures
        is_signature_line(l, signature_patterns(lang)) <==> (starts_with(trim(l), "function "@)
            || starts_with(trim(l), "class "@)
            || starts_with(trim(l), "const "@)
            || starts_with(trim(l), "let "@)
            || starts_with(trim(l), "export "@)
            || starts_with(trim(l), "async "@)),
{
    reveal_strlit("javascript");
    reveal_strlit("typescript");
    reveal_strlit("jsx");
    reveal_strlit("tsx");
    reveal_strlit("python");
    if lang == "javascript"@ {
        assert("javascript"@.len() != "python"@.len());
    }
    if lang == "typescript"@ {
        assert("typescript"@.len() != "python"@.len());
    }
    if lang == "jsx"@ {
        assert("jsx"@.len() != "python"@.len());
    }
    if lang == "tsx"@ {
        assert("tsx"@.len() != "python"@.len());
    }
    let pats = signature_patterns(lang);
    assert(pats =~= seq!["function "@, "class "@, "const "@, "let "@, "export "@, "async "@]);
    assert(pats[0] == "function "@);
    assert(pats[1] == "class "@);
    assert(pats[2] == "const "@);
    assert(pats[3] == "let "@);
    assert(pats[4] == "export "@);
    assert(pats[5] == "async "@);
    if is_signature_line(l, pats) {
        let k = choose|k: int| 0 <= k < pats.len() && starts_with(trim(l), #[trigger] pats[k]);
        assert(starts_with(trim(l), pats[k]));
    }
}

/// A declaration line in Rust: `fn `, `pub fn `, `struct `, `enum `, `trait `, `impl `, `type `, `const ` — a line is a
/// signature line exactly when its trimmed text starts with one of these.
pub proof fn law_rust_signatures(lang: Seq<char>, l: Seq<char>)
    requires
        lang == "rust"@,
    ensures
        is_signature_line(l, signature_patterns(lang)) <==> (starts_with(trim(l), "fn "@)
            || starts_with(trim(l), "pub fn "@)
            || starts_with(trim(l), "struct "@)
            || starts_with(trim(l), "enum "@)
            || starts_with(trim(l), "trait "@)
            || starts_with(trim(l), "impl "@)
            || starts_with(trim(l), "type "@)
            || starts_with(trim(l), "const "@)),
{
    reveal_strlit("rust");
    reveal_strlit("python");
    reveal_strlit("javascript");
    reveal_strlit("typescript");
    reveal_strlit("jsx");
    reveal_strlit("tsx");
    if lang == "rust"@ {
        assert("rust"@.len() != "python"@.len());
        assert("rust"@.len() != "javascript"@.len());
        assert("rust"@.len() != "typescript"@.len());
        assert("rust"@.len() != "jsx"@.len());
        assert("rust"@.len() != "tsx"@.len());
    }
    let pats = signature_patterns(lang);
    assert(pats =~= seq!["fn "@, "pub fn "@, "struct "@, "enum "@, "trait "@, "impl "@, "type "@, "const "@]);
    assert(pats[0] == "fn "@);
    assert(pats[1] == "pub fn "@);
    assert(pats[2] == "struct "@);
    assert(pats[3] == "enum "@);
    assert(pats[4] == "trait "@);
    assert(pats[5] == "impl "@);
    assert(pats[6] == "type "@);
    assert(pats[7] == "const "@);
    if is_signature_line(l, pats) {
        let k = choose|k: int| 0 <= k < pats.len() && starts_with(trim(l), #[trigger] pats[k]);
        assert(starts_with(trim(l), pats[k]));
    }
}

/// A declaration line in Go: `func `, `type `, `const `, `var ` — a line is a
/// signature line exactly when its trimmed text starts with one of these.
pub proof fn law_go_signatures(lang: Seq<char>, l: Seq<char>)
    requires
        lang == "go"@,
    ensures
        is_signature_line(l, signature_patterns(lang)) <==> (starts_with(trim(l), "func "@)
            || starts_with(trim(l), "type "@)
            || starts_with(trim(l), "const "@)
            || starts_with(trim(l), "var "@)),
{
    reveal_strlit("go");
    reveal_strlit("python");
    reveal_strlit("javascript");
    reveal_strlit("typescript");
    reveal_strlit("jsx");
    reveal_strlit("tsx");
    reveal_strlit("rust");
    if lang == "go"@ {
        assert("go"@.len() != "python"@.len());
        assert("go"@.len() != "javascript"@.len());
        assert("go"@.len() != "typescript"@.len());
        assert("go"@.len() != "jsx"@.len());
        assert("go"@.len() != "tsx"@.len());
        assert("go"@.len() != "rust"@.len());
    }
    let pats = signature_patterns(lang);
    assert(pats =~= seq!["func "@, "type "@, "const "@, "var "@]);
    assert(pats[0] == "func "@);
    assert(pats[1] == "type "@);
    assert(pats[2] == "const "@);
    assert(pats[3] == "var "@);
    if is_signature_line(l, pats) {
        let k = choose|k: int| 0 <= k < pats.len() && starts_with(trim(l), #[trigger] pats[k]);
        assert(starts_with(trim(l), pats[k]));
    }
}

/// A declaration line in Java and Kotlin: `public `, `private `, `protected `, `class `, `interface `, `enum ` — a line is a
/// signature line exactly when its trimmed text starts with one of these.
pub proof fn law_java_signatures(lang: Seq<char>, l: Seq<char>)
    requires
        lang == "java"@ || lang == "kotlin"@,
    ensures
        is_signature_line(l, signature_patterns(lang)) <==> (starts_with(trim(l), "public "@)
            || starts_with(trim(l), "private "@)
            || starts_with(trim(l), "protected "@)
            || starts_with(trim(l), "class "@)
            || starts_with(trim(l), "interface "@)
            || starts_with(trim(l), "enum "@)),
{
    reveal_strlit("java");
    reveal_strlit("kotlin");
    reveal_strlit("python");
    reveal_strlit("javascript");
    reveal_strlit("typescript");
    reveal_strlit("jsx");
    reveal_strlit("tsx");
    reveal_strlit("rust");
    reveal_strlit("go");
    if lang == "java"@ {
        assert("java"@.len() != "python"@.len());
        assert("java"@.len() != "javascript"@.len());
        assert("java"@.len() != "typescript"@.len());
        assert("java"@.len() != "jsx"@.len());
        assert("java"@.len() != "tsx"@.len());
        assert("java"@[0] != "rust"@[0]);
        assert("java"@.len() != "go"@.len());
    }
    if lang == "kotlin"@ {
        assert("kotlin"@[0] != "python"@[0]);
        assert("kotlin"@.len() != "javascript"@.len());
        assert("kotlin"@.len() != "typescript"@.len());
        assert("kotlin"@.len() != "jsx"@.len());
        assert("kotlin"@.len() != "tsx"@.len());
        assert("kotlin"@.len() != "rust"@.len());
        assert("kotlin"@.len() != "go"@.len());
    }
    let pats = signature_patterns(lang);
    assert(pats =~= seq!["public "@, "private "@, "protected "@, "class "@, "interface "@, "enum "@]);
    assert(pats[0] == "public "@);
    assert(pats[1] == "private "@);
    assert(pats[2] == "protected "@);
    assert(pats[3] == "class "@);
    assert(pats[4] == "interface "@);
    assert(pats[5] == "enum "@);
    if is_signature_line(l, pats) {
        let k = choose|k: int| 0 <= k < pats.len() && starts_with(trim(l), #[trigger] pats[k]);
        assert(starts_with(trim(l), pats[k]));
    }
}

/// A declaration line in C and C++: `void `, `int `, `char `, `bool `, `class `, `struct `, `enum ` — a line is a
/// signature line exactly when its trimmed text starts with one of these.
pub proof fn law_c_signatures(lang: Seq<char>, l: Seq<char>)
    requires
        lang == "c"@ || lang == "cpp"@ || lang == "c++"@,
    ensures
        is_signature_line(l, signature_patterns(lang)) <==> (starts_with(trim(l), "void "@)
            || starts_with(trim(l), "int "@)
            || starts_with(trim(l), "char "@)
            || starts_with(trim(l), "bool "@)
            || starts_with(trim(l), "class "@)
            || starts_with(trim(l), "struct "@)
            || starts_with(trim(l), "enum "@)),
{
    reveal_strlit("c");
    reveal_strlit("cpp");
    reveal_strlit("c++");
    reveal_strlit("python");
    reveal_strlit("javascript");
    reveal_strlit("typescript");
    reveal_strlit("jsx");
    reveal_strlit("tsx");
    reveal_strlit("rust");
    reveal_strlit("go");
    reveal_strlit("java");
    reveal_strlit("kotlin");
    if lang == "c"@ {
        assert("c"@.len() != "python"@.len());
        assert("c"@.len() != "javascript"@.len());
        assert("c"@.len() != "typescript"@.len());
        assert("c"@.len() != "jsx"@.len());
        assert("c"@.len() != "tsx"@.len());
        assert("c"@.len() != "rust"@.len());
        assert("c"@.len() != "go"@.len());
        assert("c"@.len() != "java"@.len());
        assert("c"@.len() != "kotlin"@.len());
    }
    if lang == "cpp"@ {
        assert("cpp"@.len() != "python"@.len());
        assert("cpp"@.len() != "javascript"@.len());
        assert("cpp"@.len() != "typescript"@.len());
        assert("cpp"@[0] != "jsx"@[0]);
        assert("cpp"@[0] != "tsx"@[0]);
        assert("cpp"@.len() != "rust"@.len());
        assert("cpp"@.len() != "go"@.len());
        assert("cpp"@.len() != "java"@.len());
        assert("cpp"@.len() != "kotlin"@.len());
    }
    if lang == "c++"@ {
        assert("c++"@.len() != "python"@.len());
        assert("c++"@.len() != "javascript"@.len());
        assert("c++"@.len() != "typescript"@.len());
        assert("c++"@[0] != "jsx"@[0]);
        assert("c++"@[0] != "tsx"@[0]);
        assert("c++"@.len() != "rust"@.len());
        assert("c++"@.len() != "go"@.len());
        assert("c++"@.len() != "java"@.len());
        assert("c++"@.len() != "kotlin"@.len());
    }
    let pats = signature_patterns(lang);
    assert(pats =~= seq!["void "@, "int "@, "char "@, "bool "@, "class "@, "struct "@, "enum "@]);
    assert(pats[0] == "void "@);
    assert(pats[1] == "int "@);
    assert(pats[2] == "char "@);
    assert(pats[3] == "bool "@);
    assert(pats[4] == "class "@);
    assert(pats[5] == "struct "@);
    assert(pats[6] == "enum "@);
    if is_signature_line(l, pats) {
        let k = choose|k: int| 0 <= k < pats.len() && starts_with(trim(l), #[trigger] pats[k]);
        assert(starts_with(trim(l), pats[k]));
    }
}

/// A declaration line in any other language: `def `, `fn `, `func `, `function `, `class `, `struct ` — a line is a
/// signature line exactly when its trimmed text starts with one of these.
pub proof fn law_other_signatures(lang: Seq<char>, l: Seq<char>)
    requires
        lang != "python"@ && lang != "javascript"@ && lang != "typescript"@ && lang != "jsx"@ && lang != "tsx"@ && lang != "rust"@ && lang != "go"@ && lang != "java"@ && lang != "kotlin"@ && lang != "c"@ && lang != "cpp"@ && lang != "c++"@,
    ensures
        is_signature_line(l, signature_patterns(lang)) <==> (starts_with(trim(l), "def "@)
            || starts_with(trim(l), "fn "@)
            || starts_with(trim(l), "func "@)
            || starts_with(trim(l), "function "@)
            || starts_with(trim(l), "class "@)
            || starts_with(trim(l), "struct "@)),
{
    reveal_strlit("python");
    reveal_strlit("javascript");
    reveal_strlit("typescript");
    reveal_strlit("jsx");
    reveal_strlit("tsx");
    reveal_strlit("rust");
    reveal_strlit("go");
    reveal_strlit("java");
    reveal_strlit("kotlin");
    reveal_strlit("c");
    reveal_strlit("cpp");
    reveal_strlit("c++");
    let pats = signature_patterns(lang);
    assert(pats =~= seq!["def "@, "fn "@, "func "@, "function "@, "class "@, "struct "@]);
    assert(pats[0] == "def "@);
    assert(pats[1] == "fn "@);
    assert(pats[2] == "func "@);
    assert(pats[3] == "function "@);
    assert(pats[4] == "class "@);
    assert(pats[5] == "struct "@);
    if is_signature_line(l, pats) {
        let k = choose|k: int| 0 <= k < pats.len() && starts_with(trim(l), #[trigger] pats[k]);
        assert(starts_with(trim(l), pats[k]));
    }
}

proof fn lemma_signature_line_kept(ls: Seq<Seq<char>>, pats: Seq<Seq<char>>, k: int)
    requires
        0 <= k < ls.len(),
        is_signature_line(ls[k], pats),
    ensures
        exists|a: Seq<char>, b: Seq<char>| signature_lines(ls, pats) == a + ls[k] + seq!['\n'] + b,
    decreases ls.len(),
{
    let pre = ls.drop_last();
    if k == ls.len() - 1 {
        let a = signature_lines(pre, pats);
        let b = Seq::<char>::empty();
        assert(signature_lines(ls, pats) == a + ls[k] + seq!['\n'] + b);
    } else {
        assert(pre[k] == ls[k]);
        lemma_signature_line_kept(pre, pats, k);
        let (a, b) = choose|a: Seq<char>, b: Seq<char>| signature_lines(pre, pats) == a + pre[k]
            + seq!['\n'] + b;
        let piece = if is_signature_line(ls.last(), pats) {
            ls.last() + seq!['\n']
        } else {
            Seq::<char>::empty()
        };
        assert(signature_lines(ls, pats) == a + ls[k] + seq!['\n'] + (b + piece));
    }
}

/// Every declaration line of the content appears, whole and followed by a
/// line break, in the heuristic signature view.
pub proof fn law_signature_lines_kept(content: Seq<char>, lang: Seq<char>, k: int)
    requires
        0 <= k < lines(content).len(),
        is_signature_line(lines(content)[k], signature_patterns(lang)),
    ensures
        exists|a: Seq<char>, b: Seq<char>| signatures_for(content, lang) == a + lines(content)[k]
            + seq!['\n'] + b,
{
    let ls = lines(content);
    let pats = signature_patterns(lang);
    lemma_signature_line_kept(ls, pats, k);
    let (a, b) = choose|a: Seq<char>, b: Seq<char>| signature_lines(ls, pats) == a + ls[k]
        + seq!['\n'] + b;
    assert(signature_lines(ls, pats).len() > 0);
    assert(signatures_for(content, lang) == a + ls[k] + seq!['\n'] + b);
}

fn push_lit(v: &mut Vec<Vec<char>>, s: &str)
    ensures
        views(final(v)@) == views(old(v)@).push(s@),
{
    let c = chars_of(s);
    v.push(c);
    assert(views(v@) =~= views(old(v)@).push(s@));
}

/// The declaration prefixes of a lower-cased language name.
pub fn signature_patterns_of(lang: &Vec<char>) -> (r: Vec<Vec<char>>)
    ensures
        views(r@) == signature_patterns(lang@),
{
    let mut r: Vec<Vec<char>> = Vec::new();
    if chars_eq_str(lang, "python") {
        push_lit(&mut r, "def ");
        push_lit(&mut r, "class ");
        push_lit(&mut r, "async def ");
    } else if chars_eq_str(lang, "javascript") || chars_eq_str(lang, "typescript")
        || chars_eq_str(lang, "jsx") || chars_eq_str(lang, "tsx") {
        push_lit(&mut r, "function ");
        push_lit(&mut r, "class ");
        push_lit(&mut r, "const ");
        push_lit(&mut r, "let ");
        push_lit(&mut r, "export ");
        push_lit(&mut r, "async ");
    } else if chars_eq_str(lang, "rust") {
        push_lit(&mut r, "fn ");
        push_lit(&mut r, "pub fn ");
        push_lit(&mut r, "struct ");
        push_lit(&mut r, "enum ");
        push_lit(&mut r, "trait ");
        push_lit(&mut r, "impl ");
        push_lit(&mut r, "type ");
        push_lit(&mut r, "const ");
    } else if chars_eq_str(lang, "go") {
        push_lit(&mut r, "func ");
        push_lit(&mut r, "type ");
        push_lit(&mut r, "const ");
        push_lit(&mut r, "var ");
    } else if chars_eq_str(lang, "java") || chars_eq_str(lang, "kotlin") {
        push_lit(&mut r, "public ");
        push_lit(&mut r, "private ");
        push_lit(&mut r, "protected ");
        push_lit(&mut r, "class ");
        push_lit(&mut r, "interface ");
        push_lit(&mut r, "enum ");
    } else if chars_eq_str(lang, "c") || chars_eq_str(lang, "cpp") || chars_eq_str(lang, "c++") {
        push_lit(&mut r, "void ");
        push_lit(&mut r, "int ");
        push_lit(&mut r, "char ");
        push_lit(&mut r, "bool ");
        push_lit(&mut r, "class ");
        push_lit(&mut r, "struct ");
        push_lit(&mut r, "enum ");
    } else {
        push_lit(&mut r, "def ");
        push_lit(&mut r, "fn ");
        push_lit(&mut r, "func ");
        push_lit(&mut r, "function ");
        push_lit(&mut r, "class ");
        push_lit(&mut r, "struct ");
    }
    r
}

/// Whether the trimmed line starts with one of the patterns.
pub fn is_signature_line_chars(l: &Vec<char>, pats: &Vec<Vec<char>>) -> (r: bool)
    ensures
        r == is_signature_line(l@, views(pats@)),
{
    let t = trim_chars(l);
    let mut k: usize = 0;
    while k < pats.len()
        invariant
            k <= pats.len(),
            t@ == trim(l@),
            forall|j: int| 0 <= j < k ==> !starts_with(trim(l@), #[trigger] views(pats@)[j]),
        decreases pats.len() - k,
    {
        if occurs_at_chars(&t, &pats[k], 0) {
            assert(starts_with(trim(l@), views(pats@)[k as int]));
            return true;
        }
        k = k + 1;
    }
    false
}

/// Heuristic signature extraction on characters, with a lower-cased language.
pub fn extract_signatures_heuristic_chars(content: &Vec<char>, lang: &Vec<char>) -> (r: Vec<char>)
    ensures
        r@ == ({
            let ls = lines(content@);
            let out = signature_lines(ls, signature_patterns(lang@));
            if out.len() == 0 {
                join(ls.take(if ls.len() < 50 {
                    ls.len() as int
                } else {
                    50
                }), seq!['\n'])
            } else {
                out
            }
        }),
{
    let pats = signature_patterns_of(lang);
    let ls = split_lines(content);
    let mut result: Vec<char> = Vec::new();
    let mut i: usize = 0;
    while i < ls.len()
        invariant
            i <= ls.len(),
            views(ls@) == lines(content@),
            views(pats@) == signature_patterns(lang@),
            result@ == signature_lines(views(ls@).take(i as int), views(pats@)),
        decreases ls.len() - i,
    {
        proof {
            assert(views(ls@).take(i + 1).drop_last() == views(ls@).take(i as int));
            assert(views(ls@).take(i + 1).last() == ls@[i as int]@);
        }
        if is_signature_line_chars(&ls[i], &pats) {
            push_all(&mut result, &ls[i]);
            result.push('\n');
        }
        i = i + 1;
    }
    assert(views(ls@).take(ls.len() as int) == views(ls@));
    if result.len() == 0 {
        let n: usize = if ls.len() < 50 {
            ls.len()
        } else {
            50
        };
        let mut first: Vec<Vec<char>> = Vec::new();
        let mut j: usize = 0;
        while j < n
            invariant
                j <= n <= ls.len(),
                views(first@) == views(ls@).take(j as int),
            decreases n - j,
        {
            let ghost prev = views(first@);
            first.push(copy_chars(&ls[j]));
            j = j + 1;
            assert(views(first@) =~= prev.push(ls@[j - 1]@));
            assert(views(first@) =~= views(ls@).take(j as int));
        }
        join_lines(&first)
    } else {
        result
    }
}

/// Keeps the declaration lines of `content` (by language keywords, matched
/// case-insensitively on the language name), or its first 50 lines when it
/// has none; see `heuristic_signatures`.
pub fn extract_signatures_heuristic(content: &str, language: &str) -> (r: String)
    ensures
        r@ == heuristic_signatures(content@, language@),
        is_ascii(language@) ==> r@ == signatures_for(content@, ascii_lower(language@)),
{
    let v = chars_of(content);
    let lang = to_lowercase_chars(language);
    let r = extract_signatures_heuristic_chars(&v, &lang);
    string_from_chars(&r)
}

} // verus!

verus! {

// ---------------------------------------------------------------------------
// Truncating embedded base64
// ---------------------------------------------------------------------------

/// The pattern of embedded base64: a data URI, or a run of at least 200
/// base64 characters, each with optional `=` padding.
pub open spec fn base64_pattern() -> Seq<char> {
    "data:[^;]+;base64,[A-Za-z0-9+/]*={0,2}|[A-Za-z0-9+/]{200,}={0,2}"@
}

/// Whether `regex::Regex::new` accepts `pattern`.
pub uninterp spec fn regex_valid(pattern: Seq<char>) -> bool;

/// What `regex::Regex::find_iter` finds for `pattern` in `content`
/// (leftmost-first, non-overlapping): each match with the text before it,
/// and the text after the last match.
pub uninterp spec fn regex_matches(pattern: Seq<char>, content: Seq<char>) -> (
    Seq<(Seq<char>, Seq<char>)>,
    Seq<char>,
);

/// The pieces concatenated back: gaps and matches in order, then the rest.
pub open spec fn rejoin_pieces(pieces: Seq<(Seq<char>, Seq<char>)>) -> Seq<char>
    decreases pieces.len(),
{
    if pieces.len() == 0 {
        Seq::empty()
    } else {
        rejoin_pieces(pieces.drop_last()) + pieces.last().0 + pieces.last().1
    }
}

/// The gaps and matches as character sequences.
pub open spec fn piece_views(v: Seq<(Vec<char>, Vec<char>)>) -> Seq<(Seq<char>, Seq<char>)> {
    v.map_values(|p: (Vec<char>, Vec<char>)| (p.0@, p.1@))
}

/// Compiles `pattern` with `regex::Regex::new` and finds its matches in
/// `content` with `Regex::find_iter`, returning each match with the text
/// before it and the text after the last match. Claimed: `None` exactly when
/// the pattern does not compile; otherwise the result is determined by the
/// pattern and the content (`regex_matches`), and gaps, matches and rest
/// concatenate back to the content.
#[verifier::external_body]
fn find_regex_matches(pattern: &str, content: &str) -> (r: Option<
    (Vec<(Vec<char>, Vec<char>)>, Vec<char>),
>)
    ensures
        r is Some == regex_valid(pattern@),
        r matches Some(x) ==> (piece_views(x.0@), x.1@) == regex_matches(pattern@, content@),
        r matches Some(x) ==> rejoin_pieces(piece_views(x.0@)) + x.1@ == content@,
{
    let re = match regex::Regex::new(pattern) {
        Ok(re) => re,
        Err(_) => return None,
    };
    let mut pieces = Vec::new();
    let mut last: usize = 0;
    for m in re.find_iter(content) {
        pieces.push((content[last..m.start()].chars().collect(), m.as_str().chars().collect()));
        last = m.end();
    }
    Some((pieces, content[last..].chars().collect()))
}

/// What one base64 match becomes: a data URI keeps its header up to the first
/// comma followed by a marker (only the marker when it has no comma); a run
/// longer than 100 characters that holds `+` or `/` keeps its first 50
/// characters and a marker; anything else is kept.
pub open spec fn truncated_match(m: Seq<char>) -> Seq<char> {
    if starts_with(m, "data:"@) {
        match index_of(m, ',') {
            Some(i) => m.subrange(0, i + 1) + "[BASE64_TRUNCATED]"@,
            None => "[BASE64_TRUNCATED]"@,
        }
    } else if m.len() > 100 && (m.contains('+') || m.contains('/')) {
        m.subrange(0, 50) + "...[BASE64_TRUNCATED]"@
    } else {
        m
    }
}

/// The replacement for one base64 match.
pub fn truncate_base64_match(m: &Vec<char>) -> (r: Vec<char>)
    ensures
        r@ == truncated_match(m@),
{
    if starts_with_str(m, "data:") {
        proof {
            lemma_index_of(m@, ',');
        }
        match index_of_char(m, ',') {
            Some(i) => {
                let mut r = subrange_chars(m, 0, i + 1);
                push_str(&mut r, "[BASE64_TRUNCATED]");
                r
            },
            None => chars_of("[BASE64_TRUNCATED]"),
        }
    } else if m.len() > 100 && (contains_char(m, '+') || contains_char(m, '/')) {
        let mut r = subrange_chars(m, 0, 50);
        push_str(&mut r, "...[BASE64_TRUNCATED]");
        r
    } else {
        copy_chars(m)
    }
}

/// The content with every base64 match replaced by `truncated_match`.
pub open spec fn replace_pieces(pieces: Seq<(Seq<char>, Seq<char>)>) -> Seq<char>
    decreases pieces.len(),
{
    if pieces.len() == 0 {
        Seq::empty()
    } else {
        replace_pieces(pieces.drop_last()) + pieces.last().0 + truncated_match(pieces.last().1)
    }
}

/// The result of truncating the base64 in `content`: every match of
/// `base64_pattern` replaced by `truncated_match` (the content unchanged
/// should the pattern not compile).
pub open spec fn without_base64(content: Seq<char>) -> Seq<char> {
    if regex_valid(base64_pattern()) {
        let (pieces, rest) = regex_matches(base64_pattern(), content);
        replace_pieces(pieces) + rest
    } else {
        content
    }
}

/// Shortens data URIs and long base64 runs in `content`; see
/// `without_base64`.
pub fn truncate_base64_content(content: &str) -> (r: String)
    ensures
        r@ == without_base64(content@),
{
    let pattern = "data:[^;]+;base64,[A-Za-z0-9+/]*={0,2}|[A-Za-z0-9+/]{200,}={0,2}";
    match find_regex_matches(pattern, content) {
        Some((pieces, rest)) => replace_base64_pieces(&pieces, &rest),
        None => {
            let v = chars_of(content);
            string_from_chars(&v)
        },
    }
}

/// Puts content back together from its base64 matches, each with the text
/// before it, and the text after the last: the gaps as they are, each match
/// replaced by `truncated_match`.
pub fn replace_base64_pieces(pieces: &Vec<(Vec<char>, Vec<char>)>, rest: &Vec<char>) -> (r: String)
    ensures
        r@ == replace_pieces(piece_views(pieces@)) + rest@,
{
    let ghost pv = piece_views(pieces@);
    let mut out: Vec<char> = Vec::new();
    let mut i: usize = 0;
    while i < pieces.len()
        invariant
            i <= pieces.len(),
            pv == pieces@.map_values(|p: (Vec<char>, Vec<char>)| (p.0@, p.1@)),
            out@ == replace_pieces(pv.take(i as int)),
        decreases pieces.len() - i,
    {
        proof {
            assert(pv.take(i + 1).drop_last() == pv.take(i as int));
            assert(pv.take(i + 1).last() == pv[i as int]);
        }
        push_all(&mut out, &pieces[i].0);
        let t = truncate_base64_match(&pieces[i].1);
        push_all(&mut out, &t);
        i = i + 1;
    }
    assert(pv.take(pieces.len() as int) == pv);
    push_all(&mut out, rest);
    string_from_chars(&out)
}

} // verus!
