//! Character-level text model: strings are viewed as `Seq<char>`.
//!
//! The spec functions here give a direct meaning to the handful of string
//! operations the commands use (`lines`, `trim`, `find`, `starts_with`,
//! decimal formatting and unsigned parsing); the executable functions compute
//! them on `Vec<char>` and are proved against those meanings.

use vstd::prelude::*;

verus! {

// ---------------------------------------------------------------------------
// Whitespace
// ---------------------------------------------------------------------------

/// The Unicode `White_Space` property, which is what `char::is_whitespace`
/// tests.
pub open spec fn is_ws(c: char) -> bool {
    ||| ('\t' <= c && c <= '\r')
    ||| c == ' '
    ||| c == '\u{85}'
    ||| c == '\u{a0}'
    ||| c == '\u{1680}'
    ||| ('\u{2000}' <= c && c <= '\u{200a}')
    ||| c == '\u{2028}'
    ||| c == '\u{2029}'
    ||| c == '\u{202f}'
    ||| c == '\u{205f}'
    ||| c == '\u{3000}'
}

/// Whether `c` is a whitespace character.
pub fn char_is_whitespace(c: char) -> (b: bool)
    ensures
        b == is_ws(c),
{
    ('\t' <= c && c <= '\r') || c == ' ' || c == '\u{85}' || c == '\u{a0}' || c == '\u{1680}'
        || ('\u{2000}' <= c && c <= '\u{200a}') || c == '\u{2028}' || c == '\u{2029}'
        || c == '\u{202f}' || c == '\u{205f}' || c == '\u{3000}'
}

/// Every character of `s` is whitespace (so `s.trim()` is empty).
pub open spec fn is_blank(s: Seq<char>) -> bool {
    forall|i: int| 0 <= i < s.len() ==> is_ws(#[trigger] s[i])
}

/// `s` with trailing whitespace removed (`str::trim_end`).
pub open spec fn trim_end(s: Seq<char>) -> Seq<char>
    decreases s.len(),
{
    if s.len() > 0 && is_ws(s.last()) {
        trim_end(s.drop_last())
    } else {
        s
    }
}

/// `s` with leading whitespace removed (`str::trim_start`).
pub open spec fn trim_start(s: Seq<char>) -> Seq<char>
    decreases s.len(),
{
    if s.len() > 0 && is_ws(s[0]) {
        trim_start(s.drop_first())
    } else {
        s
    }
}

/// `s` with leading and trailing whitespace removed (`str::trim`).
pub open spec fn trim(s: Seq<char>) -> Seq<char> {
    trim_end(trim_start(s))
}

/// `trim_end(s)` is a prefix of `s` and everything it drops is whitespace.
pub proof fn lemma_trim_end_shape(s: Seq<char>)
    ensures
        trim_end(s).len() <= s.len(),
        trim_end(s) == s.subrange(0, trim_end(s).len() as int),
        forall|i: int| trim_end(s).len() <= i < s.len() ==> is_ws(#[trigger] s[i]),
        trim_end(s).len() > 0 ==> !is_ws(trim_end(s).last()),
    decreases s.len(),
{
    if s.len() > 0 && is_ws(s.last()) {
        lemma_trim_end_shape(s.drop_last());
        let t = trim_end(s.drop_last());
        assert(s.drop_last().subrange(0, t.len() as int) == s.subrange(0, t.len() as int));
        assert forall|i: int| t.len() <= i < s.len() implies is_ws(#[trigger] s[i]) by {
            if i < s.len() - 1 {
                assert(s.drop_last()[i] == s[i]);
            }
        }
    } else {
        assert(s.subrange(0, s.len() as int) == s);
    }
}

/// `trim_start(s)` is a suffix of `s` and everything it drops is whitespace.
pub proof fn lemma_trim_start_shape(s: Seq<char>)
    ensures
        trim_start(s).len() <= s.len(),
        trim_start(s) == s.subrange(s.len() - trim_start(s).len(), s.len() as int),
        forall|i: int| 0 <= i < s.len() - trim_start(s).len() ==> is_ws(#[trigger] s[i]),
        trim_start(s).len() > 0 ==> !is_ws(trim_start(s)[0]),
    decreases s.len(),
{
    if s.len() > 0 && is_ws(s[0]) {
        lemma_trim_start_shape(s.drop_first());
        let t = trim_start(s.drop_first());
        assert(s.drop_first().subrange(s.len() - 1 - t.len(), s.len() - 1) == s.subrange(
            s.len() - t.len(),
            s.len() as int,
        ));
        assert forall|i: int| 0 <= i < s.len() - t.len() implies is_ws(#[trigger] s[i]) by {
            if i > 0 {
                assert(s.drop_first()[i - 1] == s[i]);
            }
        }
    } else {
        assert(s.subrange(0, s.len() as int) == s);
    }
}

/// Whether every character of `s` is whitespace.
pub fn is_blank_chars(s: &Vec<char>) -> (b: bool)
    ensures
        b == is_blank(s@),
{
    let mut i: usize = 0;
    while i < s.len()
        invariant
            i <= s.len(),
            forall|j: int| 0 <= j < i ==> is_ws(#[trigger] s@[j]),
        decreases s.len() - i,
    {
        if !char_is_whitespace(s[i]) {
            return false;
        }
        i = i + 1;
    }
    true
}

/// `str::trim_end` on a character vector.
pub fn trim_end_chars(s: &Vec<char>) -> (r: Vec<char>)
    ensures
        r@ == trim_end(s@),
{
    let mut n: usize = s.len();
    assert(s@.subrange(0, n as int) == s@);
    while n > 0 && char_is_whitespace(s[n - 1])
        invariant
            n <= s.len(),
            trim_end(s@) == trim_end(s@.subrange(0, n as int)),
        decreases n,
    {
        assert(s@.subrange(0, n as int).drop_last() == s@.subrange(0, n - 1));
        n = n - 1;
    }
    proof {
        let t = s@.subrange(0, n as int);
        assert(t.len() > 0 ==> t.last() == s@[n - 1]);
    }
    subrange_chars(s, 0, n)
}

/// `str::trim_start` on a character vector.
pub fn trim_start_chars(s: &Vec<char>) -> (r: Vec<char>)
    ensures
        r@ == trim_start(s@),
{
    let mut k: usize = 0;
    assert(s@.subrange(0, s.len() as int) == s@);
    while k < s.len() && char_is_whitespace(s[k])
        invariant
            k <= s.len(),
            trim_start(s@) == trim_start(s@.subrange(k as int, s.len() as int)),
        decreases s.len() - k,
    {
        assert(s@.subrange(k as int, s.len() as int).drop_first() == s@.subrange(
            k + 1,
            s.len() as int,
        ));
        k = k + 1;
    }
    proof {
        let t = s@.subrange(k as int, s.len() as int);
        assert(t.len() > 0 ==> t[0] == s@[k as int]);
    }
    subrange_chars(s, k, s.len())
}

/// `str::trim` on a character vector.
pub fn trim_chars(s: &Vec<char>) -> (r: Vec<char>)
    ensures
        r@ == trim(s@),
{
    let t = trim_start_chars(s);
    trim_end_chars(&t)
}

// ---------------------------------------------------------------------------
// Basic sequence operations
// ---------------------------------------------------------------------------

/// The characters of a string slice, in order.
pub fn chars_of(s: &str) -> (v: Vec<char>)
    ensures
        v@ == s@,
{
    let mut v: Vec<char> = Vec::new();
    for c in it: s.chars()
        invariant
            v@ == it.seq().take(it.index()),
            it.seq() == s@,
    {
        v.push(c);
    }
    v
}

/// Builds a `String` holding exactly the given characters; the body is
/// `FromIterator<&char> for String` (`Iterator::collect`), which the standard
/// library documents as concatenating the characters in order.
#[verifier::external_body]
pub(crate) fn string_from_chars(v: &Vec<char>) -> (s: String)
    ensures
        s@ == v@,
{
    v.iter().collect::<String>()
}

/// The characters `s[start..end]`.
pub fn subrange_chars(s: &Vec<char>, start: usize, end: usize) -> (r: Vec<char>)
    requires
        start <= end <= s.len(),
    ensures
        r@ == s@.subrange(start as int, end as int),
{
    let mut r: Vec<char> = Vec::new();
    let mut i = start;
    while i < end
        invariant
            start <= i <= end <= s.len(),
            r@ == s@.subrange(start as int, i as int),
        decreases end - i,
    {
        r.push(s[i]);
        i = i + 1;
        assert(r@ == s@.subrange(start as int, i as int));
    }
    r
}

/// Appends all of `s` to `out`.
pub fn push_all(out: &mut Vec<char>, s: &Vec<char>)
    ensures
        final(out)@ == old(out)@ + s@,
{
    let mut i: usize = 0;
    while i < s.len()
        invariant
            i <= s.len(),
            out@ == old(out)@ + s@.subrange(0, i as int),
        decreases s.len() - i,
    {
        out.push(s[i]);
        i = i + 1;
        assert(out@ == old(out)@ + s@.subrange(0, i as int));
    }
    assert(s@.subrange(0, s.len() as int) == s@);
}

/// Appends the characters of a string slice to `out`.
pub fn push_str(out: &mut Vec<char>, s: &str)
    ensures
        final(out)@ == old(out)@ + s@,
{
    let v = chars_of(s);
    push_all(out, &v);
}

/// Sequence equality of two character vectors.
pub fn chars_eq(a: &Vec<char>, b: &Vec<char>) -> (r: bool)
    ensures
        r == (a@ == b@),
{
    if a.len() != b.len() {
        return false;
    }
    let mut i: usize = 0;
    while i < a.len()
        invariant
            a.len() == b.len(),
            i <= a.len(),
            forall|j: int| 0 <= j < i ==> a@[j] == b@[j],
        decreases a.len() - i,
    {
        if a[i] != b[i] {
            return false;
        }
        i = i + 1;
    }
    assert(a@ =~= b@);
    true
}

/// Whether the characters equal a string literal.
pub fn chars_eq_str(a: &Vec<char>, s: &str) -> (r: bool)
    ensures
        r == (a@ == s@),
{
    let b = chars_of(s);
    chars_eq(a, &b)
}

// ---------------------------------------------------------------------------
// Substring search
// ---------------------------------------------------------------------------

/// `p` occurs in `s` at position `i`.
pub open spec fn occurs_at(s: Seq<char>, p: Seq<char>, i: int) -> bool {
    0 <= i && i + p.len() <= s.len() && s.subrange(i, i + p.len()) == p
}

/// The first position at or after `i` where `p` occurs in `s`.
pub open spec fn find_from(s: Seq<char>, p: Seq<char>, i: int) -> Option<int>
    decreases s.len() + 1 - i,
{
    if i < 0 || i + p.len() > s.len() {
        None
    } else if occurs_at(s, p, i) {
        Some(i)
    } else {
        find_from(s, p, i + 1)
    }
}

/// The first position where `p` occurs in `s` (`str::find`).
pub open spec fn find(s: Seq<char>, p: Seq<char>) -> Option<int> {
    find_from(s, p, 0)
}

/// `str::starts_with`.
pub open spec fn starts_with(s: Seq<char>, p: Seq<char>) -> bool {
    occurs_at(s, p, 0)
}

/// `str::ends_with`.
pub open spec fn ends_with(s: Seq<char>, p: Seq<char>) -> bool {
    p.len() <= s.len() && occurs_at(s, p, s.len() - p.len())
}

/// `str::contains`.
pub open spec fn contains(s: Seq<char>, p: Seq<char>) -> bool {
    find(s, p) is Some
}

/// What `find_from` returns: an occurrence, with none before it.
pub proof fn lemma_find_from(s: Seq<char>, p: Seq<char>, i: int)
    requires
        0 <= i,
    ensures
        find_from(s, p, i) matches Some(k) ==> i <= k && occurs_at(s, p, k) && forall|j: int|
            i <= j < k ==> !occurs_at(s, p, j),
        find_from(s, p, i) is None ==> forall|j: int| i <= j ==> !occurs_at(s, p, j),
    decreases s.len() + 1 - i,
{
    if i + p.len() > s.len() {
    } else if occurs_at(s, p, i) {
    } else {
        lemma_find_from(s, p, i + 1);
        if find_from(s, p, i + 1) is None {
            assert forall|j: int| i <= j implies !occurs_at(s, p, j) by {
                if j > i {
                }
            }
        }
    }
}

/// Whether `p` occurs in `s` at position `i`.
pub fn occurs_at_chars(s: &Vec<char>, p: &Vec<char>, i: usize) -> (r: bool)
    ensures
        r == occurs_at(s@, p@, i as int),
{
    if i > s.len() || p.len() > s.len() - i {
        return false;
    }
    let mut j: usize = 0;
    while j < p.len()
        invariant
            i + p.len() <= s.len(),
            j <= p.len(),
            forall|k: int| 0 <= k < j ==> s@[i + k] == p@[k],
        decreases p.len() - j,
    {
        if s[i + j] != p[j] {
            assert(s@.subrange(i as int, i + p.len())[j as int] != p@[j as int]);
            return false;
        }
        j = j + 1;
    }
    assert(s@.subrange(i as int, i + p.len()) =~= p@);
    true
}

/// The first position at or after `from` where `p` occurs in `s`.
pub fn find_from_chars(s: &Vec<char>, p: &Vec<char>, from: usize) -> (r: Option<usize>)
    ensures
        r matches Some(k) ==> find_from(s@, p@, from as int) == Some(k as int) && k + p.len()
            <= s.len(),
        r is None ==> find_from(s@, p@, from as int) is None,
{
    let mut i = from;
    while i <= s.len() && p.len() <= s.len() - i
        invariant
            from <= i,
            find_from(s@, p@, from as int) == find_from(s@, p@, i as int),
        decreases s.len() + 1 - i,
    {
        if occurs_at_chars(s, p, i) {
            return Some(i);
        }
        if i == s.len() {
            assert(find_from(s@, p@, i + 1) is None);
            return None;
        }
        i = i + 1;
    }
    None
}

/// The first position where `p` occurs in `s`.
pub fn find_chars(s: &Vec<char>, p: &Vec<char>) -> (r: Option<usize>)
    ensures
        r matches Some(k) ==> find(s@, p@) == Some(k as int) && k + p.len() <= s.len(),
        r is None ==> find(s@, p@) is None,
{
    find_from_chars(s, p, 0)
}

/// Whether `s` starts with the literal `p`.
pub fn starts_with_str(s: &Vec<char>, p: &str) -> (r: bool)
    ensures
        r == starts_with(s@, p@),
{
    let pv = chars_of(p);
    occurs_at_chars(s, &pv, 0)
}

/// Whether `s` ends with the literal `p`.
pub fn ends_with_str(s: &Vec<char>, p: &str) -> (r: bool)
    ensures
        r == ends_with(s@, p@),
{
    let pv = chars_of(p);
    if pv.len() > s.len() {
        return false;
    }
    occurs_at_chars(s, &pv, s.len() - pv.len())
}

/// Whether `s` contains the literal `p`.
pub fn contains_str(s: &Vec<char>, p: &str) -> (r: bool)
    ensures
        r == contains(s@, p@),
{
    let pv = chars_of(p);
    find_chars(s, &pv).is_some()
}

/// Whether `s` contains the character `c`.
pub fn contains_char(s: &Vec<char>, c: char) -> (r: bool)
    ensures
        r == s@.contains(c),
{
    let mut i: usize = 0;
    while i < s.len()
        invariant
            i <= s.len(),
            forall|j: int| 0 <= j < i ==> s@[j] != c,
        decreases s.len() - i,
    {
        if s[i] == c {
            return true;
        }
        i = i + 1;
    }
    false
}

/// The index of the first `c` in `s`, if any.
pub open spec fn index_of(s: Seq<char>, c: char) -> Option<int>
    decreases s.len(),
{
    if s.len() == 0 {
        None
    } else if s[0] == c {
        Some(0)
    } else {
        match index_of(s.drop_first(), c) {
            Some(k) => Some(k + 1),
            None => None,
        }
    }
}

/// What `index_of` returns: the first occurrence, or none at all.
pub proof fn lemma_index_of(s: Seq<char>, c: char)
    ensures
        index_of(s, c) matches Some(k) ==> 0 <= k < s.len() && s[k] == c && forall|j: int|
            0 <= j < k ==> s[j] != c,
        index_of(s, c) is None ==> !s.contains(c),
    decreases s.len(),
{
    if s.len() > 0 && s[0] != c {
        lemma_index_of(s.drop_first(), c);
        if index_of(s.drop_first(), c) is None {
            assert forall|j: int| 0 <= j < s.len() implies s[j] != c by {
                if j > 0 {
                    assert(s.drop_first()[j - 1] == s[j]);
                }
            }
        } else {
            let k = index_of(s.drop_first(), c)->0;
            assert forall|j: int| 0 <= j < k + 1 implies s[j] != c by {
                if j > 0 {
                    assert(s.drop_first()[j - 1] == s[j]);
                }
            }
        }
    }
}

/// The first position of `c` in `s`.
pub fn index_of_char(s: &Vec<char>, c: char) -> (r: Option<usize>)
    ensures
        r matches Some(k) ==> index_of(s@, c) == Some(k as int) && k < s.len() && s@[k as int]
            == c,
        r is None ==> index_of(s@, c) is None,
{
    proof {
        lemma_index_of(s@, c);
    }
    let mut i: usize = 0;
    while i < s.len()
        invariant
            i <= s.len(),
            forall|j: int| 0 <= j < i ==> s@[j] != c,
            index_of(s@, c) matches Some(k) ==> 0 <= k < s.len() && s@[k] == c && forall|j: int|
                0 <= j < k ==> s@[j] != c,
            index_of(s@, c) is None ==> !s@.contains(c),
        decreases s.len() - i,
    {
        if s[i] == c {
            proof {
                if index_of(s@, c) is None {
                    assert(s@.contains(c));
                }
            }
            return Some(i);
        }
        i = i + 1;
    }
    proof {
        if index_of(s@, c) is Some {
            let k = index_of(s@, c)->0;
            assert(s@[k] != c);
        }
    }
    None
}

// ---------------------------------------------------------------------------
// Lines
// ---------------------------------------------------------------------------

/// A line that ended in `'\n'`, without that `'\n'`: a `'\r'` before the
/// line feed is part of the line ending and is dropped.
pub open spec fn strip_cr(l: Seq<char>) -> Seq<char> {
    if l.len() > 0 && l.last() == '\r' {
        l.drop_last()
    } else {
        l
    }
}

/// The lines of `s` as `str::lines` yields them: split at each `'\n'`,
/// a `"\r\n"` ending counts as one, a final line ending adds no empty line,
/// and a last line without a line ending is kept whole (a bare `'\r'` at its
/// end included).
pub open spec fn lines(s: Seq<char>) -> Seq<Seq<char>>
    decreases s.len(),
{
    if s.len() == 0 {
        Seq::empty()
    } else {
        match index_of(s, '\n') {
            None => seq![s],
            Some(i) => {
                if 0 <= i < s.len() {
                    seq![strip_cr(s.subrange(0, i))] + lines(s.subrange(i + 1, s.len() as int))
                } else {
                    Seq::empty()
                }
            },
        }
    }
}

/// A text without line breaks.
pub open spec fn newline_free(x: Seq<char>) -> bool {
    forall|j: int| 0 <= j < x.len() ==> x[j] != '\n'
}

/// The lines of a text hold no line breaks.
pub proof fn lemma_lines_newline_free(s: Seq<char>)
    ensures
        forall|k: int| 0 <= k < lines(s).len() ==> newline_free(#[trigger] lines(s)[k]),
    decreases s.len(),
{
    lemma_index_of(s, '\n');
    if s.len() > 0 {
        match index_of(s, '\n') {
            None => {
                assert forall|j: int| 0 <= j < s.len() implies s[j] != '\n' by {
                    if s[j] == '\n' {
                        assert(s.contains('\n'));
                    }
                }
                assert(newline_free(s));
            },
            Some(i) => {
                let rest = s.subrange(i + 1, s.len() as int);
                lemma_lines_newline_free(rest);
                assert(newline_free(strip_cr(s.subrange(0, i))));
                let all = lines(s);
                assert forall|k: int| 0 <= k < all.len() implies newline_free(#[trigger] all[k]) by {
                    if k > 0 {
                        assert(all[k] == lines(rest)[k - 1]);
                    }
                }
            },
        }
    }
}

/// A newline-free text has at most one line.
pub proof fn lemma_lines_of_newline_free(x: Seq<char>)
    requires
        newline_free(x),
    ensures
        lines(x).len() <= 1,
{
    lemma_index_of(x, '\n');
}

/// Lines joined with `'\n'` split back into no more lines.
pub proof fn lemma_lines_of_join(ls: Seq<Seq<char>>)
    requires
        forall|k: int| 0 <= k < ls.len() ==> newline_free(#[trigger] ls[k]),
    ensures
        lines(join(ls, seq!['\n'])).len() <= ls.len(),
    decreases ls.len(),
{
    if ls.len() == 0 {
    } else if ls.len() == 1 {
        lemma_lines_of_newline_free(ls[0]);
    } else {
        let rest = ls.drop_first();
        lemma_join_front(ls);
        lemma_lines_of_join(rest);
        let x = ls[0];
        let j = join(rest, seq!['\n']);
        let t = x + seq!['\n'] + j;
        lemma_index_of(t, '\n');
        assert(t[x.len() as int] == '\n');
        if index_of(t, '\n') != Some(x.len() as int) {
            let k = index_of(t, '\n')->0;
            assert(k < x.len());
            assert(t[k] == x[k]);
        }
        assert(t.subrange(x.len() as int + 1, t.len() as int) =~= j);
        assert(lines(t).len() == 1 + lines(j).len());
    }
}

/// Joining splits off the first element.
pub proof fn lemma_join_front(ls: Seq<Seq<char>>)
    requires
        ls.len() >= 2,
    ensures
        join(ls, seq!['\n']) == ls[0] + seq!['\n'] + join(ls.drop_first(), seq!['\n']),
    decreases ls.len(),
{
    let nl = seq!['\n'];
    if ls.len() > 2 {
        let prev = ls.drop_last();
        lemma_join_front(prev);
        let tail = ls.drop_first();
        assert(prev.drop_first() =~= tail.drop_last());
        assert(tail.last() == ls.last());
        assert(prev[0] == ls[0]);
        assert(join(tail, nl) == join(tail.drop_last(), nl) + nl + tail.last());
        assert(join(ls, nl) == join(prev, nl) + nl + ls.last());
        assert(join(ls, nl) =~= ls[0] + nl + join(tail, nl));
    } else {
        assert(ls.drop_last() =~= seq![ls[0]]);
        assert(ls.drop_first() =~= seq![ls[1]]);
        assert(join(seq![ls[0]], nl) == ls[0]);
        assert(join(seq![ls[1]], nl) == ls[1]);
        assert(join(ls, nl) =~= ls[0] + nl + join(ls.drop_first(), nl));
    }
}

/// Decimal numbers hold no line breaks.
pub proof fn lemma_decimal_newline_free(n: nat)
    ensures
        newline_free(decimal(n)),
    decreases n,
{
    if n >= 10 {
        lemma_decimal_newline_free(n / 10);
    }
    let d = n % 10;
    assert(digit_char(d) != '\n') by {
        if d == 0 {
            assert(digit_char(0) == '0');
        } else if d == 1 {
            assert(digit_char(1) == '1');
        } else if d == 2 {
            assert(digit_char(2) == '2');
        } else if d == 3 {
            assert(digit_char(3) == '3');
        } else if d == 4 {
            assert(digit_char(4) == '4');
        } else if d == 5 {
            assert(digit_char(5) == '5');
        } else if d == 6 {
            assert(digit_char(6) == '6');
        } else if d == 7 {
            assert(digit_char(7) == '7');
        } else if d == 8 {
            assert(digit_char(8) == '8');
        } else {
            assert(digit_char(9) == '9');
        }
    }
    if n < 10 {
        assert(d == n);
    }
}

/// Drops a trailing `'\r'`.
pub fn strip_cr_chars(l: Vec<char>) -> (r: Vec<char>)
    ensures
        r@ == strip_cr(l@),
{
    let mut l = l;
    if l.len() > 0 && l[l.len() - 1] == '\r' {
        l.pop();
    }
    l
}

/// The texts held by a vector of strings.
pub open spec fn string_views(v: Seq<String>) -> Seq<Seq<char>> {
    v.map_values(|s: String| s@)
}

/// A copy of a string.
pub fn copy_string(s: &String) -> (r: String)
    ensures
        r@ == s@,
{
    s.clone()
}

/// The character sequences held by a vector of character vectors.
pub open spec fn views(v: Seq<Vec<char>>) -> Seq<Seq<char>> {
    v.map_values(|x: Vec<char>| x@)
}

/// Splits `s` into lines (`str::lines`).
pub fn split_lines(s: &Vec<char>) -> (r: Vec<Vec<char>>)
    ensures
        views(r@) == lines(s@),
{
    let mut r: Vec<Vec<char>> = Vec::new();
    let mut pos: usize = 0;
    assert(s@.subrange(0, s.len() as int) == s@);
    assert(views(r@) + lines(s@) == lines(s@));
    while pos < s.len()
        invariant
            pos <= s.len(),
            lines(s@) == views(r@) + lines(s@.subrange(pos as int, s.len() as int)),
        decreases s.len() - pos,
    {
        let ghost rest = s@.subrange(pos as int, s.len() as int);
        let mut j = pos;
        while j < s.len() && s[j] != '\n'
            invariant
                pos <= j <= s.len(),
                forall|k: int| pos <= k < j ==> s@[k] != '\n',
            decreases s.len() - j,
        {
            j = j + 1;
        }
        proof {
            lemma_index_of(rest, '\n');
        }
        let piece = subrange_chars(s, pos, j);
        let line = if j == s.len() {
            piece
        } else {
            strip_cr_chars(piece)
        };
        let ghost old_r = views(r@);
        r.push(line);
        proof {
            assert(views(r@) =~= old_r.push(line@));
            if j == s.len() {
                assert(!rest.contains('\n')) by {
                    assert forall|k: int| 0 <= k < rest.len() implies rest[k] != '\n' by {
                        assert(rest[k] == s@[pos + k]);
                    }
                }
                assert(rest == s@.subrange(pos as int, j as int));
                assert(lines(rest) == seq![rest]);
                assert(s@.subrange(s.len() as int, s.len() as int).len() == 0);
            } else {
                let k = index_of(rest, '\n')->0;
                assert(rest[j - pos] == '\n');
                assert(k == j - pos) by {
                    if k < j - pos {
                        assert(rest[k] == s@[pos + k]);
                    }
                    if k > j - pos {
                        assert(rest[j - pos] == s@[j as int]);
                    }
                }
                assert(rest.subrange(0, k) == s@.subrange(pos as int, j as int));
                assert(rest.subrange(k + 1, rest.len() as int) == s@.subrange(
                    j + 1,
                    s.len() as int,
                ));
            }
        }
        if j == s.len() {
            pos = j;
        } else {
            pos = j + 1;
        }
    }
    proof {
        assert(lines(s@.subrange(pos as int, s.len() as int)) == Seq::<Seq<char>>::empty());
        assert(views(r@) + Seq::<Seq<char>>::empty() == views(r@));
    }
    r
}

/// Lines joined with a separator (`[&str]::join`).
pub open spec fn join(ls: Seq<Seq<char>>, sep: Seq<char>) -> Seq<char>
    decreases ls.len(),
{
    if ls.len() == 0 {
        Seq::empty()
    } else if ls.len() == 1 {
        ls[0]
    } else {
        join(ls.drop_last(), sep) + sep + ls.last()
    }
}

/// Joins the lines with `"\n"`.
pub fn join_lines(ls: &Vec<Vec<char>>) -> (r: Vec<char>)
    ensures
        r@ == join(views(ls@), seq!['\n']),
{
    let mut r: Vec<char> = Vec::new();
    let mut i: usize = 0;
    while i < ls.len()
        invariant
            i <= ls.len(),
            r@ == join(views(ls@).take(i as int), seq!['\n']),
        decreases ls.len() - i,
    {
        let ghost prev = views(ls@).take(i as int);
        if i > 0 {
            r.push('\n');
        }
        push_all(&mut r, &ls[i]);
        i = i + 1;
        proof {
            let cur = views(ls@).take(i as int);
            assert(cur.drop_last() == prev);
            assert(cur.last() == ls[i - 1]@);
            if i == 1 {
                assert(r@ == cur[0]);
            }
        }
    }
    assert(views(ls@).take(ls.len() as int) == views(ls@));
    r
}

// ---------------------------------------------------------------------------
// Numbers
// ---------------------------------------------------------------------------

/// The decimal digit character for `d < 10`.
pub open spec fn digit_char(d: nat) -> char {
    (('0' as u32) + d) as char
}

/// The decimal representation of `n` (what `format!("{}", n)` prints).
pub open spec fn decimal(n: nat) -> Seq<char>
    decreases n,
{
    if n < 10 {
        seq![digit_char(n)]
    } else {
        decimal(n / 10) + seq![digit_char(n % 10)]
    }
}

fn digit_to_char(d: u64) -> (c: char)
    requires
        d < 10,
    ensures
        c == digit_char(d as nat),
{
    if d == 0 {
        '0'
    } else if d == 1 {
        '1'
    } else if d == 2 {
        '2'
    } else if d == 3 {
        '3'
    } else if d == 4 {
        '4'
    } else if d == 5 {
        '5'
    } else if d == 6 {
        '6'
    } else if d == 7 {
        '7'
    } else if d == 8 {
        '8'
    } else {
        '9'
    }
}

/// The decimal representation of `n`.
pub fn decimal_chars(n: u64) -> (r: Vec<char>)
    ensures
        r@ == decimal(n as nat),
    decreases n,
{
    if n < 10 {
        let mut r = Vec::new();
        r.push(digit_to_char(n));
        r
    } else {
        let mut r = decimal_chars(n / 10);
        r.push(digit_to_char(n % 10));
        r
    }
}

/// Whether `c` is an ASCII decimal digit.
pub open spec fn is_digit(c: char) -> bool {
    '0' <= c && c <= '9'
}

/// The value of a string of decimal digits.
pub open spec fn digits_value(s: Seq<char>) -> nat
    decreases s.len(),
{
    if s.len() == 0 {
        0
    } else {
        digits_value(s.drop_last()) * 10 + ((s.last() as u32) - ('0' as u32)) as nat
    }
}

/// What `u64::from_str` / `u32::from_str` (`str::parse`) return for an unsigned
/// type whose largest value is `max`: an optional leading `'+'`, then at least one
/// ASCII digit and nothing else, with a value no larger than `max`.
pub open spec fn parse_unsigned(s: Seq<char>, max: nat) -> Option<nat> {
    let d = unsigned_digits(s);
    if d.len() == 0 {
        None
    } else if exists|i: int| 0 <= i < d.len() && !is_digit(#[trigger] d[i]) {
        None
    } else if digits_value(d) > max {
        None
    } else {
        Some(digits_value(d))
    }
}

/// The digits that `parse_unsigned` reads: `s` without an optional leading `'+'`.
pub open spec fn unsigned_digits(s: Seq<char>) -> Seq<char> {
    if s.len() > 0 && s[0] == '+' {
        s.drop_first()
    } else {
        s
    }
}

proof fn lemma_parse_unsigned_cases(s: Seq<char>, max: nat)
    ensures
        unsigned_digits(s).len() == 0 ==> parse_unsigned(s, max) is None,
        (exists|i: int| 0 <= i < unsigned_digits(s).len() && !is_digit(#[trigger] unsigned_digits(s)[i]))
            ==> parse_unsigned(s, max) is None,
        digits_value(unsigned_digits(s)) > max ==> parse_unsigned(s, max) is None,
        (unsigned_digits(s).len() > 0 && (forall|i: int| 0 <= i < unsigned_digits(s).len() ==> is_digit(
            #[trigger] unsigned_digits(s)[i],
        )) && digits_value(unsigned_digits(s)) <= max) ==> parse_unsigned(s, max) == Some(
            digits_value(unsigned_digits(s)),
        ),
{
}

proof fn lemma_digits_value_monotone(s: Seq<char>, n: int)
    requires
        0 <= n <= s.len(),
        forall|i: int| 0 <= i < s.len() ==> is_digit(#[trigger] s[i]),
    ensures
        digits_value(s.subrange(0, n)) <= digits_value(s),
    decreases s.len() - n,
{
    if n < s.len() {
        lemma_digits_value_monotone(s, n + 1);
        assert(s.subrange(0, n + 1).drop_last() == s.subrange(0, n));
    } else {
        assert(s.subrange(0, n) == s);
    }
}

/// Parses an unsigned decimal number no larger than `max` (`str::parse` for
/// `u64`, or for `u32` with `max == u32::MAX`).
pub fn parse_unsigned_chars(s: &Vec<char>, max: u64) -> (r: Option<u64>)
    ensures
        r matches Some(v) ==> parse_unsigned(s@, max as nat) == Some(v as nat),
        r is None ==> parse_unsigned(s@, max as nat) is None,
{
    let start: usize = if s.len() > 0 && s[0] == '+' {
        1
    } else {
        0
    };
    let ghost d = unsigned_digits(s@);
    proof {
        lemma_parse_unsigned_cases(s@, max as nat);
    }
    assert(d == s@.subrange(start as int, s.len() as int));
    if start >= s.len() {
        return None;
    }
    let mut value: u64 = 0;
    let mut i = start;
    while i < s.len()
        invariant
            start <= i <= s.len(),
            start < s.len(),
            d == s@.subrange(start as int, s.len() as int),
            d == unsigned_digits(s@),
            value <= max,
            forall|k: int| start <= k < i ==> is_digit(#[trigger] s@[k]),
            value as nat == digits_value(s@.subrange(start as int, i as int)),
        decreases s.len() - i,
    {
        let c = s[i];
        if !('0' <= c && c <= '9') {
            assert(!is_digit(d[i - start]));
            assert(parse_unsigned(s@, max as nat) is None);
            return None;
        }
        let dv = (c as u32 - '0' as u32) as u64;
        proof {
            assert(s@.subrange(start as int, i + 1).drop_last() == s@.subrange(
                start as int,
                i as int,
            ));
        }
        let nv: u128 = value as u128 * 10 + dv as u128;
        if nv > max as u128 {
            proof {
                let all_digits = forall|k: int| 0 <= k < d.len() ==> is_digit(#[trigger] d[k]);
                if all_digits {
                    lemma_digits_value_monotone(d, i + 1 - start);
                    assert(d.subrange(0, i + 1 - start) == s@.subrange(start as int, i + 1));
                    assert(digits_value(d) > max);
                }
                assert(parse_unsigned(s@, max as nat) is None);
            }
            return None;
        }
        value = nv as u64;
        i = i + 1;
    }
    assert(s@.subrange(start as int, s.len() as int) == d);
    assert forall|k: int| 0 <= k < d.len() implies is_digit(#[trigger] d[k]) by {
        assert(d[k] == s@[start + k]);
    }
    Some(value)
}

} // verus!

verus! {

// ---------------------------------------------------------------------------
// Case mapping (Unicode-aware, from the standard library)
// ---------------------------------------------------------------------------

/// Whether every character of `s` is ASCII.
pub open spec fn is_ascii(s: Seq<char>) -> bool {
    forall|i: int| 0 <= i < s.len() ==> (#[trigger] s[i] as u32) < 128
}

/// An ASCII upper-case letter made lower-case; any other character as it is.
pub open spec fn ascii_lower_char(c: char) -> char {
    if 'A' <= c && c <= 'Z' {
        ((c as u32) + 32) as char
    } else {
        c
    }
}

/// An ASCII lower-case letter made upper-case; any other character as it is.
pub open spec fn ascii_upper_char(c: char) -> char {
    if 'a' <= c && c <= 'z' {
        ((c as u32) - 32) as char
    } else {
        c
    }
}

/// `s` with its ASCII letters made lower-case.
pub open spec fn ascii_lower(s: Seq<char>) -> Seq<char> {
    s.map_values(|c: char| ascii_lower_char(c))
}

/// `s` with its ASCII letters made upper-case.
pub open spec fn ascii_upper(s: Seq<char>) -> Seq<char> {
    s.map_values(|c: char| ascii_upper_char(c))
}

/// Lower-casing ASCII text gives ASCII text, and doing it twice is doing it
/// once.
pub proof fn lemma_ascii_lower_twice(s: Seq<char>)
    ensures
        ascii_lower(ascii_lower(s)) == ascii_lower(s),
        is_ascii(s) ==> is_ascii(ascii_lower(s)),
{
    assert(ascii_lower(ascii_lower(s)) =~= ascii_lower(s));
}

/// Upper-casing ASCII text gives ASCII text, and doing it twice is doing it
/// once.
pub proof fn lemma_ascii_upper_twice(s: Seq<char>)
    ensures
        ascii_upper(ascii_upper(s)) == ascii_upper(s),
        is_ascii(s) ==> is_ascii(ascii_upper(s)),
{
    assert(ascii_upper(ascii_upper(s)) =~= ascii_upper(s));
}

proof fn lemma_trim_start_upper(s: Seq<char>)
    ensures
        trim_start(ascii_upper(s)) == ascii_upper(trim_start(s)),
    decreases s.len(),
{
    if s.len() > 0 {
        assert(ascii_upper(s)[0] == ascii_upper_char(s[0]));
        if is_ws(s[0]) {
            assert(ascii_upper(s).drop_first() =~= ascii_upper(s.drop_first()));
            lemma_trim_start_upper(s.drop_first());
        }
    }
}

proof fn lemma_trim_end_upper(s: Seq<char>)
    ensures
        trim_end(ascii_upper(s)) == ascii_upper(trim_end(s)),
    decreases s.len(),
{
    if s.len() > 0 {
        assert(ascii_upper(s).last() == ascii_upper_char(s.last()));
        if is_ws(s.last()) {
            assert(ascii_upper(s).drop_last() =~= ascii_upper(s.drop_last()));
            lemma_trim_end_upper(s.drop_last());
        }
    }
}

/// Trimming and upper-casing ASCII letters can be done in either order
/// (letters are not whitespace).
pub proof fn lemma_trim_upper(s: Seq<char>)
    ensures
        trim(ascii_upper(s)) == ascii_upper(trim(s)),
{
    lemma_trim_start_upper(s);
    lemma_trim_end_upper(trim_start(s));
}

/// Trimming twice is trimming once, and trimmed ASCII text is ASCII.
pub proof fn lemma_trim_twice(s: Seq<char>)
    ensures
        trim(trim(s)) == trim(s),
        is_ascii(s) ==> is_ascii(trim(s)),
{
    let y = trim_start(s);
    lemma_trim_start_shape(s);
    lemma_trim_end_shape(y);
    let t = trim_end(y);
    if t.len() > 0 {
        assert(t[0] == y[0]);
    }
    lemma_trim_end_shape(t);
    if is_ascii(s) {
        assert forall|i: int| 0 <= i < t.len() implies (#[trigger] t[i] as u32) < 128 by {
            assert(t[i] == y[i]);
            assert(y[i] == s[s.len() - y.len() + i]);
        }
    }
}

/// What `str::to_lowercase` returns for `s`.
pub uninterp spec fn lowercase(s: Seq<char>) -> Seq<char>;

/// What `str::to_uppercase` returns for `s`.
pub uninterp spec fn uppercase(s: Seq<char>) -> Seq<char>;

/// `str::to_lowercase`: the Unicode lowercase mapping of every character.
/// Its result depends on the argument alone; the mapping tables are only
/// named, except on ASCII text, where it lower-cases the letters `A`-`Z` and
/// keeps every other character.
#[verifier::external_body]
pub(crate) fn to_lowercase_chars(s: &str) -> (r: Vec<char>)
    ensures
        r@ == lowercase(s@),
        is_ascii(s@) ==> r@ == ascii_lower(s@),
{
    s.to_lowercase().chars().collect()
}

/// `str::to_uppercase`: the Unicode uppercase mapping of every character.
/// Its result depends on the argument alone; the mapping tables are only
/// named, except on ASCII text, where it upper-cases the letters `a`-`z` and
/// keeps every other character.
#[verifier::external_body]
pub(crate) fn to_uppercase_chars(s: &str) -> (r: Vec<char>)
    ensures
        r@ == uppercase(s@),
        is_ascii(s@) ==> r@ == ascii_upper(s@),
{
    s.to_uppercase().chars().collect()
}

} // verus!
