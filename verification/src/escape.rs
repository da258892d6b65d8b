//! Escaping for XML and YAML output, and the YAML block / git-context
//! sections that `pack` appends to its output.

use vstd::prelude::*;
use crate::text::{
    chars_of, decimal, decimal_chars, lines, push_all, push_str, split_lines, string_from_chars,
    views,
};

verus! {

// ---------------------------------------------------------------------------
// XML
// ---------------------------------------------------------------------------

/// The XML escape of one character: `& < > " '` become entities.
pub open spec fn xml_escape_char(c: char) -> Seq<char> {
    if c == '&' {
        "&amp;"@
    } else if c == '<' {
        "&lt;"@
    } else if c == '>' {
        "&gt;"@
    } else if c == '"' {
        "&quot;"@
    } else if c == '\'' {
        "&apos;"@
    } else {
        seq![c]
    }
}

/// The XML escape of a string: each character escaped in turn.
pub open spec fn xml_escape(s: Seq<char>) -> Seq<char>
    decreases s.len(),
{
    if s.len() == 0 {
        Seq::empty()
    } else {
        xml_escape(s.drop_last()) + xml_escape_char(s.last())
    }
}

/// Escapes `& < > " '` for XML text.
pub fn escape_xml_text(input: &str) -> (r: String)
    ensures
        r@ == xml_escape(input@),
{
    let v = chars_of(input);
    let mut out: Vec<char> = Vec::new();
    let mut i: usize = 0;
    while i < v.len()
        invariant
            i <= v.len(),
            v@ == input@,
            out@ == xml_escape(v@.subrange(0, i as int)),
        decreases v.len() - i,
    {
        let c = v[i];
        proof {
            assert(v@.subrange(0, i + 1).drop_last() == v@.subrange(0, i as int));
        }
        if c == '&' {
            push_str(&mut out, "&amp;");
        } else if c == '<' {
            push_str(&mut out, "&lt;");
        } else if c == '>' {
            push_str(&mut out, "&gt;");
        } else if c == '"' {
            push_str(&mut out, "&quot;");
        } else if c == '\'' {
            push_str(&mut out, "&apos;");
        } else {
            out.push(c);
        }
        i = i + 1;
    }
    assert(v@.subrange(0, v.len() as int) == v@);
    string_from_chars(&out)
}

/// Reads back the five entities that `xml_escape` writes, from left to right:
/// `&amp;` `&lt;` `&gt;` `&quot;` `&apos;` each become their character, and
/// every other character is kept.
pub open spec fn xml_unescape(t: Seq<char>) -> Seq<char>
    decreases t.len(),
{
    if t.len() == 0 {
        Seq::empty()
    } else if t.len() >= 5 && t.subrange(0, 5) == "&amp;"@ {
        seq!['&'] + xml_unescape(t.subrange(5, t.len() as int))
    } else if t.len() >= 4 && t.subrange(0, 4) == "&lt;"@ {
        seq!['<'] + xml_unescape(t.subrange(4, t.len() as int))
    } else if t.len() >= 4 && t.subrange(0, 4) == "&gt;"@ {
        seq!['>'] + xml_unescape(t.subrange(4, t.len() as int))
    } else if t.len() >= 6 && t.subrange(0, 6) == "&quot;"@ {
        seq!['"'] + xml_unescape(t.subrange(6, t.len() as int))
    } else if t.len() >= 6 && t.subrange(0, 6) == "&apos;"@ {
        seq!['\''] + xml_unescape(t.subrange(6, t.len() as int))
    } else {
        seq![t[0]] + xml_unescape(t.drop_first())
    }
}

/// One of the five characters that XML escaping replaces.
pub open spec fn xml_special(c: char) -> bool {
    c == '&' || c == '<' || c == '>' || c == '"' || c == '\''
}

proof fn lemma_xml_escape_concat(a: Seq<char>, b: Seq<char>)
    ensures
        xml_escape(a + b) == xml_escape(a) + xml_escape(b),
    decreases b.len(),
{
    if b.len() == 0 {
        assert(a + b =~= a);
        assert(xml_escape(a) + xml_escape(b) =~= xml_escape(a));
    } else {
        lemma_xml_escape_concat(a, b.drop_last());
        assert((a + b).drop_last() =~= a + b.drop_last());
        assert((a + b).last() == b.last());
        assert(xml_escape(a) + xml_escape(b.drop_last()) + xml_escape_char(b.last())
            =~= xml_escape(a) + (xml_escape(b.drop_last()) + xml_escape_char(b.last())));
    }
}

proof fn lemma_xml_unescape_char(c: char, t: Seq<char>)
    ensures
        xml_unescape(xml_escape_char(c) + t) == seq![c] + xml_unescape(t),
{
    reveal_strlit("&amp;");
    reveal_strlit("&lt;");
    reveal_strlit("&gt;");
    reveal_strlit("&quot;");
    reveal_strlit("&apos;");
    let e = xml_escape_char(c) + t;
    if c == '&' {
        assert(e.subrange(0, 5) =~= "&amp;"@);
        assert(e.subrange(5, e.len() as int) =~= t);
    } else if c == '<' {
        if e.len() >= 5 {
            assert(e.subrange(0, 5)[1] == 'l');
        }
        assert(e.subrange(0, 4) =~= "&lt;"@);
        assert(e.subrange(4, e.len() as int) =~= t);
    } else if c == '>' {
        if e.len() >= 5 {
            assert(e.subrange(0, 5)[1] == 'g');
        }
        assert(e.subrange(0, 4)[1] == 'g');
        assert(e.subrange(0, 4) =~= "&gt;"@);
        assert(e.subrange(4, e.len() as int) =~= t);
    } else if c == '"' {
        assert(e.subrange(0, 5)[1] == 'q');
        assert(e.subrange(0, 4)[1] == 'q');
        assert(e.subrange(0, 6) =~= "&quot;"@);
        assert(e.subrange(6, e.len() as int) =~= t);
    } else if c == '\'' {
        assert(e.subrange(0, 5)[1] == 'a');
        assert(e.subrange(0, 5)[2] == 'p');
        assert(e.subrange(0, 4)[1] == 'a');
        assert(e.subrange(0, 6)[1] == 'a');
        assert(e.subrange(0, 6) =~= "&apos;"@);
        assert(e.subrange(6, e.len() as int) =~= t);
    } else {
        assert(e[0] == c);
        if e.len() >= 4 {
            assert(e.subrange(0, 4)[0] == c);
        }
        if e.len() >= 5 {
            assert(e.subrange(0, 5)[0] == c);
        }
        if e.len() >= 6 {
            assert(e.subrange(0, 6)[0] == c);
        }
        assert(e.drop_first() =~= t);
    }
}

proof fn lemma_xml_escape_front(s: Seq<char>)
    requires
        s.len() > 0,
    ensures
        xml_escape(s) == xml_escape_char(s[0]) + xml_escape(s.drop_first()),
{
    assert(s =~= seq![s[0]] + s.drop_first());
    lemma_xml_escape_concat(seq![s[0]], s.drop_first());
    let one = seq![s[0]];
    assert(one.drop_last() =~= Seq::<char>::empty());
    assert(one.last() == s[0]);
    assert(xml_escape(one.drop_last()) =~= Seq::<char>::empty());
    assert(xml_escape(one) =~= xml_escape_char(s[0]));
}

/// XML escaping can be undone: reading the entities back from left to right
/// gives the original text.
pub proof fn law_xml_escape_round_trip(s: Seq<char>)
    ensures
        xml_unescape(xml_escape(s)) == s,
    decreases s.len(),
{
    if s.len() > 0 {
        lemma_xml_escape_front(s);
        law_xml_escape_round_trip(s.drop_first());
        lemma_xml_unescape_char(s[0], xml_escape(s.drop_first()));
        assert(seq![s[0]] + s.drop_first() =~= s);
    }
}

/// Escaped XML text holds no `<`, `>`, `"` or `'`, and text without any of
/// the five special characters is left as it is.
pub proof fn law_xml_escape_output(s: Seq<char>)
    ensures
        forall|i: int|
            0 <= i < xml_escape(s).len() ==> {
                let c = #[trigger] xml_escape(s)[i];
                c != '<' && c != '>' && c != '"' && c != '\''
            },
        (forall|i: int| 0 <= i < s.len() ==> !xml_special(#[trigger] s[i])) ==> xml_escape(s) == s,
    decreases s.len(),
{
    reveal_strlit("&amp;");
    reveal_strlit("&lt;");
    reveal_strlit("&gt;");
    reveal_strlit("&quot;");
    reveal_strlit("&apos;");
    if s.len() > 0 {
        let p = s.drop_last();
        law_xml_escape_output(p);
        let a = xml_escape(p);
        let e = xml_escape_char(s.last());
        assert forall|i: int| 0 <= i < xml_escape(s).len() implies {
            let c = #[trigger] xml_escape(s)[i];
            c != '<' && c != '>' && c != '"' && c != '\''
        } by {
            if i < a.len() {
                assert(xml_escape(s)[i] == a[i]);
            } else {
                assert(xml_escape(s)[i] == e[i - a.len()]);
            }
        }
        if forall|i: int| 0 <= i < s.len() ==> !xml_special(#[trigger] s[i]) {
            assert forall|i: int| 0 <= i < p.len() implies !xml_special(#[trigger] p[i]) by {
                assert(p[i] == s[i]);
            }
            assert(!xml_special(s[s.len() - 1]));
            assert(p + seq![s.last()] =~= s);
        }
    }
}

/// Escapes a value for an XML attribute (the same escaping as text).
pub fn escape_xml_attr(input: &str) -> (r: String)
    ensures
        r@ == xml_escape(input@),
{
    escape_xml_text(input)
}

// ---------------------------------------------------------------------------
// YAML
// ---------------------------------------------------------------------------

/// `s` with every `c` replaced by `by` (`str::replace` with a char pattern).
pub open spec fn replace_char(s: Seq<char>, c: char, by: Seq<char>) -> Seq<char>
    decreases s.len(),
{
    if s.len() == 0 {
        Seq::empty()
    } else {
        replace_char(s.drop_last(), c, by) + if s.last() == c {
            by
        } else {
            seq![s.last()]
        }
    }
}

/// Replaces every `c` in `s` by `by`.
pub fn replace_char_chars(s: &Vec<char>, c: char, by: &str) -> (r: Vec<char>)
    ensures
        r@ == replace_char(s@, c, by@),
{
    let byv = chars_of(by);
    let mut out: Vec<char> = Vec::new();
    let mut i: usize = 0;
    while i < s.len()
        invariant
            i <= s.len(),
            byv@ == by@,
            out@ == replace_char(s@.subrange(0, i as int), c, by@),
        decreases s.len() - i,
    {
        proof {
            assert(s@.subrange(0, i + 1).drop_last() == s@.subrange(0, i as int));
        }
        if s[i] == c {
            push_all(&mut out, &byv);
        } else {
            out.push(s[i]);
        }
        i = i + 1;
    }
    assert(s@.subrange(0, s.len() as int) == s@);
    out
}

/// A double-quoted YAML scalar: backslashes doubled, then quotes escaped,
/// then the whole wrapped in `"`.
pub open spec fn yaml_quote(s: Seq<char>) -> Seq<char> {
    seq!['"'] + replace_char(replace_char(s, '\\', "\\\\"@), '"', "\\\""@) + seq!['"']
}

/// The YAML escape of one character: a backslash or a double quote gets a
/// backslash in front; any other character stays.
pub open spec fn yaml_escape_char(c: char) -> Seq<char> {
    if c == '\\' || c == '"' {
        seq!['\\', c]
    } else {
        seq![c]
    }
}

/// Each character of `s` escaped in turn with `yaml_escape_char`.
pub open spec fn yaml_escape(s: Seq<char>) -> Seq<char>
    decreases s.len(),
{
    if s.len() == 0 {
        Seq::empty()
    } else {
        yaml_escape(s.drop_last()) + yaml_escape_char(s.last())
    }
}

/// Reads back the escapes of a YAML double-quoted body from left to right:
/// a backslash followed by a backslash or a quote gives that character, and
/// every other character is kept.
pub open spec fn yaml_unescape(t: Seq<char>) -> Seq<char>
    decreases t.len(),
{
    if t.len() == 0 {
        Seq::empty()
    } else if t.len() >= 2 && t[0] == '\\' && (t[1] == '\\' || t[1] == '"') {
        seq![t[1]] + yaml_unescape(t.subrange(2, t.len() as int))
    } else {
        seq![t[0]] + yaml_unescape(t.drop_first())
    }
}

/// The characters of `s` that YAML quoting escapes: backslashes and double
/// quotes.
pub open spec fn yaml_specials(s: Seq<char>) -> Seq<char> {
    s.filter(|c: char| c == '\\' || c == '"')
}

proof fn lemma_replace_char_concat(a: Seq<char>, b: Seq<char>, c: char, by: Seq<char>)
    ensures
        replace_char(a + b, c, by) == replace_char(a, c, by) + replace_char(b, c, by),
    decreases b.len(),
{
    if b.len() == 0 {
        assert(a + b =~= a);
        assert(replace_char(a, c, by) + replace_char(b, c, by) =~= replace_char(a, c, by));
    } else {
        lemma_replace_char_concat(a, b.drop_last(), c, by);
        assert((a + b).drop_last() =~= a + b.drop_last());
        assert((a + b).last() == b.last());
        let piece = if b.last() == c {
            by
        } else {
            seq![b.last()]
        };
        assert(replace_char(a, c, by) + replace_char(b.drop_last(), c, by) + piece
            =~= replace_char(a, c, by) + (replace_char(b.drop_last(), c, by) + piece));
    }
}

/// The body of `yaml_quote` is the character-by-character YAML escape.
proof fn lemma_yaml_quote_body(s: Seq<char>)
    ensures
        replace_char(replace_char(s, '\\', "\\\\"@), '"', "\\\""@) == yaml_escape(s),
    decreases s.len(),
{
    reveal_strlit("\\\\");
    reveal_strlit("\\\"");
    if s.len() > 0 {
        let p = s.drop_last();
        let x = s.last();
        lemma_yaml_quote_body(p);
        let first = if x == '\\' {
            "\\\\"@
        } else {
            seq![x]
        };
        lemma_replace_char_concat(replace_char(p, '\\', "\\\\"@), first, '"', "\\\""@);
        let q = "\\\""@;
        let nothing = Seq::<char>::empty();
        assert(replace_char(nothing, '"', q) == nothing);
        if x == '\\' {
            let bs = seq!['\\', '\\'];
            assert(first =~= bs);
            assert(bs.drop_last() =~= seq!['\\']);
            assert(seq!['\\'].drop_last() =~= nothing);
            assert(replace_char(seq!['\\'], '"', q) =~= seq!['\\']);
            assert(replace_char(bs, '"', "\\\""@) =~= bs);
        } else {
            assert(seq![x].drop_last() =~= nothing);
            assert(seq![x].last() == x);
            if x == '"' {
                assert(replace_char(seq![x], '"', "\\\""@) =~= seq!['\\', '"']);
            } else {
                assert(replace_char(seq![x], '"', "\\\""@) =~= seq![x]);
            }
        }
    }
}

proof fn lemma_yaml_escape_concat(a: Seq<char>, b: Seq<char>)
    ensures
        yaml_escape(a + b) == yaml_escape(a) + yaml_escape(b),
    decreases b.len(),
{
    if b.len() == 0 {
        assert(a + b =~= a);
        assert(yaml_escape(a) + yaml_escape(b) =~= yaml_escape(a));
    } else {
        lemma_yaml_escape_concat(a, b.drop_last());
        assert((a + b).drop_last() =~= a + b.drop_last());
        assert((a + b).last() == b.last());
        assert(yaml_escape(a) + yaml_escape(b.drop_last()) + yaml_escape_char(b.last())
            =~= yaml_escape(a) + (yaml_escape(b.drop_last()) + yaml_escape_char(b.last())));
    }
}

proof fn lemma_yaml_escape_len(s: Seq<char>)
    ensures
        yaml_escape(s).len() == s.len() + yaml_specials(s).len(),
    decreases s.len(),
{
    reveal(Seq::filter);
    if s.len() > 0 {
        lemma_yaml_escape_len(s.drop_last());
    }
}

/// Reading back the escapes of a YAML quoted body gives the original text.
proof fn lemma_yaml_round_trip(s: Seq<char>)
    ensures
        yaml_unescape(yaml_escape(s)) == s,
    decreases s.len(),
{
    if s.len() > 0 {
        let c = s[0];
        let rest = s.drop_first();
        let one = seq![c];
        assert(s =~= one + rest);
        lemma_yaml_escape_concat(one, rest);
        assert(one.drop_last() =~= Seq::<char>::empty());
        assert(one.last() == c);
        assert(yaml_escape(one.drop_last()) =~= Seq::<char>::empty());
        assert(yaml_escape(one) =~= yaml_escape_char(c));
        lemma_yaml_round_trip(rest);
        let t = yaml_escape(rest);
        let e = yaml_escape_char(c) + t;
        if c == '\\' || c == '"' {
            assert(e.subrange(2, e.len() as int) =~= t);
        } else {
            assert(e.drop_first() =~= t);
        }
        assert(one + rest =~= s);
    }
}

/// A YAML-quoted string is the input with each backslash and double quote
/// given a backslash in front (backslashes first, so a quote's backslash is
/// not doubled), wrapped in double quotes: it is longer than the input by two
/// and by the number of those characters, and reading the escapes back from
/// the body gives the input.
pub proof fn law_yaml_quote(s: Seq<char>)
    ensures
        ({
            let r = yaml_quote(s);
            &&& r.len() == s.len() + 2 + yaml_specials(s).len()
            &&& r[0] == '"'
            &&& r[r.len() - 1] == '"'
            &&& yaml_unescape(r.subrange(1, r.len() - 1)) == s
        }),
{
    lemma_yaml_quote_body(s);
    lemma_yaml_escape_len(s);
    lemma_yaml_round_trip(s);
    let r = yaml_quote(s);
    assert(r.subrange(1, r.len() - 1) =~= yaml_escape(s));
}

/// Quotes a string for YAML output.
pub fn escape_yaml_string(input: &str) -> (r: String)
    ensures
        r@ == yaml_quote(input@),
{
    let v = chars_of(input);
    let a = replace_char_chars(&v, '\\', "\\\\");
    let b = replace_char_chars(&a, '"', "\\\"");
    let mut out: Vec<char> = Vec::new();
    out.push('"');
    push_all(&mut out, &b);
    out.push('"');
    string_from_chars(&out)
}

/// The lines of a YAML block scalar body: each line indented by two spaces
/// and ended with `'\n'`.
pub open spec fn indented_lines(ls: Seq<Seq<char>>) -> Seq<char>
    decreases ls.len(),
{
    if ls.len() == 0 {
        Seq::empty()
    } else {
        indented_lines(ls.drop_last()) + "  "@ + ls.last() + seq!['\n']
    }
}

/// The text `append_yaml_block` adds: `"\n{key}: |\n"` and the indented lines
/// of `value`.
pub open spec fn yaml_block(key: Seq<char>, value: Seq<char>) -> Seq<char> {
    seq!['\n'] + key + ": |\n"@ + indented_lines(lines(value))
}

/// Appends `value` to `output` as the YAML block scalar `key`.
pub fn append_yaml_block(output: &mut String, key: &str, value: &str)
    ensures
        final(output)@ == old(output)@ + yaml_block(key@, value@),
{
    let mut out = chars_of(output.as_str());
    let ghost start = out@;
    out.push('\n');
    push_str(&mut out, key);
    push_str(&mut out, ": |\n");
    let vv = chars_of(value);
    let ls = split_lines(&vv);
    let ghost head = out@;
    let mut i: usize = 0;
    while i < ls.len()
        invariant
            i <= ls.len(),
            out@ == head + indented_lines(views(ls@).take(i as int)),
        decreases ls.len() - i,
    {
        proof {
            assert(views(ls@).take(i + 1).drop_last() == views(ls@).take(i as int));
            assert(views(ls@).take(i + 1).last() == ls@[i as int]@);
        }
        push_str(&mut out, "  ");
        push_all(&mut out, &ls[i]);
        out.push('\n');
        i = i + 1;
    }
    assert(views(ls@).take(ls.len() as int) == views(ls@));
    assert(out@ == start + yaml_block(key@, value@));
    *output = string_from_chars(&out);
}

} // verus!
