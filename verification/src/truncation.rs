//! Ending output that was cut to a token budget: back up to the last
//! natural boundary in its second half and say that it was truncated.

use vstd::prelude::*;
use crate::text::{chars_of, push_str, string_from_chars, subrange_chars};
use crate::pack_extras::{rfind, rfind_chars};

verus! {

/// The number of bytes UTF-8 uses for a character.
pub open spec fn utf8_width(c: char) -> nat {
    if (c as u32) < 0x80 {
        1
    } else if (c as u32) < 0x800 {
        2
    } else if (c as u32) < 0x10000 {
        3
    } else {
        4
    }
}

/// The length in bytes of a text in UTF-8.
pub open spec fn utf8_len(s: Seq<char>) -> nat
    decreases s.len(),
{
    if s.len() == 0 {
        0
    } else {
        utf8_len(s.drop_last()) + utf8_width(s.last())
    }
}

/// The boundaries tried, in order: a closing file tag, the end of a code
/// block, a separator line, a horizontal rule.
pub open spec fn boundary_markers() -> Seq<Seq<char>> {
    seq!["</file>"@, "```\n\n"@, "----------------------------------------\n"@, "\n---\n"@]
}

/// Where the kept text ends: just after the last occurrence of the first
/// marker (from `k` on) whose last occurrence ends in the second half of the
/// text, measured in bytes; the whole text when there is none.
pub open spec fn boundary_from(t: Seq<char>, k: int) -> int
    decreases 4 - k,
{
    if k < 0 || k >= 4 {
        t.len() as int
    } else {
        let m = boundary_markers()[k];
        match rfind(t, m) {
            Some(pos) => if utf8_len(t.subrange(0, pos + m.len())) > utf8_len(t) / 2 {
                pos + m.len()
            } else {
                boundary_from(t, k + 1)
            },
            None => boundary_from(t, k + 1),
        }
    }
}

/// Truncated output, cut at its boundary and followed by a notice.
pub open spec fn finished_truncation(t: Seq<char>) -> Seq<char> {
    t.subrange(0, boundary_from(t, 0)) + "\n\n<!-- Output truncated to fit token limit -->\n"@
}

fn utf8_len_exec(s: &Vec<char>, n: usize) -> (r: u64)
    requires
        n <= s.len(),
        s.len() <= usize::MAX / 4,
    ensures
        r == utf8_len(s@.subrange(0, n as int)),
{
    let mut total: u64 = 0;
    let mut i: usize = 0;
    while i < n
        invariant
            i <= n <= s.len() <= usize::MAX / 4,
            total == utf8_len(s@.subrange(0, i as int)),
            total <= 4 * i,
        decreases n - i,
    {
        proof {
            assert(s@.subrange(0, i + 1).drop_last() =~= s@.subrange(0, i as int));
        }
        let c = s[i] as u32;
        let w: u64 = if c < 0x80 {
            1
        } else if c < 0x800 {
            2
        } else if c < 0x10000 {
            3
        } else {
            4
        };
        total = total + w;
        i = i + 1;
    }
    total
}

/// Cuts output that a tokenizer truncated back to its last natural boundary
/// in the second half and appends the truncation notice; see
/// `finished_truncation`.
pub fn finish_truncated_output(truncated: &str) -> (r: String)
    requires
        truncated@.len() <= usize::MAX / 4,
    ensures
        r@ == finished_truncation(truncated@),
{
    let t = chars_of(truncated);
    let whole = utf8_len_exec(&t, t.len());
    assert(t@.subrange(0, t.len() as int) =~= t@);
    let mut end: usize = t.len();
    let mut k: usize = 0;
    while k < 4
        invariant_except_break
            k <= 4,
            boundary_from(t@, 0) == boundary_from(t@, k as int),
            end == t.len(),
        invariant
            t@ == truncated@,
            t.len() <= usize::MAX / 4,
            whole == utf8_len(t@),
            end <= t.len(),
        ensures
            end == boundary_from(t@, 0),
            end <= t.len(),
        decreases 4 - k,
    {
        let marker = if k == 0 {
            chars_of("</file>")
        } else if k == 1 {
            chars_of("```\n\n")
        } else if k == 2 {
            chars_of("----------------------------------------\n")
        } else {
            chars_of("\n---\n")
        };
        assert(marker@ == boundary_markers()[k as int]);
        match rfind_chars(&t, &marker) {
            Some(pos) => {
                let stop = pos + marker.len();
                let upto = utf8_len_exec(&t, stop);
                if upto > whole / 2 {
                    end = stop;
                    break;
                }
            },
            None => {},
        }
        k = k + 1;
        proof {
            if k == 4 {
                assert(boundary_from(t@, 4) == t.len());
            }
        }
    }
    let mut out = subrange_chars(&t, 0, end);
    push_str(&mut out, "\n\n<!-- Output truncated to fit token limit -->\n");
    string_from_chars(&out)
}


/// Fits output into a token limit: output of `current` tokens within the
/// limit is kept as it is; longer output is the tokenizer's truncation to the
/// limit (`truncated`), cut back to a natural boundary and marked as
/// truncated.
pub fn truncate_to_tokens(text: &str, max_tokens: usize, current: usize, truncated: &str) -> (r:
    String)
    requires
        current > max_tokens ==> truncated@.len() <= usize::MAX / 4,
    ensures
        r@ == if current <= max_tokens {
            text@
        } else {
            finished_truncation(truncated@)
        },
{
    if current <= max_tokens {
        let v = chars_of(text);
        string_from_chars(&v)
    } else {
        finish_truncated_output(truncated)
    }
}
} // verus!
