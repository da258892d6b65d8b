//! The extras `pack` adds around a rendered repository: a header text,
//! instructions, a token tree, security findings and recent git activity,
//! written in the style of each output format.

use vstd::prelude::*;
use crate::text::{chars_of, decimal, lines, occurs_at, occurs_at_chars, push_all, push_str, string_from_chars, subrange_chars};
use crate::escape::{escape_xml_text, escape_yaml_string, xml_escape, yaml_block, yaml_quote, append_yaml_block};
use crate::diff_output::{
    concat_map, dec, indented_by, lemma_concat_map_step, nl_terminated, push_dec, push_indented_lines,
    push_string,
};
use crate::models::OutputFormat;
use crate::pack_json::{json_extras_outcome, json_with_extras, JsonExtrasError};

verus! {

/// The tokens one file takes.
pub struct TokenTreeEntry {
    pub path: String,
    pub tokens: u32,
}

/// A security finding, with its kind and severity as printed.
pub struct SecurityIssueEntry {
    pub file: String,
    pub line: u32,
    pub kind: String,
    pub severity: String,
}

/// A recent commit.
pub struct RecentCommit {
    pub short_hash: String,
    pub message: String,
    pub author: String,
}

/// A file with uncommitted changes and its status letters.
pub struct UncommittedChange {
    pub status: String,
    pub path: String,
}

/// Recent git activity of the repository.
pub struct GitHistory {
    pub commits: Vec<RecentCommit>,
    pub changed_files: Vec<UncommittedChange>,
}

/// Everything `pack` may add to its output.
pub struct PackExtras {
    pub header_text: Option<String>,
    pub instructions: Option<String>,
    pub token_tree: Option<Vec<TokenTreeEntry>>,
    pub security_issues: Option<Vec<SecurityIssueEntry>>,
    pub git_history: Option<GitHistory>,
}

/// `f(x)` for a present value, nothing for none.
pub open spec fn opt_piece<A>(o: Option<A>, f: spec_fn(A) -> Seq<char>) -> Seq<char> {
    match o {
        Some(x) => f(x),
        None => Seq::empty(),
    }
}

/// A non-empty list's title and pieces; nothing for an empty one.
pub open spec fn listed<A>(title: Seq<char>, items: Seq<A>, f: spec_fn(A) -> Seq<char>) -> Seq<char> {
    if items.len() == 0 {
        Seq::empty()
    } else {
        title + concat_map(items, f)
    }
}

pub open spec fn count(n: nat) -> Seq<char> {
    decimal(n)
}

// ---------------------------------------------------------------------------
// Git activity
// ---------------------------------------------------------------------------

pub open spec fn git_markdown(h: GitHistory) -> Seq<char> {
    listed(
        "\n\n## Recent Commits\n\n"@,
        h.commits@,
        |c: RecentCommit| "- **"@ + c.short_hash@ + "** "@ + c.message@ + " - "@ + c.author@ + "\n"@,
    ) + listed(
        "\n\n## Uncommitted Changes\n\n"@,
        h.changed_files@,
        |f: UncommittedChange| "- ["@ + f.status@ + "] "@ + f.path@ + "\n"@,
    )
}

pub open spec fn git_plain(h: GitHistory) -> Seq<char> {
    listed(
        "\n\nRECENT COMMITS\n"@ + "--------------\n"@,
        h.commits@,
        |c: RecentCommit| c.short_hash@ + " "@ + c.message@ + " - "@ + c.author@ + "\n"@,
    ) + listed(
        "\n\nUNCOMMITTED CHANGES\n"@ + "-------------------\n"@,
        h.changed_files@,
        |f: UncommittedChange| "["@ + f.status@ + "] "@ + f.path@ + "\n"@,
    )
}

pub open spec fn git_toon(h: GitHistory) -> Seq<char> {
    listed(
        "\n\nrecent_commits["@ + count(h.commits@.len()) + "]{hash,message,author}:\n"@,
        h.commits@,
        |c: RecentCommit| "  "@ + c.short_hash@ + ","@ + c.message@ + ","@ + c.author@ + "\n"@,
    ) + listed(
        "\n\nuncommitted_changes["@ + count(h.changed_files@.len()) + "]{status,path}:\n"@,
        h.changed_files@,
        |f: UncommittedChange| "  "@ + f.status@ + ","@ + f.path@ + "\n"@,
    )
}

pub open spec fn git_yaml(h: GitHistory) -> Seq<char> {
    listed(
        "\nrecent_commits:\n"@,
        h.commits@,
        |c: RecentCommit|
            "  - hash: "@ + yaml_quote(c.short_hash@) + "\n    message: "@ + yaml_quote(c.message@)
                + "\n    author: "@ + yaml_quote(c.author@) + "\n"@,
    ) + listed(
        "\nuncommitted_changes:\n"@,
        h.changed_files@,
        |f: UncommittedChange|
            "  - status: "@ + yaml_quote(f.status@) + "\n    path: "@ + yaml_quote(f.path@) + "\n"@,
    )
}

fn push_yaml_quoted(out: &mut Vec<char>, s: &String)
    ensures
        final(out)@ == old(out)@ + yaml_quote(s@),
{
    let q = escape_yaml_string(s.as_str());
    push_string(out, &q);
}

fn push_xml_escaped(out: &mut Vec<char>, s: &str)
    ensures
        final(out)@ == old(out)@ + xml_escape(s@),
{
    let q = escape_xml_text(s);
    push_string(out, &q);
}

fn push_md_commits(out: &mut Vec<char>, items: &Vec<RecentCommit>)
    ensures
        final(out)@ == old(out)@ + listed("\n\n## Recent Commits\n\n"@, items@, |c: RecentCommit| "- **"@ + c.short_hash@ + "** "@ + c.message@ + " - "@ + c.author@ + "\n"@),
{
    let ghost start = out@;
    if items.len() > 0 {
        push_str(out, "\n\n## Recent Commits\n\n");
        let ghost t = out@;
        assert(t =~= start + "\n\n## Recent Commits\n\n"@);
        let ghost f = |c: RecentCommit| "- **"@ + c.short_hash@ + "** "@ + c.message@ + " - "@ + c.author@ + "\n"@;
        let ghost q0 = out@;
        let mut i: usize = 0;
        while i < items.len()
            invariant
                i <= items.len(),
                f == (|c: RecentCommit| "- **"@ + c.short_hash@ + "** "@ + c.message@ + " - "@ + c.author@ + "\n"@),
                out@ == q0 + concat_map(items@.take(i as int), f),
            decreases items.len() - i,
        {
            proof {
                lemma_concat_map_step(items@, f, i as int);
            }
            let ghost before = out@;
            let x = &items[i];
            push_str(out, "- **");
            push_string(out, &x.short_hash);
            push_str(out, "** ");
            push_string(out, &x.message);
            push_str(out, " - ");
            push_string(out, &x.author);
            push_str(out, "\n");
            assert(out@ =~= before + (f)(*x));
            i = i + 1;
            assert(out@ =~= q0 + concat_map(items@.take(i as int), f));
        }
        assert(items@.take(items.len() as int) =~= items@);
    }
    assert(out@ =~= start + listed("\n\n## Recent Commits\n\n"@, items@, |c: RecentCommit| "- **"@ + c.short_hash@ + "** "@ + c.message@ + " - "@ + c.author@ + "\n"@));
}

fn push_md_changes(out: &mut Vec<char>, items: &Vec<UncommittedChange>)
    ensures
        final(out)@ == old(out)@ + listed("\n\n## Uncommitted Changes\n\n"@, items@, |f: UncommittedChange| "- ["@ + f.status@ + "] "@ + f.path@ + "\n"@),
{
    let ghost start = out@;
    if items.len() > 0 {
        push_str(out, "\n\n## Uncommitted Changes\n\n");
        let ghost t = out@;
        assert(t =~= start + "\n\n## Uncommitted Changes\n\n"@);
        let ghost f = |f: UncommittedChange| "- ["@ + f.status@ + "] "@ + f.path@ + "\n"@;
        let ghost q0 = out@;
        let mut i: usize = 0;
        while i < items.len()
            invariant
                i <= items.len(),
                f == (|f: UncommittedChange| "- ["@ + f.status@ + "] "@ + f.path@ + "\n"@),
                out@ == q0 + concat_map(items@.take(i as int), f),
            decreases items.len() - i,
        {
            proof {
                lemma_concat_map_step(items@, f, i as int);
            }
            let ghost before = out@;
            let x = &items[i];
            push_str(out, "- [");
            push_string(out, &x.status);
            push_str(out, "] ");
            push_string(out, &x.path);
            push_str(out, "\n");
            assert(out@ =~= before + (f)(*x));
            i = i + 1;
            assert(out@ =~= q0 + concat_map(items@.take(i as int), f));
        }
        assert(items@.take(items.len() as int) =~= items@);
    }
    assert(out@ =~= start + listed("\n\n## Uncommitted Changes\n\n"@, items@, |f: UncommittedChange| "- ["@ + f.status@ + "] "@ + f.path@ + "\n"@));
}

fn push_plain_commits(out: &mut Vec<char>, items: &Vec<RecentCommit>)
    ensures
        final(out)@ == old(out)@ + listed("\n\nRECENT COMMITS\n"@ + "--------------\n"@, items@, |c: RecentCommit| c.short_hash@ + " "@ + c.message@ + " - "@ + c.author@ + "\n"@),
{
    let ghost start = out@;
    if items.len() > 0 {
        push_str(out, "\n\nRECENT COMMITS\n");
        push_str(out, "--------------\n");
        let ghost t = out@;
        assert(t =~= start + "\n\nRECENT COMMITS\n"@ + "--------------\n"@);
        let ghost f = |c: RecentCommit| c.short_hash@ + " "@ + c.message@ + " - "@ + c.author@ + "\n"@;
        let ghost q0 = out@;
        let mut i: usize = 0;
        while i < items.len()
            invariant
                i <= items.len(),
                f == (|c: RecentCommit| c.short_hash@ + " "@ + c.message@ + " - "@ + c.author@ + "\n"@),
                out@ == q0 + concat_map(items@.take(i as int), f),
            decreases items.len() - i,
        {
            proof {
                lemma_concat_map_step(items@, f, i as int);
            }
            let ghost before = out@;
            let x = &items[i];
            push_string(out, &x.short_hash);
            push_str(out, " ");
            push_string(out, &x.message);
            push_str(out, " - ");
            push_string(out, &x.author);
            push_str(out, "\n");
            assert(out@ =~= before + (f)(*x));
            i = i + 1;
            assert(out@ =~= q0 + concat_map(items@.take(i as int), f));
        }
        assert(items@.take(items.len() as int) =~= items@);
    }
    assert(out@ =~= start + listed("\n\nRECENT COMMITS\n"@ + "--------------\n"@, items@, |c: RecentCommit| c.short_hash@ + " "@ + c.message@ + " - "@ + c.author@ + "\n"@));
}

fn push_plain_changes(out: &mut Vec<char>, items: &Vec<UncommittedChange>)
    ensures
        final(out)@ == old(out)@ + listed("\n\nUNCOMMITTED CHANGES\n"@ + "-------------------\n"@, items@, |f: UncommittedChange| "["@ + f.status@ + "] "@ + f.path@ + "\n"@),
{
    let ghost start = out@;
    if items.len() > 0 {
        push_str(out, "\n\nUNCOMMITTED CHANGES\n");
        push_str(out, "-------------------\n");
        let ghost t = out@;
        assert(t =~= start + "\n\nUNCOMMITTED CHANGES\n"@ + "-------------------\n"@);
        let ghost f = |f: UncommittedChange| "["@ + f.status@ + "] "@ + f.path@ + "\n"@;
        let ghost q0 = out@;
        let mut i: usize = 0;
        while i < items.len()
            invariant
                i <= items.len(),
                f == (|f: UncommittedChange| "["@ + f.status@ + "] "@ + f.path@ + "\n"@),
                out@ == q0 + concat_map(items@.take(i as int), f),
            decreases items.len() - i,
        {
            proof {
                lemma_concat_map_step(items@, f, i as int);
            }
            let ghost before = out@;
            let x = &items[i];
            push_str(out, "[");
            push_string(out, &x.status);
            push_str(out, "] ");
            push_string(out, &x.path);
            push_str(out, "\n");
            assert(out@ =~= before + (f)(*x));
            i = i + 1;
            assert(out@ =~= q0 + concat_map(items@.take(i as int), f));
        }
        assert(items@.take(items.len() as int) =~= items@);
    }
    assert(out@ =~= start + listed("\n\nUNCOMMITTED CHANGES\n"@ + "-------------------\n"@, items@, |f: UncommittedChange| "["@ + f.status@ + "] "@ + f.path@ + "\n"@));
}

fn push_toon_commits(out: &mut Vec<char>, items: &Vec<RecentCommit>)
    ensures
        final(out)@ == old(out)@ + listed("\n\nrecent_commits["@ + count(items@.len()) + "]{hash,message,author}:\n"@, items@, |c: RecentCommit| "  "@ + c.short_hash@ + ","@ + c.message@ + ","@ + c.author@ + "\n"@),
{
    let ghost start = out@;
    if items.len() > 0 {
        push_str(out, "\n\nrecent_commits[");
        push_dec(out, items.len() as u64);
        push_str(out, "]{hash,message,author}:\n");
        let ghost t = out@;
        assert(t =~= start + "\n\nrecent_commits["@ + count(items@.len()) + "]{hash,message,author}:\n"@);
        let ghost f = |c: RecentCommit| "  "@ + c.short_hash@ + ","@ + c.message@ + ","@ + c.author@ + "\n"@;
        let ghost q0 = out@;
        let mut i: usize = 0;
        while i < items.len()
            invariant
                i <= items.len(),
                f == (|c: RecentCommit| "  "@ + c.short_hash@ + ","@ + c.message@ + ","@ + c.author@ + "\n"@),
                out@ == q0 + concat_map(items@.take(i as int), f),
            decreases items.len() - i,
        {
            proof {
                lemma_concat_map_step(items@, f, i as int);
            }
            let ghost before = out@;
            let x = &items[i];
            push_str(out, "  ");
            push_string(out, &x.short_hash);
            push_str(out, ",");
            push_string(out, &x.message);
            push_str(out, ",");
            push_string(out, &x.author);
            push_str(out, "\n");
            assert(out@ =~= before + (f)(*x));
            i = i + 1;
            assert(out@ =~= q0 + concat_map(items@.take(i as int), f));
        }
        assert(items@.take(items.len() as int) =~= items@);
    }
    assert(out@ =~= start + listed("\n\nrecent_commits["@ + count(items@.len()) + "]{hash,message,author}:\n"@, items@, |c: RecentCommit| "  "@ + c.short_hash@ + ","@ + c.message@ + ","@ + c.author@ + "\n"@));
}

fn push_toon_changes(out: &mut Vec<char>, items: &Vec<UncommittedChange>)
    ensures
        final(out)@ == old(out)@ + listed("\n\nuncommitted_changes["@ + count(items@.len()) + "]{status,path}:\n"@, items@, |f: UncommittedChange| "  "@ + f.status@ + ","@ + f.path@ + "\n"@),
{
    let ghost start = out@;
    if items.len() > 0 {
        push_str(out, "\n\nuncommitted_changes[");
        push_dec(out, items.len() as u64);
        push_str(out, "]{status,path}:\n");
        let ghost t = out@;
        assert(t =~= start + "\n\nuncommitted_changes["@ + count(items@.len()) + "]{status,path}:\n"@);
        let ghost f = |f: UncommittedChange| "  "@ + f.status@ + ","@ + f.path@ + "\n"@;
        let ghost q0 = out@;
        let mut i: usize = 0;
        while i < items.len()
            invariant
                i <= items.len(),
                f == (|f: UncommittedChange| "  "@ + f.status@ + ","@ + f.path@ + "\n"@),
                out@ == q0 + concat_map(items@.take(i as int), f),
            decreases items.len() - i,
        {
            proof {
                lemma_concat_map_step(items@, f, i as int);
            }
            let ghost before = out@;
            let x = &items[i];
            push_str(out, "  ");
            push_string(out, &x.status);
            push_str(out, ",");
            push_string(out, &x.path);
            push_str(out, "\n");
            assert(out@ =~= before + (f)(*x));
            i = i + 1;
            assert(out@ =~= q0 + concat_map(items@.take(i as int), f));
        }
        assert(items@.take(items.len() as int) =~= items@);
    }
    assert(out@ =~= start + listed("\n\nuncommitted_changes["@ + count(items@.len()) + "]{status,path}:\n"@, items@, |f: UncommittedChange| "  "@ + f.status@ + ","@ + f.path@ + "\n"@));
}

fn push_yaml_commits(out: &mut Vec<char>, items: &Vec<RecentCommit>)
    ensures
        final(out)@ == old(out)@ + listed("\nrecent_commits:\n"@, items@, |c: RecentCommit|
            "  - hash: "@ + yaml_quote(c.short_hash@) + "\n    message: "@ + yaml_quote(c.message@)
                + "\n    author: "@ + yaml_quote(c.author@) + "\n"@),
{
    let ghost start = out@;
    if items.len() > 0 {
        push_str(out, "\nrecent_commits:\n");
        let ghost t = out@;
        assert(t =~= start + "\nrecent_commits:\n"@);
        let ghost f = |c: RecentCommit|
                    "  - hash: "@ + yaml_quote(c.short_hash@) + "\n    message: "@ + yaml_quote(c.message@)
                        + "\n    author: "@ + yaml_quote(c.author@) + "\n"@;
        let ghost q0 = out@;
        let mut i: usize = 0;
        while i < items.len()
            invariant
                i <= items.len(),
                f == (|c: RecentCommit|
                    "  - hash: "@ + yaml_quote(c.short_hash@) + "\n    message: "@ + yaml_quote(c.message@)
                        + "\n    author: "@ + yaml_quote(c.author@) + "\n"@),
                out@ == q0 + concat_map(items@.take(i as int), f),
            decreases items.len() - i,
        {
            proof {
                lemma_concat_map_step(items@, f, i as int);
            }
            let ghost before = out@;
            let x = &items[i];
            push_str(out, "  - hash: ");
            push_yaml_quoted(out, &x.short_hash);
            push_str(out, "\n    message: ");
            push_yaml_quoted(out, &x.message);
            push_str(out, "\n    author: ");
            push_yaml_quoted(out, &x.author);
            push_str(out, "\n");
            assert(out@ =~= before + (f)(*x));
            i = i + 1;
            assert(out@ =~= q0 + concat_map(items@.take(i as int), f));
        }
        assert(items@.take(items.len() as int) =~= items@);
    }
    assert(out@ =~= start + listed("\nrecent_commits:\n"@, items@, |c: RecentCommit|
            "  - hash: "@ + yaml_quote(c.short_hash@) + "\n    message: "@ + yaml_quote(c.message@)
                + "\n    author: "@ + yaml_quote(c.author@) + "\n"@));
}

fn push_yaml_changes(out: &mut Vec<char>, items: &Vec<UncommittedChange>)
    ensures
        final(out)@ == old(out)@ + listed("\nuncommitted_changes:\n"@, items@, |f: UncommittedChange|
            "  - status: "@ + yaml_quote(f.status@) + "\n    path: "@ + yaml_quote(f.path@) + "\n"@),
{
    let ghost start = out@;
    if items.len() > 0 {
        push_str(out, "\nuncommitted_changes:\n");
        let ghost t = out@;
        assert(t =~= start + "\nuncommitted_changes:\n"@);
        let ghost f = |f: UncommittedChange|
                    "  - status: "@ + yaml_quote(f.status@) + "\n    path: "@ + yaml_quote(f.path@) + "\n"@;
        let ghost q0 = out@;
        let mut i: usize = 0;
        while i < items.len()
            invariant
                i <= items.len(),
                f == (|f: UncommittedChange|
                    "  - status: "@ + yaml_quote(f.status@) + "\n    path: "@ + yaml_quote(f.path@) + "\n"@),
                out@ == q0 + concat_map(items@.take(i as int), f),
            decreases items.len() - i,
        {
            proof {
                lemma_concat_map_step(items@, f, i as int);
            }
            let ghost before = out@;
            let x = &items[i];
            push_str(out, "  - status: ");
            push_yaml_quoted(out, &x.status);
            push_str(out, "\n    path: ");
            push_yaml_quoted(out, &x.path);
            push_str(out, "\n");
            assert(out@ =~= before + (f)(*x));
            i = i + 1;
            assert(out@ =~= q0 + concat_map(items@.take(i as int), f));
        }
        assert(items@.take(items.len() as int) =~= items@);
    }
    assert(out@ =~= start + listed("\nuncommitted_changes:\n"@, items@, |f: UncommittedChange|
            "  - status: "@ + yaml_quote(f.status@) + "\n    path: "@ + yaml_quote(f.path@) + "\n"@));
}

/// Appends the recent commits and uncommitted changes of `history` in the
/// markdown style; see `git_markdown`.
pub fn append_git_context_markdown(output: &mut String, history: &GitHistory)
    ensures
        final(output)@ == old(output)@ + git_markdown(*history),
{
    let mut out = chars_of(output.as_str());
    push_md_commits(&mut out, &history.commits);
    push_md_changes(&mut out, &history.changed_files);
    *output = string_from_chars(&out);
}

fn push_git_markdown(out: &mut Vec<char>, history: &GitHistory)
    ensures
        final(out)@ == old(out)@ + git_markdown(*history),
{
    push_md_commits(out, &history.commits);
    push_md_changes(out, &history.changed_files);
}

/// Appends the recent commits and uncommitted changes of `history` in the
/// plain style; see `git_plain`.
pub fn append_git_context_plain(output: &mut String, history: &GitHistory)
    ensures
        final(output)@ == old(output)@ + git_plain(*history),
{
    let mut out = chars_of(output.as_str());
    push_plain_commits(&mut out, &history.commits);
    push_plain_changes(&mut out, &history.changed_files);
    *output = string_from_chars(&out);
}

fn push_git_plain(out: &mut Vec<char>, history: &GitHistory)
    ensures
        final(out)@ == old(out)@ + git_plain(*history),
{
    push_plain_commits(out, &history.commits);
    push_plain_changes(out, &history.changed_files);
}

/// Appends the recent commits and uncommitted changes of `history` in the
/// toon style; see `git_toon`.
pub fn append_git_context_toon(output: &mut String, history: &GitHistory)
    ensures
        final(output)@ == old(output)@ + git_toon(*history),
{
    let mut out = chars_of(output.as_str());
    push_toon_commits(&mut out, &history.commits);
    push_toon_changes(&mut out, &history.changed_files);
    *output = string_from_chars(&out);
}

fn push_git_toon(out: &mut Vec<char>, history: &GitHistory)
    ensures
        final(out)@ == old(out)@ + git_toon(*history),
{
    push_toon_commits(out, &history.commits);
    push_toon_changes(out, &history.changed_files);
}

/// Appends the recent commits and uncommitted changes of `history` in the
/// yaml style; see `git_yaml`.
pub fn append_git_context_yaml(output: &mut String, history: &GitHistory)
    ensures
        final(output)@ == old(output)@ + git_yaml(*history),
{
    let mut out = chars_of(output.as_str());
    push_yaml_commits(&mut out, &history.commits);
    push_yaml_changes(&mut out, &history.changed_files);
    *output = string_from_chars(&out);
}

fn push_git_yaml(out: &mut Vec<char>, history: &GitHistory)
    ensures
        final(out)@ == old(out)@ + git_yaml(*history),
{
    push_yaml_commits(out, &history.commits);
    push_yaml_changes(out, &history.changed_files);
}

// ---------------------------------------------------------------------------
// Entries
// ---------------------------------------------------------------------------

pub open spec fn issue_line(e: SecurityIssueEntry) -> Seq<char> {
    "- ["@ + e.severity@ + "] "@ + e.kind@ + " in "@ + e.file@ + " (line "@ + dec(e.line as u64) + ")\n"@
}

pub open spec fn issue_toon(e: SecurityIssueEntry) -> Seq<char> {
    "  "@ + e.severity@ + ","@ + e.kind@ + ","@ + e.file@ + ","@ + dec(e.line as u64) + "\n"@
}

pub open spec fn issue_yaml(e: SecurityIssueEntry) -> Seq<char> {
    "    - file: "@ + yaml_quote(e.file@) + "\n      line: "@ + dec(e.line as u64) + "\n      kind: "@
        + yaml_quote(e.kind@) + "\n      severity: "@ + yaml_quote(e.severity@) + "\n"@
}

pub open spec fn issue_xml(e: SecurityIssueEntry) -> Seq<char> {
    "      <issue file=\""@ + xml_escape(e.file@) + "\" line=\""@ + dec(e.line as u64) + "\" kind=\""@
        + xml_escape(e.kind@) + "\" severity=\""@ + xml_escape(e.severity@) + "\"/>\n"@
}

pub open spec fn tree_md(e: TokenTreeEntry) -> Seq<char> {
    "| "@ + e.path@ + " | "@ + dec(e.tokens as u64) + " |\n"@
}

pub open spec fn tree_plain(e: TokenTreeEntry) -> Seq<char> {
    "- "@ + e.path@ + ": "@ + dec(e.tokens as u64) + "\n"@
}

pub open spec fn tree_toon(e: TokenTreeEntry) -> Seq<char> {
    "  "@ + e.path@ + ","@ + dec(e.tokens as u64) + "\n"@
}

pub open spec fn tree_yaml(e: TokenTreeEntry) -> Seq<char> {
    "    - path: "@ + yaml_quote(e.path@) + "\n      tokens: "@ + dec(e.tokens as u64) + "\n"@
}

pub open spec fn tree_xml(e: TokenTreeEntry) -> Seq<char> {
    "      <file path=\""@ + xml_escape(e.path@) + "\" tokens=\""@ + dec(e.tokens as u64) + "\"/>\n"@
}

fn push_issue_lines(out: &mut Vec<char>, items: &Vec<SecurityIssueEntry>)
    ensures
        final(out)@ == old(out)@ + concat_map(items@, |e: SecurityIssueEntry| issue_line(e)),
{
    let ghost f = |e: SecurityIssueEntry| issue_line(e);
    let ghost q0 = out@;
    let mut i: usize = 0;
    while i < items.len()
        invariant
            i <= items.len(),
            f == (|e: SecurityIssueEntry| issue_line(e)),
            out@ == q0 + concat_map(items@.take(i as int), f),
        decreases items.len() - i,
    {
        proof {
            lemma_concat_map_step(items@, f, i as int);
        }
        let ghost before = out@;
        let x = &items[i];
        push_str(out, "- [");
        push_string(out, &x.severity);
        push_str(out, "] ");
        push_string(out, &x.kind);
        push_str(out, " in ");
        push_string(out, &x.file);
        push_str(out, " (line ");
        push_dec(out, x.line as u64);
        push_str(out, ")\n");
        assert(out@ =~= before + f(*x));
        i = i + 1;
        assert(out@ =~= q0 + concat_map(items@.take(i as int), f));
    }
    assert(items@.take(items.len() as int) =~= items@);
}

fn push_issue_toon(out: &mut Vec<char>, items: &Vec<SecurityIssueEntry>)
    ensures
        final(out)@ == old(out)@ + concat_map(items@, |e: SecurityIssueEntry| issue_toon(e)),
{
    let ghost f = |e: SecurityIssueEntry| issue_toon(e);
    let ghost q0 = out@;
    let mut i: usize = 0;
    while i < items.len()
        invariant
            i <= items.len(),
            f == (|e: SecurityIssueEntry| issue_toon(e)),
            out@ == q0 + concat_map(items@.take(i as int), f),
        decreases items.len() - i,
    {
        proof {
            lemma_concat_map_step(items@, f, i as int);
        }
        let ghost before = out@;
        let x = &items[i];
        push_str(out, "  ");
        push_string(out, &x.severity);
        push_str(out, ",");
        push_string(out, &x.kind);
        push_str(out, ",");
        push_string(out, &x.file);
        push_str(out, ",");
        push_dec(out, x.line as u64);
        push_str(out, "\n");
        assert(out@ =~= before + f(*x));
        i = i + 1;
        assert(out@ =~= q0 + concat_map(items@.take(i as int), f));
    }
    assert(items@.take(items.len() as int) =~= items@);
}

fn push_issue_yaml(out: &mut Vec<char>, items: &Vec<SecurityIssueEntry>)
    ensures
        final(out)@ == old(out)@ + concat_map(items@, |e: SecurityIssueEntry| issue_yaml(e)),
{
    let ghost f = |e: SecurityIssueEntry| issue_yaml(e);
    let ghost q0 = out@;
    let mut i: usize = 0;
    while i < items.len()
        invariant
            i <= items.len(),
            f == (|e: SecurityIssueEntry| issue_yaml(e)),
            out@ == q0 + concat_map(items@.take(i as int), f),
        decreases items.len() - i,
    {
        proof {
            lemma_concat_map_step(items@, f, i as int);
        }
        let ghost before = out@;
        let x = &items[i];
        push_str(out, "    - file: ");
        push_yaml_quoted(out, &x.file);
        push_str(out, "\n      line: ");
        push_dec(out, x.line as u64);
        push_str(out, "\n      kind: ");
        push_yaml_quoted(out, &x.kind);
        push_str(out, "\n      severity: ");
        push_yaml_quoted(out, &x.severity);
        push_str(out, "\n");
        assert(out@ =~= before + f(*x));
        i = i + 1;
        assert(out@ =~= q0 + concat_map(items@.take(i as int), f));
    }
    assert(items@.take(items.len() as int) =~= items@);
}

fn push_issue_xml(out: &mut Vec<char>, items: &Vec<SecurityIssueEntry>)
    ensures
        final(out)@ == old(out)@ + concat_map(items@, |e: SecurityIssueEntry| issue_xml(e)),
{
    let ghost f = |e: SecurityIssueEntry| issue_xml(e);
    let ghost q0 = out@;
    let mut i: usize = 0;
    while i < items.len()
        invariant
            i <= items.len(),
            f == (|e: SecurityIssueEntry| issue_xml(e)),
            out@ == q0 + concat_map(items@.take(i as int), f),
        decreases items.len() - i,
    {
        proof {
            lemma_concat_map_step(items@, f, i as int);
        }
        let ghost before = out@;
        let x = &items[i];
        push_str(out, "      <issue file=\"");
        push_xml_escaped(out, x.file.as_str());
        push_str(out, "\" line=\"");
        push_dec(out, x.line as u64);
        push_str(out, "\" kind=\"");
        push_xml_escaped(out, x.kind.as_str());
        push_str(out, "\" severity=\"");
        push_xml_escaped(out, x.severity.as_str());
        push_str(out, "\"/>\n");
        assert(out@ =~= before + f(*x));
        i = i + 1;
        assert(out@ =~= q0 + concat_map(items@.take(i as int), f));
    }
    assert(items@.take(items.len() as int) =~= items@);
}

fn push_tree_md(out: &mut Vec<char>, items: &Vec<TokenTreeEntry>)
    ensures
        final(out)@ == old(out)@ + concat_map(items@, |e: TokenTreeEntry| tree_md(e)),
{
    let ghost f = |e: TokenTreeEntry| tree_md(e);
    let ghost q0 = out@;
    let mut i: usize = 0;
    while i < items.len()
        invariant
            i <= items.len(),
            f == (|e: TokenTreeEntry| tree_md(e)),
            out@ == q0 + concat_map(items@.take(i as int), f),
        decreases items.len() - i,
    {
        proof {
            lemma_concat_map_step(items@, f, i as int);
        }
        let ghost before = out@;
        let x = &items[i];
        push_str(out, "| ");
        push_string(out, &x.path);
        push_str(out, " | ");
        push_dec(out, x.tokens as u64);
        push_str(out, " |\n");
        assert(out@ =~= before + f(*x));
        i = i + 1;
        assert(out@ =~= q0 + concat_map(items@.take(i as int), f));
    }
    assert(items@.take(items.len() as int) =~= items@);
}

fn push_tree_plain(out: &mut Vec<char>, items: &Vec<TokenTreeEntry>)
    ensures
        final(out)@ == old(out)@ + concat_map(items@, |e: TokenTreeEntry| tree_plain(e)),
{
    let ghost f = |e: TokenTreeEntry| tree_plain(e);
    let ghost q0 = out@;
    let mut i: usize = 0;
    while i < items.len()
        invariant
            i <= items.len(),
            f == (|e: TokenTreeEntry| tree_plain(e)),
            out@ == q0 + concat_map(items@.take(i as int), f),
        decreases items.len() - i,
    {
        proof {
            lemma_concat_map_step(items@, f, i as int);
        }
        let ghost before = out@;
        let x = &items[i];
        push_str(out, "- ");
        push_string(out, &x.path);
        push_str(out, ": ");
        push_dec(out, x.tokens as u64);
        push_str(out, "\n");
        assert(out@ =~= before + f(*x));
        i = i + 1;
        assert(out@ =~= q0 + concat_map(items@.take(i as int), f));
    }
    assert(items@.take(items.len() as int) =~= items@);
}

fn push_tree_toon(out: &mut Vec<char>, items: &Vec<TokenTreeEntry>)
    ensures
        final(out)@ == old(out)@ + concat_map(items@, |e: TokenTreeEntry| tree_toon(e)),
{
    let ghost f = |e: TokenTreeEntry| tree_toon(e);
    let ghost q0 = out@;
    let mut i: usize = 0;
    while i < items.len()
        invariant
            i <= items.len(),
            f == (|e: TokenTreeEntry| tree_toon(e)),
            out@ == q0 + concat_map(items@.take(i as int), f),
        decreases items.len() - i,
    {
        proof {
            lemma_concat_map_step(items@, f, i as int);
        }
        let ghost before = out@;
        let x = &items[i];
        push_str(out, "  ");
        push_string(out, &x.path);
        push_str(out, ",");
        push_dec(out, x.tokens as u64);
        push_str(out, "\n");
        assert(out@ =~= before + f(*x));
        i = i + 1;
        assert(out@ =~= q0 + concat_map(items@.take(i as int), f));
    }
    assert(items@.take(items.len() as int) =~= items@);
}

fn push_tree_yaml(out: &mut Vec<char>, items: &Vec<TokenTreeEntry>)
    ensures
        final(out)@ == old(out)@ + concat_map(items@, |e: TokenTreeEntry| tree_yaml(e)),
{
    let ghost f = |e: TokenTreeEntry| tree_yaml(e);
    let ghost q0 = out@;
    let mut i: usize = 0;
    while i < items.len()
        invariant
            i <= items.len(),
            f == (|e: TokenTreeEntry| tree_yaml(e)),
            out@ == q0 + concat_map(items@.take(i as int), f),
        decreases items.len() - i,
    {
        proof {
            lemma_concat_map_step(items@, f, i as int);
        }
        let ghost before = out@;
        let x = &items[i];
        push_str(out, "    - path: ");
        push_yaml_quoted(out, &x.path);
        push_str(out, "\n      tokens: ");
        push_dec(out, x.tokens as u64);
        push_str(out, "\n");
        assert(out@ =~= before + f(*x));
        i = i + 1;
        assert(out@ =~= q0 + concat_map(items@.take(i as int), f));
    }
    assert(items@.take(items.len() as int) =~= items@);
}

fn push_tree_xml(out: &mut Vec<char>, items: &Vec<TokenTreeEntry>)
    ensures
        final(out)@ == old(out)@ + concat_map(items@, |e: TokenTreeEntry| tree_xml(e)),
{
    let ghost f = |e: TokenTreeEntry| tree_xml(e);
    let ghost q0 = out@;
    let mut i: usize = 0;
    while i < items.len()
        invariant
            i <= items.len(),
            f == (|e: TokenTreeEntry| tree_xml(e)),
            out@ == q0 + concat_map(items@.take(i as int), f),
        decreases items.len() - i,
    {
        proof {
            lemma_concat_map_step(items@, f, i as int);
        }
        let ghost before = out@;
        let x = &items[i];
        push_str(out, "      <file path=\"");
        push_xml_escaped(out, x.path.as_str());
        push_str(out, "\" tokens=\"");
        push_dec(out, x.tokens as u64);
        push_str(out, "\"/>\n");
        assert(out@ =~= before + f(*x));
        i = i + 1;
        assert(out@ =~= q0 + concat_map(items@.take(i as int), f));
    }
    assert(items@.take(items.len() as int) =~= items@);
}

// ---------------------------------------------------------------------------
// The formats
// ---------------------------------------------------------------------------

pub open spec fn security_md(es: Seq<SecurityIssueEntry>) -> Seq<char> {
    "\n\n## Security Scan Results\n\n"@ + "Found "@ + count(es.len()) + " potential security issues.\n\n"@
        + concat_map(es, |e: SecurityIssueEntry| issue_line(e))
}

pub open spec fn token_tree_md(es: Seq<TokenTreeEntry>, model: Seq<char>) -> Seq<char> {
    "\n\n## Token Tree\n\n| File | Tokens ("@ + model + ") |\n|------|--------|\n"@ + concat_map(
        es,
        |e: TokenTreeEntry| tree_md(e),
    )
}

/// Markdown: the header before the output, then git activity, security
/// findings, the token tree and the instructions after it.
pub open spec fn markdown_extras(out: Seq<char>, model: Seq<char>, x: PackExtras) -> Seq<char> {
    opt_piece(x.header_text, |h: String| h@ + "\n\n"@) + out + opt_piece(
        x.git_history,
        |g: GitHistory| git_markdown(g),
    ) + opt_piece(x.security_issues, |es: Vec<SecurityIssueEntry>| security_md(es@)) + opt_piece(
        x.token_tree,
        |es: Vec<TokenTreeEntry>| token_tree_md(es@, model),
    ) + opt_piece(x.instructions, |i: String| "\n\n## Instructions\n\n"@ + i@)
}

pub open spec fn security_plain(es: Seq<SecurityIssueEntry>) -> Seq<char> {
    "\n\nSECURITY SCAN RESULTS\n"@ + "----------------------\n"@ + "Found "@ + count(es.len())
        + " potential security issues.\n"@ + concat_map(es, |e: SecurityIssueEntry| issue_line(e))
}

pub open spec fn token_tree_plain(es: Seq<TokenTreeEntry>, model: Seq<char>) -> Seq<char> {
    "\n\nTOKEN TREE ("@ + model + ")\n"@ + "----------------------\n"@ + concat_map(
        es,
        |e: TokenTreeEntry| tree_plain(e),
    )
}

/// Plain text: as Markdown, with upper-case underlined titles.
pub open spec fn plain_extras(out: Seq<char>, model: Seq<char>, x: PackExtras) -> Seq<char> {
    opt_piece(x.header_text, |h: String| h@ + "\n\n"@) + out + opt_piece(
        x.git_history,
        |g: GitHistory| git_plain(g),
    ) + opt_piece(x.security_issues, |es: Vec<SecurityIssueEntry>| security_plain(es@)) + opt_piece(
        x.token_tree,
        |es: Vec<TokenTreeEntry>| token_tree_plain(es@, model),
    ) + opt_piece(x.instructions, |i: String| "\n\nINSTRUCTIONS\n"@ + "------------\n"@ + i@)
}

pub open spec fn security_toon(es: Seq<SecurityIssueEntry>) -> Seq<char> {
    "\n\nsecurity_scan["@ + count(es.len()) + "]{severity,kind,file,line}:\n"@ + concat_map(
        es,
        |e: SecurityIssueEntry| issue_toon(e),
    )
}

pub open spec fn token_tree_toon(es: Seq<TokenTreeEntry>, model: Seq<char>) -> Seq<char> {
    "\n\ntoken_tree_model: "@ + model + "\n"@ + "token_tree["@ + count(es.len()) + "]{path,tokens}:\n"@
        + concat_map(es, |e: TokenTreeEntry| tree_toon(e))
}

/// TOON: the header as a block before the output; after it git activity,
/// security findings, the token tree and the instructions as a block.
pub open spec fn toon_extras(out: Seq<char>, model: Seq<char>, x: PackExtras) -> Seq<char> {
    opt_piece(
        x.header_text,
        |h: String| "header_text: |\n"@ + indented_by(lines(h@), "  "@) + "\n"@,
    ) + out + opt_piece(x.git_history, |g: GitHistory| git_toon(g)) + opt_piece(
        x.security_issues,
        |es: Vec<SecurityIssueEntry>| security_toon(es@),
    ) + opt_piece(x.token_tree, |es: Vec<TokenTreeEntry>| token_tree_toon(es@, model)) + opt_piece(
        x.instructions,
        |i: String| "\n\ninstructions: |\n"@ + indented_by(lines(i@), "  "@),
    )
}

pub open spec fn token_tree_yaml(es: Seq<TokenTreeEntry>, model: Seq<char>) -> Seq<char> {
    "\ntoken_tree:\n"@ + "  model: "@ + yaml_quote(model) + "\n"@ + "  files:\n"@ + concat_map(
        es,
        |e: TokenTreeEntry| tree_yaml(e),
    )
}

pub open spec fn security_yaml(es: Seq<SecurityIssueEntry>) -> Seq<char> {
    "\nsecurity_scan:\n"@ + "  issues_found: "@ + count(es.len()) + "\n"@ + "  issues:\n"@ + concat_map(
        es,
        |e: SecurityIssueEntry| issue_yaml(e),
    )
}

/// YAML: the output ended with a newline, then block scalars for the header
/// and the instructions, the token tree, security findings and git
/// activity.
pub open spec fn yaml_extras(out: Seq<char>, model: Seq<char>, x: PackExtras) -> Seq<char> {
    nl_terminated(out) + opt_piece(x.header_text, |h: String| yaml_block("header_text"@, h@))
        + opt_piece(x.instructions, |i: String| yaml_block("instructions"@, i@)) + opt_piece(
        x.token_tree,
        |es: Vec<TokenTreeEntry>| token_tree_yaml(es@, model),
    ) + opt_piece(x.security_issues, |es: Vec<SecurityIssueEntry>| security_yaml(es@)) + opt_piece(
        x.git_history,
        |g: GitHistory| git_yaml(g),
    )
}

/// Whether the XML output gets an `<extras>` element.
pub open spec fn xml_has_extras(x: PackExtras) -> bool {
    x.header_text is Some || x.instructions is Some || x.token_tree is Some
        || x.security_issues is Some
}

/// The `<extras>` element: header, instructions, token tree and security
/// findings (git activity is not shown in XML).
pub open spec fn xml_extras_block(model: Seq<char>, x: PackExtras) -> Seq<char> {
    "  <extras>\n"@ + opt_piece(
        x.header_text,
        |h: String| "    <header_text>"@ + xml_escape(h@) + "</header_text>\n"@,
    ) + opt_piece(
        x.instructions,
        |i: String| "    <instructions>"@ + xml_escape(i@) + "</instructions>\n"@,
    ) + opt_piece(x.token_tree, |es: Vec<TokenTreeEntry>| xml_token_tree(es@, model)) + opt_piece(
        x.security_issues,
        |es: Vec<SecurityIssueEntry>| xml_security(es@),
    ) + "  </extras>\n"@
}

pub open spec fn xml_token_tree(es: Seq<TokenTreeEntry>, model: Seq<char>) -> Seq<char> {
    "    <token_tree model=\""@ + xml_escape(model) + "\">\n"@ + concat_map(
        es,
        |e: TokenTreeEntry| tree_xml(e),
    ) + "    </token_tree>\n"@
}

pub open spec fn xml_security(es: Seq<SecurityIssueEntry>) -> Seq<char> {
    "    <security_scan issues=\""@ + count(es.len()) + "\">\n"@ + concat_map(
        es,
        |e: SecurityIssueEntry| issue_xml(e),
    ) + "    </security_scan>\n"@
}

/// The last position at or before `i` where `p` occurs in `s`.
pub open spec fn rfind_from(s: Seq<char>, p: Seq<char>, i: int) -> Option<int>
    decreases i + 1,
{
    if i < 0 {
        None
    } else if occurs_at(s, p, i) {
        Some(i)
    } else {
        rfind_from(s, p, i - 1)
    }
}

/// The last occurrence of `p` in `s` (`str::rfind`).
pub open spec fn rfind(s: Seq<char>, p: Seq<char>) -> Option<int> {
    rfind_from(s, p, s.len() - p.len())
}

/// XML: the `<extras>` element goes on a line of its own before the last
/// `</repository>`, or after the output when there is none.
pub open spec fn xml_extras(out: Seq<char>, model: Seq<char>, x: PackExtras) -> Seq<char> {
    if !xml_has_extras(x) {
        out
    } else {
        let ex = xml_extras_block(model, x);
        match rfind(out, "</repository>"@) {
            Some(pos) => out.subrange(0, pos) + "\n"@ + ex + out.subrange(pos, out.len() as int),
            None => out + "\n"@ + ex,
        }
    }
}

/// The output with the extras added in the style of `format`; JSON output
/// is handled by `json_with_extras`, so it has none here.
pub open spec fn pack_extras_text(out: Seq<char>, format: OutputFormat, model: Seq<char>, x: PackExtras) -> Option<
    Seq<char>,
> {
    match format {
        OutputFormat::Json => None,
        OutputFormat::Yaml => Some(yaml_extras(out, model, x)),
        OutputFormat::Xml => Some(xml_extras(out, model, x)),
        OutputFormat::Markdown => Some(markdown_extras(out, model, x)),
        OutputFormat::Plain => Some(plain_extras(out, model, x)),
        OutputFormat::Toon => Some(toon_extras(out, model, x)),
    }
}

fn push_security_md(out: &mut Vec<char>, es: &Vec<SecurityIssueEntry>)
    ensures
        final(out)@ == old(out)@ + security_md(es@),
{
    let ghost start = out@;
    push_str(out, "\n\n## Security Scan Results\n\n");
    push_str(out, "Found ");
    push_dec(out, es.len() as u64);
    push_str(out, " potential security issues.\n\n");
    push_issue_lines(out, es);
    assert(out@ =~= start + security_md(es@));
}

fn push_token_tree_md(out: &mut Vec<char>, es: &Vec<TokenTreeEntry>, model: &str)
    ensures
        final(out)@ == old(out)@ + token_tree_md(es@, model@),
{
    let ghost start = out@;
    push_str(out, "\n\n## Token Tree\n\n| File | Tokens (");
    push_str(out, model);
    push_str(out, ") |\n|------|--------|\n");
    push_tree_md(out, es);
    assert(out@ =~= start + token_tree_md(es@, model@));
}

fn push_security_plain(out: &mut Vec<char>, es: &Vec<SecurityIssueEntry>)
    ensures
        final(out)@ == old(out)@ + security_plain(es@),
{
    let ghost start = out@;
    push_str(out, "\n\nSECURITY SCAN RESULTS\n");
    push_str(out, "----------------------\n");
    push_str(out, "Found ");
    push_dec(out, es.len() as u64);
    push_str(out, " potential security issues.\n");
    push_issue_lines(out, es);
    assert(out@ =~= start + security_plain(es@));
}

fn push_token_tree_plain(out: &mut Vec<char>, es: &Vec<TokenTreeEntry>, model: &str)
    ensures
        final(out)@ == old(out)@ + token_tree_plain(es@, model@),
{
    let ghost start = out@;
    push_str(out, "\n\nTOKEN TREE (");
    push_str(out, model);
    push_str(out, ")\n");
    push_str(out, "----------------------\n");
    push_tree_plain(out, es);
    assert(out@ =~= start + token_tree_plain(es@, model@));
}

fn push_security_toon(out: &mut Vec<char>, es: &Vec<SecurityIssueEntry>)
    ensures
        final(out)@ == old(out)@ + security_toon(es@),
{
    let ghost start = out@;
    push_str(out, "\n\nsecurity_scan[");
    push_dec(out, es.len() as u64);
    push_str(out, "]{severity,kind,file,line}:\n");
    push_issue_toon(out, es);
    assert(out@ =~= start + security_toon(es@));
}

fn push_token_tree_toon(out: &mut Vec<char>, es: &Vec<TokenTreeEntry>, model: &str)
    ensures
        final(out)@ == old(out)@ + token_tree_toon(es@, model@),
{
    let ghost start = out@;
    push_str(out, "\n\ntoken_tree_model: ");
    push_str(out, model);
    push_str(out, "\n");
    push_str(out, "token_tree[");
    push_dec(out, es.len() as u64);
    push_str(out, "]{path,tokens}:\n");
    push_tree_toon(out, es);
    assert(out@ =~= start + token_tree_toon(es@, model@));
}

fn push_token_tree_yaml(out: &mut Vec<char>, es: &Vec<TokenTreeEntry>, model: &str)
    ensures
        final(out)@ == old(out)@ + token_tree_yaml(es@, model@),
{
    let ghost start = out@;
    push_str(out, "\ntoken_tree:\n");
    push_str(out, "  model: ");
    let q = escape_yaml_string(model);
    push_string(out, &q);
    push_str(out, "\n");
    push_str(out, "  files:\n");
    push_tree_yaml(out, es);
    assert(out@ =~= start + token_tree_yaml(es@, model@));
}

fn push_security_yaml(out: &mut Vec<char>, es: &Vec<SecurityIssueEntry>)
    ensures
        final(out)@ == old(out)@ + security_yaml(es@),
{
    let ghost start = out@;
    push_str(out, "\nsecurity_scan:\n");
    push_str(out, "  issues_found: ");
    push_dec(out, es.len() as u64);
    push_str(out, "\n");
    push_str(out, "  issues:\n");
    push_issue_yaml(out, es);
    assert(out@ =~= start + security_yaml(es@));
}

fn push_yaml_block(out: &mut Vec<char>, key: &str, value: &String)
    ensures
        final(out)@ == old(out)@ + yaml_block(key@, value@),
{
    let mut block = String::new();
    append_yaml_block(&mut block, key, value.as_str());
    assert(block@ =~= yaml_block(key@, value@));
    push_string(out, &block);
}

fn markdown_with_extras(output_text: &String, model: &str, x: &PackExtras) -> (r: Vec<char>)
    ensures
        r@ == markdown_extras(output_text@, model@, *x),
{
    let mut out: Vec<char> = Vec::new();
    match &x.header_text {
        Some(h) => {
            push_string(&mut out, h);
            push_str(&mut out, "\n\n");
        },
        None => {},
    }
    push_string(&mut out, output_text);
    let ghost a = out@;
    match &x.git_history {
        Some(g) => push_git_markdown(&mut out, g),
        None => {},
    }
    let ghost b = out@;
    match &x.security_issues {
        Some(es) => push_security_md(&mut out, es),
        None => {},
    }
    let ghost c = out@;
    match &x.token_tree {
        Some(es) => push_token_tree_md(&mut out, es, model),
        None => {},
    }
    let ghost d = out@;
    match &x.instructions {
        Some(i) => {
            push_str(&mut out, "\n\n## Instructions\n\n");
            push_string(&mut out, i);
        },
        None => {},
    }
    assert(out@ =~= markdown_extras(output_text@, model@, *x));
    out
}

fn plain_with_extras(output_text: &String, model: &str, x: &PackExtras) -> (r: Vec<char>)
    ensures
        r@ == plain_extras(output_text@, model@, *x),
{
    let mut out: Vec<char> = Vec::new();
    match &x.header_text {
        Some(h) => {
            push_string(&mut out, h);
            push_str(&mut out, "\n\n");
        },
        None => {},
    }
    assert(out@ =~= opt_piece(x.header_text, |h: String| h@ + "\n\n"@));
    push_string(&mut out, output_text);
    let ghost p1 = out@;
    match &x.git_history {
        Some(g) => push_git_plain(&mut out, g),
        None => {},
    }
    assert(out@ =~= p1 + opt_piece(x.git_history, |g: GitHistory| git_plain(g)));
    let ghost p2 = out@;
    match &x.security_issues {
        Some(es) => push_security_plain(&mut out, es),
        None => {},
    }
    assert(out@ =~= p2 + opt_piece(x.security_issues, |es: Vec<SecurityIssueEntry>| security_plain(es@)));
    let ghost p3 = out@;
    match &x.token_tree {
        Some(es) => push_token_tree_plain(&mut out, es, model),
        None => {},
    }
    assert(out@ =~= p3 + opt_piece(x.token_tree, |es: Vec<TokenTreeEntry>| token_tree_plain(es@, model@)));
    let ghost p4 = out@;
    match &x.instructions {
        Some(i) => {
            push_str(&mut out, "\n\nINSTRUCTIONS\n");
            push_str(&mut out, "------------\n");
            push_string(&mut out, i);
        },
        None => {},
    }
    assert(out@ =~= p4 + opt_piece(x.instructions, |i: String| "\n\nINSTRUCTIONS\n"@ + "------------\n"@ + i@));
    assert(out@ =~= plain_extras(output_text@, model@, *x));
    out
}

fn toon_with_extras(output_text: &String, model: &str, x: &PackExtras) -> (r: Vec<char>)
    ensures
        r@ == toon_extras(output_text@, model@, *x),
{
    let mut out: Vec<char> = Vec::new();
    match &x.header_text {
        Some(h) => {
            push_str(&mut out, "header_text: |\n");
            push_indented_lines(&mut out, h, "  ");
            push_str(&mut out, "\n");
        },
        None => {},
    }
    assert(out@ =~= opt_piece(
        x.header_text,
        |h: String| "header_text: |\n"@ + indented_by(lines(h@), "  "@) + "\n"@,
    ));
    push_string(&mut out, output_text);
    let ghost p1 = out@;
    match &x.git_history {
        Some(g) => push_git_toon(&mut out, g),
        None => {},
    }
    assert(out@ =~= p1 + opt_piece(x.git_history, |g: GitHistory| git_toon(g)));
    let ghost p2 = out@;
    match &x.security_issues {
        Some(es) => push_security_toon(&mut out, es),
        None => {},
    }
    assert(out@ =~= p2 + opt_piece(x.security_issues, |es: Vec<SecurityIssueEntry>| security_toon(es@)));
    let ghost p3 = out@;
    match &x.token_tree {
        Some(es) => push_token_tree_toon(&mut out, es, model),
        None => {},
    }
    assert(out@ =~= p3 + opt_piece(x.token_tree, |es: Vec<TokenTreeEntry>| token_tree_toon(es@, model@)));
    let ghost p4 = out@;
    match &x.instructions {
        Some(i) => {
            push_str(&mut out, "\n\ninstructions: |\n");
            push_indented_lines(&mut out, i, "  ");
        },
        None => {},
    }
    assert(out@ =~= p4 + opt_piece(
        x.instructions,
        |i: String| "\n\ninstructions: |\n"@ + indented_by(lines(i@), "  "@),
    ));
    assert(out@ =~= toon_extras(output_text@, model@, *x));
    out
}

fn yaml_with_extras(output_text: &String, model: &str, x: &PackExtras) -> (r: Vec<char>)
    ensures
        r@ == yaml_extras(output_text@, model@, *x),
{
    let mut out: Vec<char> = Vec::new();
    crate::diff_output::push_nl_terminated(&mut out, output_text);
    match &x.header_text {
        Some(h) => push_yaml_block(&mut out, "header_text", h),
        None => {},
    }
    match &x.instructions {
        Some(i) => push_yaml_block(&mut out, "instructions", i),
        None => {},
    }
    match &x.token_tree {
        Some(es) => push_token_tree_yaml(&mut out, es, model),
        None => {},
    }
    match &x.security_issues {
        Some(es) => push_security_yaml(&mut out, es),
        None => {},
    }
    match &x.git_history {
        Some(g) => push_git_yaml(&mut out, g),
        None => {},
    }
    assert(out@ =~= yaml_extras(output_text@, model@, *x));
    out
}

fn push_xml_token_tree(out: &mut Vec<char>, es: &Vec<TokenTreeEntry>, model: &str)
    ensures
        final(out)@ == old(out)@ + xml_token_tree(es@, model@),
{
    let ghost start = out@;
    push_str(out, "    <token_tree model=\"");
    push_xml_escaped(out, model);
    push_str(out, "\">\n");
    push_tree_xml(out, es);
    push_str(out, "    </token_tree>\n");
    assert(out@ =~= start + xml_token_tree(es@, model@));
}

fn push_xml_security(out: &mut Vec<char>, es: &Vec<SecurityIssueEntry>)
    ensures
        final(out)@ == old(out)@ + xml_security(es@),
{
    let ghost start = out@;
    push_str(out, "    <security_scan issues=\"");
    push_dec(out, es.len() as u64);
    push_str(out, "\">\n");
    push_issue_xml(out, es);
    push_str(out, "    </security_scan>\n");
    assert(out@ =~= start + xml_security(es@));
}

fn xml_block(model: &str, x: &PackExtras) -> (r: Vec<char>)
    ensures
        r@ == xml_extras_block(model@, *x),
{
    let mut out: Vec<char> = Vec::new();
    push_str(&mut out, "  <extras>\n");
    let ghost p0 = out@;
    match &x.header_text {
        Some(h) => {
            push_str(&mut out, "    <header_text>");
            push_xml_escaped(&mut out, h.as_str());
            push_str(&mut out, "</header_text>\n");
        },
        None => {},
    }
    assert(out@ =~= p0 + opt_piece(
        x.header_text,
        |h: String| "    <header_text>"@ + xml_escape(h@) + "</header_text>\n"@,
    ));
    let ghost p1 = out@;
    match &x.instructions {
        Some(i) => {
            push_str(&mut out, "    <instructions>");
            push_xml_escaped(&mut out, i.as_str());
            push_str(&mut out, "</instructions>\n");
        },
        None => {},
    }
    assert(out@ =~= p1 + opt_piece(
        x.instructions,
        |i: String| "    <instructions>"@ + xml_escape(i@) + "</instructions>\n"@,
    ));
    let ghost p2 = out@;
    match &x.token_tree {
        Some(es) => push_xml_token_tree(&mut out, es, model),
        None => {},
    }
    assert(out@ =~= p2 + opt_piece(x.token_tree, |es: Vec<TokenTreeEntry>| xml_token_tree(es@, model@)));
    let ghost p3 = out@;
    match &x.security_issues {
        Some(es) => push_xml_security(&mut out, es),
        None => {},
    }
    assert(out@ =~= p3 + opt_piece(x.security_issues, |es: Vec<SecurityIssueEntry>| xml_security(es@)));
    push_str(&mut out, "  </extras>\n");
    assert(out@ =~= xml_extras_block(model@, *x));
    out
}

pub(crate) fn rfind_chars(s: &Vec<char>, p: &Vec<char>) -> (r: Option<usize>)
    ensures
        (match r {
            Some(i) => rfind(s@, p@) == Some(i as int) && i + p.len() <= s.len(),
            None => rfind(s@, p@) is None,
        }),
{
    if p.len() > s.len() {
        return None;
    }
    let mut i: usize = s.len() - p.len();
    loop
        invariant
            i + p.len() <= s.len(),
            rfind(s@, p@) == rfind_from(s@, p@, i as int),
        decreases i,
    {
        if occurs_at_chars(s, p, i) {
            return Some(i);
        }
        if i == 0 {
            assert(rfind_from(s@, p@, -1) is None);
            return None;
        }
        i = i - 1;
    }
}

fn xml_with_extras(output_text: &String, model: &str, x: &PackExtras) -> (r: Vec<char>)
    ensures
        r@ == xml_extras(output_text@, model@, *x),
{
    let ov = chars_of(output_text.as_str());
    let any_extra = x.header_text.is_some() || x.instructions.is_some() || x.token_tree.is_some()
        || x.security_issues.is_some();
    if !any_extra {
        return ov;
    }
    let ex = xml_block(model, x);
    let close = chars_of("</repository>");
    match rfind_chars(&ov, &close) {
        Some(pos) => {
            let mut out = subrange_chars(&ov, 0, pos);
            push_str(&mut out, "\n");
            push_all(&mut out, &ex);
            let tail = subrange_chars(&ov, pos, ov.len());
            push_all(&mut out, &tail);
            assert(out@ =~= xml_extras(output_text@, model@, *x));
            out
        },
        None => {
            let mut out = ov;
            push_str(&mut out, "\n");
            push_all(&mut out, &ex);
            assert(out@ =~= xml_extras(output_text@, model@, *x));
            out
        },
    }
}

/// Adds the extras to rendered output in the style of `format`; see
/// `pack_extras_text`, and for JSON output `json_with_extras`, the one case
/// that can fail.
pub fn apply_pack_extras(output_text: String, format: OutputFormat, model_name: &str, extras: &PackExtras) -> (r:
    Result<String, JsonExtrasError>)
    ensures
        format != OutputFormat::Json ==> (r matches Ok(t) && pack_extras_text(
            output_text@,
            format,
            model_name@,
            *extras,
        ) == Some(t@)),
        format == OutputFormat::Json ==> json_extras_outcome(output_text@, model_name@, *extras, r),
{
    let v = match format {
        OutputFormat::Json => {
            return json_with_extras(output_text.as_str(), model_name, extras);
        },
        OutputFormat::Yaml => yaml_with_extras(&output_text, model_name, extras),
        OutputFormat::Xml => xml_with_extras(&output_text, model_name, extras),
        OutputFormat::Markdown => markdown_with_extras(&output_text, model_name, extras),
        OutputFormat::Plain => plain_with_extras(&output_text, model_name, extras),
        OutputFormat::Toon => toon_with_extras(&output_text, model_name, extras),
    };
    Ok(string_from_chars(&v))
}

} // verus!
