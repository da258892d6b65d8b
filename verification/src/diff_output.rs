//! Rendering the expanded context of a diff (changed files, dependent files
//! and symbols, related tests, call chains, impact) as Markdown, YAML, TOON,
//! plain text or XML.

use vstd::prelude::*;
use crate::text::{
    chars_of, decimal, decimal_chars, join, lines, push_all, push_str, split_lines, string_from_chars,
    string_views, views,
};
use crate::models::OutputFormat;
use crate::escape::{replace_char, replace_char_chars, xml_escape, escape_xml_text};

verus! {

// ---------------------------------------------------------------------------
// The context
// ---------------------------------------------------------------------------

/// A snippet of a file: a line range, why it was selected, and its text.
pub struct DiffSnippet {
    pub start_line: u32,
    pub end_line: u32,
    pub reason: String,
    pub content: String,
}

/// A file of the context. The relevance score is carried as the two texts
/// the formats print: with two decimals, and with one.
pub struct ContextFile {
    pub path: String,
    pub language: String,
    pub tokens: u32,
    pub relevance_reason: String,
    pub relevance: String,
    pub relevance_short: String,
    pub diff_content: Option<String>,
    pub snippets: Vec<DiffSnippet>,
}

/// A symbol of the context, with its relevance printed as for files.
pub struct ContextSymbol {
    pub name: String,
    pub kind: String,
    pub file_path: String,
    pub start_line: u32,
    pub relevance_reason: String,
    pub relevance: String,
    pub relevance_short: String,
}

/// How far a change reaches; `level` is the level's name.
pub struct ImpactSummary {
    pub level: String,
    pub description: String,
    pub direct_files: u64,
    pub transitive_files: u64,
    pub affected_symbols: u64,
    pub affected_tests: u64,
}

/// A chain of calls, by symbol name.
pub struct CallChain {
    pub symbols: Vec<String>,
}

/// Everything a diff touches, as the renderers read it.
pub struct ExpandedContext {
    pub changed_files: Vec<ContextFile>,
    pub changed_symbols: Vec<ContextSymbol>,
    pub dependent_files: Vec<ContextFile>,
    pub dependent_symbols: Vec<ContextSymbol>,
    pub related_tests: Vec<ContextFile>,
    pub call_chains: Vec<CallChain>,
    pub impact_summary: ImpactSummary,
    pub total_tokens: u32,
}

/// A commit of a file's recent history.
pub struct Commit {
    pub short_hash: String,
    pub author: String,
    pub date: String,
    pub message: String,
}

/// The recent commits of one file.
pub struct FileCommits {
    pub path: String,
    pub commits: Vec<Commit>,
}

// ---------------------------------------------------------------------------
// Shared pieces
// ---------------------------------------------------------------------------

/// The pieces `f(x)` for the elements `x` of `s`, concatenated in order.
pub open spec fn concat_map<A>(s: Seq<A>, f: spec_fn(A) -> Seq<char>) -> Seq<char>
    decreases s.len(),
{
    if s.len() == 0 {
        Seq::empty()
    } else {
        concat_map(s.drop_last(), f) + f(s.last())
    }
}

pub(crate) proof fn lemma_concat_map_step<A>(s: Seq<A>, f: spec_fn(A) -> Seq<char>, i: int)
    requires
        0 <= i < s.len(),
    ensures
        concat_map(s.take(i + 1), f) == concat_map(s.take(i), f) + f(s[i]),
{
    assert(s.take(i + 1).drop_last() =~= s.take(i));
}

/// `s`, ended with a newline unless it already ends with one (the
/// "push it, then push `'\n'` unless it ends with one" idiom).
pub open spec fn nl_terminated(s: Seq<char>) -> Seq<char> {
    if s.len() > 0 && s.last() == '\n' {
        s
    } else {
        s.push('\n')
    }
}

/// The decimal text of a number.
pub open spec fn dec(n: u64) -> Seq<char> {
    decimal(n as nat)
}

/// The commits recorded for `path` (the first entry for it), if any.
pub open spec fn commits_for(h: Seq<FileCommits>, path: Seq<char>) -> Option<Seq<Commit>>
    decreases h.len(),
{
    if h.len() == 0 {
        None
    } else if h[0].path@ == path {
        Some(h[0].commits@)
    } else {
        commits_for(h.drop_first(), path)
    }
}

proof fn lemma_commits_for_skip(h: Seq<FileCommits>, path: Seq<char>, j: int)
    requires
        0 <= j <= h.len(),
        forall|k: int| 0 <= k < j ==> (#[trigger] h[k]).path@ != path,
    ensures
        commits_for(h, path) == commits_for(h.skip(j), path),
    decreases j,
{
    if j > 0 {
        assert(h[0].path@ != path);
        let t = h.drop_first();
        assert forall|k: int| 0 <= k < j - 1 implies (#[trigger] t[k]).path@ != path by {
            assert(t[k] == h[k + 1]);
        }
        lemma_commits_for_skip(t, path, j - 1);
        assert(t.skip(j - 1) =~= h.skip(j));
    } else {
        assert(h.skip(0) =~= h);
    }
}

/// The recent commits of `path` in `history`.
fn find_commits<'a>(history: &'a Vec<FileCommits>, path: &String) -> (r: Option<&'a Vec<Commit>>)
    ensures
        (match r {
            Some(cs) => commits_for(history@, path@) == Some(cs@),
            None => commits_for(history@, path@) is None,
        }),
{
    let mut j: usize = 0;
    while j < history.len()
        invariant
            j <= history.len(),
            forall|k: int| 0 <= k < j ==> (#[trigger] history@[k]).path@ != path@,
        decreases history.len() - j,
    {
        if history[j].path == *path {
            proof {
                lemma_commits_for_skip(history@, path@, j as int);
                assert(history@.skip(j as int)[0] == history@[j as int]);
            }
            return Some(&history[j].commits);
        }
        j = j + 1;
    }
    proof {
        lemma_commits_for_skip(history@, path@, j as int);
    }
    None
}

pub(crate) fn push_string(out: &mut Vec<char>, s: &String)
    ensures
        final(out)@ == old(out)@ + s@,
{
    push_str(out, s.as_str());
}

pub(crate) fn push_dec(out: &mut Vec<char>, n: u64)
    ensures
        final(out)@ == old(out)@ + dec(n),
{
    let d = decimal_chars(n);
    push_all(out, &d);
}

pub(crate) fn push_nl_terminated(out: &mut Vec<char>, s: &String)
    ensures
        final(out)@ == old(out)@ + nl_terminated(s@),
{
    let v = chars_of(s.as_str());
    push_all(out, &v);
    if !(v.len() > 0 && v[v.len() - 1] == '\n') {
        out.push('\n');
    }
}

/// The symbols of a call chain joined with `" → "`.
pub open spec fn chain_text(c: CallChain) -> Seq<char> {
    join(string_views(c.symbols@), " → "@)
}

fn push_chain(out: &mut Vec<char>, c: &CallChain)
    ensures
        final(out)@ == old(out)@ + chain_text(*c),
{
    let ghost start = out@;
    let ghost names = string_views(c.symbols@);
    let mut i: usize = 0;
    while i < c.symbols.len()
        invariant
            i <= c.symbols.len(),
            names == string_views(c.symbols@),
            out@ == start + join(names.take(i as int), " → "@),
        decreases c.symbols.len() - i,
    {
        let ghost prev = names.take(i as int);
        if i > 0 {
            push_str(out, " → ");
        }
        push_string(out, &c.symbols[i]);
        i = i + 1;
        proof {
            let cur = names.take(i as int);
            assert(cur.drop_last() == prev);
            assert(cur.last() == c.symbols@[i - 1]@);
            if i == 1 {
                assert(out@ =~= start + cur[0]);
            } else {
                assert(out@ =~= start + join(cur, " → "@));
            }
        }
    }
    assert(names.take(c.symbols.len() as int) == names);
}

/// The sentence that opens every rendering.
pub open spec fn preamble_text(level: Seq<char>) -> Seq<char> {
    "Use this diff context to understand changes. Start with changed file snippets, then dependent symbols/files/tests. Impact: "@
        + level + "."@
}

/// The sentence that opens every rendering, naming the impact level.
pub fn diff_preamble(context: &ExpandedContext) -> (r: String)
    ensures
        r@ == preamble_text(context.impact_summary.level@),
{
    let mut out: Vec<char> = Vec::new();
    push_str(
        &mut out,
        "Use this diff context to understand changes. Start with changed file snippets, then dependent symbols/files/tests. Impact: ",
    );
    push_string(&mut out, &context.impact_summary.level);
    push_str(&mut out, ".");
    assert(out@ =~= preamble_text(context.impact_summary.level@));
    string_from_chars(&out)
}

// ---------------------------------------------------------------------------
// Markdown
// ---------------------------------------------------------------------------

pub open spec fn md_snippet(s: DiffSnippet) -> Seq<char> {
    "- "@ + s.reason@ + " (lines "@ + dec(s.start_line as u64) + "-"@ + dec(s.end_line as u64)
        + ")\n\n```text\n"@ + nl_terminated(s.content@) + "```\n\n"@
}

pub open spec fn md_snippets(ss: Seq<DiffSnippet>) -> Seq<char> {
    concat_map(ss, |s: DiffSnippet| md_snippet(s))
}

pub open spec fn md_commit(c: Commit) -> Seq<char> {
    "| `"@ + c.short_hash@ + "` | "@ + c.author@ + " | "@ + c.date@ + " | "@ + c.message@ + " |\n"@
}

pub open spec fn md_history(h: Option<Seq<Commit>>) -> Seq<char> {
    match h {
        Some(cs) => if cs.len() > 0 {
            "**Recent History**\n\n"@ + "| Commit | Author | Date | Message |\n"@
                + "|--------|--------|------|--------|\n"@ + concat_map(cs, |c: Commit| md_commit(c))
                + "\n"@
        } else {
            Seq::empty()
        },
        None => Seq::empty(),
    }
}

pub open spec fn md_file_head(f: ContextFile) -> Seq<char> {
    "### `"@ + f.path@ + "`\n\n"@ + "- Language: "@ + f.language@ + "\n- Tokens: "@ + dec(
        f.tokens as u64,
    ) + "\n\n"@
}

pub open spec fn md_diff(d: Option<String>) -> Seq<char> {
    match d {
        Some(d) => "```diff\n"@ + nl_terminated(d@) + "```\n\n"@,
        None => Seq::empty(),
    }
}

pub open spec fn md_snippet_block(ss: Seq<DiffSnippet>) -> Seq<char> {
    if ss.len() > 0 {
        "**Snippets**\n\n"@ + md_snippets(ss)
    } else {
        Seq::empty()
    }
}

pub open spec fn md_changed_file(f: ContextFile, h: Seq<FileCommits>) -> Seq<char> {
    md_file_head(f) + md_history(commits_for(h, f.path@)) + md_diff(f.diff_content) + md_snippet_block(
        f.snippets@,
    )
}

pub open spec fn md_symbol_row(s: ContextSymbol) -> Seq<char> {
    "| `"@ + s.name@ + "` | "@ + s.kind@ + " | "@ + s.file_path@ + " | "@ + dec(s.start_line as u64)
        + " |\n"@
}

pub open spec fn md_dependent_symbol_row(s: ContextSymbol) -> Seq<char> {
    "| `"@ + s.name@ + "` | "@ + s.kind@ + " | "@ + s.file_path@ + " | "@ + dec(s.start_line as u64)
        + " | "@ + s.relevance@ + " |\n"@
}

pub open spec fn md_dependent_file_row(f: ContextFile) -> Seq<char> {
    "| `"@ + f.path@ + "` | "@ + f.relevance_reason@ + " | "@ + f.relevance@ + " |\n"@
}

pub open spec fn md_dependent_file_snippets(f: ContextFile) -> Seq<char> {
    if f.snippets@.len() > 0 {
        "### `"@ + f.path@ + "` Snippets\n\n"@ + md_snippets(f.snippets@)
    } else {
        Seq::empty()
    }
}

pub open spec fn md_test(t: ContextFile) -> Seq<char> {
    "### `"@ + t.path@ + "`\n\n"@ + if t.snippets@.len() == 0 {
        "- No focused snippets selected\n\n"@
    } else {
        md_snippets(t.snippets@)
    }
}

pub open spec fn md_chain(c: CallChain) -> Seq<char> {
    "- "@ + chain_text(c) + "\n"@
}

pub open spec fn md_header(ctx: ExpandedContext) -> Seq<char> {
    let imp = ctx.impact_summary;
    "# Diff Context\n\n"@ + "> "@ + preamble_text(imp.level@) + "\n\n"@ + "## Impact Summary\n\n"@
        + "**Level:** "@ + imp.level@ + "\n\n"@ + imp.description@ + "\n\n"@ + "- Direct files: "@
        + dec(imp.direct_files) + "\n- Transitive files: "@ + dec(imp.transitive_files)
        + "\n- Affected symbols: "@ + dec(imp.affected_symbols) + "\n- Affected tests: "@ + dec(
        imp.affected_tests,
    ) + "\n- Total tokens: "@ + dec(ctx.total_tokens as u64) + "\n\n"@
}

pub open spec fn md_changed_files(fs: Seq<ContextFile>, h: Seq<FileCommits>) -> Seq<char> {
    "## Changed Files\n\n"@ + concat_map(fs, |f: ContextFile| md_changed_file(f, h))
}

pub open spec fn md_symbols(ss: Seq<ContextSymbol>, dependent: bool) -> Seq<char> {
    if ss.len() == 0 {
        Seq::empty()
    } else if dependent {
        "## Dependent Symbols\n\n"@ + "| Symbol | Kind | File | Line | Relevance |\n"@
            + "|--------|------|------|------|-----------|\n"@ + concat_map(
            ss,
            |s: ContextSymbol| md_dependent_symbol_row(s),
        ) + "\n"@
    } else {
        "## Changed Symbols\n\n"@ + "| Symbol | Kind | File | Line |\n"@
            + "|--------|------|------|------|\n"@ + concat_map(ss, |s: ContextSymbol| md_symbol_row(s))
            + "\n"@
    }
}

pub open spec fn md_dependent_files(fs: Seq<ContextFile>) -> Seq<char> {
    if fs.len() == 0 {
        Seq::empty()
    } else {
        "## Dependent Files\n\n"@ + "| File | Reason | Relevance |\n"@
            + "|------|--------|----------|\n"@ + concat_map(
            fs,
            |f: ContextFile| md_dependent_file_row(f),
        ) + "\n"@ + concat_map(fs, |f: ContextFile| md_dependent_file_snippets(f))
    }
}

pub open spec fn md_tests(ts: Seq<ContextFile>) -> Seq<char> {
    if ts.len() == 0 {
        Seq::empty()
    } else {
        "## Related Tests\n\n"@ + concat_map(ts, |t: ContextFile| md_test(t))
    }
}

pub open spec fn md_chains(cs: Seq<CallChain>) -> Seq<char> {
    if cs.len() == 0 {
        Seq::empty()
    } else {
        "## Call Graph\n\n"@ + concat_map(cs, |c: CallChain| md_chain(c)) + "\n"@
    }
}

/// The Markdown rendering: header and impact summary, changed files (with
/// history, diff and snippets), then the non-empty sections of changed
/// symbols, dependent symbols, dependent files, related tests and call
/// chains.
pub open spec fn markdown_text(ctx: ExpandedContext, h: Seq<FileCommits>) -> Seq<char> {
    md_header(ctx) + md_changed_files(ctx.changed_files@, h) + md_symbols(ctx.changed_symbols@, false)
        + md_symbols(ctx.dependent_symbols@, true) + md_dependent_files(ctx.dependent_files@)
        + md_tests(ctx.related_tests@) + md_chains(ctx.call_chains@)
}

fn push_md_snippets(out: &mut Vec<char>, ss: &Vec<DiffSnippet>)
    ensures
        final(out)@ == old(out)@ + md_snippets(ss@),
{
    let ghost start = out@;
    let ghost f = |s: DiffSnippet| md_snippet(s);
    let mut i: usize = 0;
    while i < ss.len()
        invariant
            i <= ss.len(),
            f == (|s: DiffSnippet| md_snippet(s)),
            out@ == start + concat_map(ss@.take(i as int), f),
        decreases ss.len() - i,
    {
        proof {
            lemma_concat_map_step(ss@, f, i as int);
        }
        let ghost before = out@;
        let s = &ss[i];
        push_str(out, "- ");
        push_string(out, &s.reason);
        push_str(out, " (lines ");
        push_dec(out, s.start_line as u64);
        push_str(out, "-");
        push_dec(out, s.end_line as u64);
        push_str(out, ")\n\n```text\n");
        push_nl_terminated(out, &s.content);
        push_str(out, "```\n\n");
        assert(out@ =~= before + md_snippet(*s));
        i = i + 1;
        assert(out@ =~= start + concat_map(ss@.take(i as int), f));
    }
    assert(ss@.take(ss.len() as int) =~= ss@);
}

fn push_md_history(out: &mut Vec<char>, history: &Vec<FileCommits>, path: &String)
    ensures
        final(out)@ == old(out)@ + md_history(commits_for(history@, path@)),
{
    match find_commits(history, path) {
        Some(cs) => {
            if cs.len() > 0 {
                let ghost start = out@;
                let ghost f = |c: Commit| md_commit(c);
                push_str(out, "**Recent History**\n\n");
                push_str(out, "| Commit | Author | Date | Message |\n");
                push_str(out, "|--------|--------|------|--------|\n");
                let ghost head = out@;
                let mut i: usize = 0;
                while i < cs.len()
                    invariant
                        i <= cs.len(),
                        f == (|c: Commit| md_commit(c)),
                        out@ == head + concat_map(cs@.take(i as int), f),
                    decreases cs.len() - i,
                {
                    proof {
                        lemma_concat_map_step(cs@, f, i as int);
                    }
                    let ghost before = out@;
                    let c = &cs[i];
                    push_str(out, "| `");
                    push_string(out, &c.short_hash);
                    push_str(out, "` | ");
                    push_string(out, &c.author);
                    push_str(out, " | ");
                    push_string(out, &c.date);
                    push_str(out, " | ");
                    push_string(out, &c.message);
                    push_str(out, " |\n");
                    assert(out@ =~= before + md_commit(*c));
                    i = i + 1;
                    assert(out@ =~= head + concat_map(cs@.take(i as int), f));
                }
                assert(cs@.take(cs.len() as int) =~= cs@);
                push_str(out, "\n");
                assert(out@ =~= start + md_history(commits_for(history@, path@)));
            }
        },
        None => {},
    }
}

fn push_md_changed_file(out: &mut Vec<char>, f: &ContextFile, history: &Vec<FileCommits>)
    ensures
        final(out)@ == old(out)@ + md_changed_file(*f, history@),
{
    let ghost start = out@;
    push_str(out, "### `");
    push_string(out, &f.path);
    push_str(out, "`\n\n");
    push_str(out, "- Language: ");
    push_string(out, &f.language);
    push_str(out, "\n- Tokens: ");
    push_dec(out, f.tokens as u64);
    push_str(out, "\n\n");
    assert(out@ =~= start + md_file_head(*f));
    let ghost a = out@;
    push_md_history(out, history, &f.path);
    let ghost b = out@;
    match &f.diff_content {
        Some(d) => {
            push_str(out, "```diff\n");
            push_nl_terminated(out, d);
            push_str(out, "```\n\n");
        },
        None => {},
    }
    assert(out@ =~= b + md_diff(f.diff_content));
    let ghost c = out@;
    if f.snippets.len() > 0 {
        push_str(out, "**Snippets**\n\n");
        push_md_snippets(out, &f.snippets);
    }
    assert(out@ =~= c + md_snippet_block(f.snippets@));
    assert(out@ =~= start + md_changed_file(*f, history@));
}

fn push_md_symbol_rows(out: &mut Vec<char>, ss: &Vec<ContextSymbol>, with_relevance: bool)
    ensures
        final(out)@ == old(out)@ + if with_relevance {
            concat_map(ss@, |s: ContextSymbol| md_dependent_symbol_row(s))
        } else {
            concat_map(ss@, |s: ContextSymbol| md_symbol_row(s))
        },
{
    let ghost start = out@;
    let ghost f = if with_relevance {
        |s: ContextSymbol| md_dependent_symbol_row(s)
    } else {
        |s: ContextSymbol| md_symbol_row(s)
    };
    let mut i: usize = 0;
    while i < ss.len()
        invariant
            i <= ss.len(),
            f == if with_relevance {
                |s: ContextSymbol| md_dependent_symbol_row(s)
            } else {
                |s: ContextSymbol| md_symbol_row(s)
            },
            out@ == start + concat_map(ss@.take(i as int), f),
        decreases ss.len() - i,
    {
        proof {
            lemma_concat_map_step(ss@, f, i as int);
        }
        let ghost before = out@;
        let s = &ss[i];
        push_str(out, "| `");
        push_string(out, &s.name);
        push_str(out, "` | ");
        push_string(out, &s.kind);
        push_str(out, " | ");
        push_string(out, &s.file_path);
        push_str(out, " | ");
        push_dec(out, s.start_line as u64);
        if with_relevance {
            push_str(out, " | ");
            push_string(out, &s.relevance);
        }
        push_str(out, " |\n");
        assert(out@ =~= before + f(*s));
        i = i + 1;
        assert(out@ =~= start + concat_map(ss@.take(i as int), f));
    }
    assert(ss@.take(ss.len() as int) =~= ss@);
}

fn push_md_header(out: &mut Vec<char>, ctx: &ExpandedContext)
    ensures
        final(out)@ == old(out)@ + md_header(*ctx),
{
    let ghost start = out@;
    let imp = &ctx.impact_summary;
    push_str(out, "# Diff Context\n\n");
    push_str(out, "> ");
    let pre = diff_preamble(ctx);
    push_string(out, &pre);
    push_str(out, "\n\n");
    push_str(out, "## Impact Summary\n\n");
    push_str(out, "**Level:** ");
    push_string(out, &imp.level);
    push_str(out, "\n\n");
    push_string(out, &imp.description);
    push_str(out, "\n\n");
    push_str(out, "- Direct files: ");
    push_dec(out, imp.direct_files);
    push_str(out, "\n- Transitive files: ");
    push_dec(out, imp.transitive_files);
    push_str(out, "\n- Affected symbols: ");
    push_dec(out, imp.affected_symbols);
    push_str(out, "\n- Affected tests: ");
    push_dec(out, imp.affected_tests);
    push_str(out, "\n- Total tokens: ");
    push_dec(out, ctx.total_tokens as u64);
    push_str(out, "\n\n");
    assert(out@ =~= start + md_header(*ctx));
}

fn push_md_changed_files(out: &mut Vec<char>, fs: &Vec<ContextFile>, history: &Vec<FileCommits>)
    ensures
        final(out)@ == old(out)@ + md_changed_files(fs@, history@),
{
    let ghost start = out@;
    push_str(out, "## Changed Files\n\n");
    let ghost p0 = out@;
    let ghost ff = |f: ContextFile| md_changed_file(f, history@);
    let mut i: usize = 0;
    while i < fs.len()
        invariant
            i <= fs.len(),
            ff == (|f: ContextFile| md_changed_file(f, history@)),
            out@ == p0 + concat_map(fs@.take(i as int), ff),
        decreases fs.len() - i,
    {
        proof {
            lemma_concat_map_step(fs@, ff, i as int);
        }
        push_md_changed_file(out, &fs[i], history);
        i = i + 1;
        assert(out@ =~= p0 + concat_map(fs@.take(i as int), ff));
    }
    assert(fs@.take(fs.len() as int) =~= fs@);
    assert(out@ =~= start + md_changed_files(fs@, history@));
}

fn push_md_symbols(out: &mut Vec<char>, ss: &Vec<ContextSymbol>, dependent: bool)
    ensures
        final(out)@ == old(out)@ + md_symbols(ss@, dependent),
{
    let ghost start = out@;
    if ss.len() > 0 {
        if dependent {
            push_str(out, "## Dependent Symbols\n\n");
            push_str(out, "| Symbol | Kind | File | Line | Relevance |\n");
            push_str(out, "|--------|------|------|------|-----------|\n");
        } else {
            push_str(out, "## Changed Symbols\n\n");
            push_str(out, "| Symbol | Kind | File | Line |\n");
            push_str(out, "|--------|------|------|------|\n");
        }
        push_md_symbol_rows(out, ss, dependent);
        push_str(out, "\n");
    }
    assert(out@ =~= start + md_symbols(ss@, dependent));
}

fn push_md_dependent_files(out: &mut Vec<char>, fs: &Vec<ContextFile>)
    ensures
        final(out)@ == old(out)@ + md_dependent_files(fs@),
{
    let ghost start = out@;
    if fs.len() > 0 {
        push_str(out, "## Dependent Files\n\n");
        push_str(out, "| File | Reason | Relevance |\n");
        push_str(out, "|------|--------|----------|\n");
        let ghost q0 = out@;
        let ghost fr = |f: ContextFile| md_dependent_file_row(f);
        let mut j: usize = 0;
        while j < fs.len()
            invariant
                j <= fs.len(),
                fr == (|f: ContextFile| md_dependent_file_row(f)),
                out@ == q0 + concat_map(fs@.take(j as int), fr),
            decreases fs.len() - j,
        {
            proof {
                lemma_concat_map_step(fs@, fr, j as int);
            }
            let ghost before = out@;
            let f = &fs[j];
            push_str(out, "| `");
            push_string(out, &f.path);
            push_str(out, "` | ");
            push_string(out, &f.relevance_reason);
            push_str(out, " | ");
            push_string(out, &f.relevance);
            push_str(out, " |\n");
            assert(out@ =~= before + md_dependent_file_row(*f));
            j = j + 1;
            assert(out@ =~= q0 + concat_map(fs@.take(j as int), fr));
        }
        assert(fs@.take(fs.len() as int) =~= fs@);
        push_str(out, "\n");
        let ghost q1 = out@;
        let ghost fsn = |f: ContextFile| md_dependent_file_snippets(f);
        let mut k: usize = 0;
        while k < fs.len()
            invariant
                k <= fs.len(),
                fsn == (|f: ContextFile| md_dependent_file_snippets(f)),
                out@ == q1 + concat_map(fs@.take(k as int), fsn),
            decreases fs.len() - k,
        {
            proof {
                lemma_concat_map_step(fs@, fsn, k as int);
            }
            let ghost before = out@;
            let f = &fs[k];
            if f.snippets.len() > 0 {
                push_str(out, "### `");
                push_string(out, &f.path);
                push_str(out, "` Snippets\n\n");
                push_md_snippets(out, &f.snippets);
            }
            assert(out@ =~= before + md_dependent_file_snippets(*f));
            k = k + 1;
            assert(out@ =~= q1 + concat_map(fs@.take(k as int), fsn));
        }
        assert(fs@.take(fs.len() as int) =~= fs@);
    }
    assert(out@ =~= start + md_dependent_files(fs@));
}

fn push_md_tests(out: &mut Vec<char>, ts: &Vec<ContextFile>)
    ensures
        final(out)@ == old(out)@ + md_tests(ts@),
{
    let ghost start = out@;
    if ts.len() > 0 {
        push_str(out, "## Related Tests\n\n");
        let ghost q0 = out@;
        let ghost ft = |t: ContextFile| md_test(t);
        let mut j: usize = 0;
        while j < ts.len()
            invariant
                j <= ts.len(),
                ft == (|t: ContextFile| md_test(t)),
                out@ == q0 + concat_map(ts@.take(j as int), ft),
            decreases ts.len() - j,
        {
            proof {
                lemma_concat_map_step(ts@, ft, j as int);
            }
            let ghost before = out@;
            let t = &ts[j];
            push_str(out, "### `");
            push_string(out, &t.path);
            push_str(out, "`\n\n");
            if t.snippets.len() == 0 {
                push_str(out, "- No focused snippets selected\n\n");
            } else {
                push_md_snippets(out, &t.snippets);
            }
            assert(out@ =~= before + md_test(*t));
            j = j + 1;
            assert(out@ =~= q0 + concat_map(ts@.take(j as int), ft));
        }
        assert(ts@.take(ts.len() as int) =~= ts@);
    }
    assert(out@ =~= start + md_tests(ts@));
}

fn push_md_chains(out: &mut Vec<char>, cs: &Vec<CallChain>)
    ensures
        final(out)@ == old(out)@ + md_chains(cs@),
{
    let ghost start = out@;
    if cs.len() > 0 {
        push_str(out, "## Call Graph\n\n");
        let ghost q0 = out@;
        let ghost fc = |c: CallChain| md_chain(c);
        let mut j: usize = 0;
        while j < cs.len()
            invariant
                j <= cs.len(),
                fc == (|c: CallChain| md_chain(c)),
                out@ == q0 + concat_map(cs@.take(j as int), fc),
            decreases cs.len() - j,
        {
            proof {
                lemma_concat_map_step(cs@, fc, j as int);
            }
            let ghost before = out@;
            push_str(out, "- ");
            push_chain(out, &cs[j]);
            push_str(out, "\n");
            assert(out@ =~= before + md_chain(cs@[j as int]));
            j = j + 1;
            assert(out@ =~= q0 + concat_map(cs@.take(j as int), fc));
        }
        assert(cs@.take(cs.len() as int) =~= cs@);
        push_str(out, "\n");
    }
    assert(out@ =~= start + md_chains(cs@));
}

/// Renders the context as Markdown; see `markdown_text`.
pub fn format_diff_context_markdown(context: &ExpandedContext, history: &Vec<FileCommits>) -> (r:
    String)
    ensures
        r@ == markdown_text(*context, history@),
{
    let mut out: Vec<char> = Vec::new();
    push_md_header(&mut out, context);
    push_md_changed_files(&mut out, &context.changed_files, history);
    push_md_symbols(&mut out, &context.changed_symbols, false);
    push_md_symbols(&mut out, &context.dependent_symbols, true);
    push_md_dependent_files(&mut out, &context.dependent_files);
    push_md_tests(&mut out, &context.related_tests);
    push_md_chains(&mut out, &context.call_chains);
    assert(out@ =~= markdown_text(*context, history@));
    string_from_chars(&out)
}

// ---------------------------------------------------------------------------
// YAML
// ---------------------------------------------------------------------------

/// Each line followed by a newline, after the indentation `pad`.
pub open spec fn indented_by(ls: Seq<Seq<char>>, pad: Seq<char>) -> Seq<char> {
    concat_map(ls, |l: Seq<char>| pad + l + "\n"@)
}

/// Double quotes escaped with a backslash.
pub open spec fn quote_escaped(s: Seq<char>) -> Seq<char> {
    replace_char(s, '"', "\\\""@)
}

pub(crate) fn push_indented_lines(out: &mut Vec<char>, text: &String, pad: &str)
    ensures
        final(out)@ == old(out)@ + indented_by(lines(text@), pad@),
{
    let ghost start = out@;
    let v = chars_of(text.as_str());
    let ls = split_lines(&v);
    let ghost lv = views(ls@);
    let ghost f = |l: Seq<char>| pad@ + l + "\n"@;
    let mut i: usize = 0;
    while i < ls.len()
        invariant
            i <= ls.len(),
            lv == views(ls@),
            lv == lines(text@),
            f == (|l: Seq<char>| pad@ + l + "\n"@),
            out@ == start + concat_map(lv.take(i as int), f),
        decreases ls.len() - i,
    {
        proof {
            lemma_concat_map_step(lv, f, i as int);
        }
        let ghost before = out@;
        push_str(out, pad);
        push_all(out, &ls[i]);
        push_str(out, "\n");
        assert(out@ =~= before + f(lv[i as int]));
        i = i + 1;
        assert(out@ =~= start + concat_map(lv.take(i as int), f));
    }
    assert(lv.take(ls.len() as int) =~= lv);
}

fn push_quote_escaped(out: &mut Vec<char>, s: &String)
    ensures
        final(out)@ == old(out)@ + quote_escaped(s@),
{
    let v = chars_of(s.as_str());
    let e = replace_char_chars(&v, '"', "\\\"");
    push_all(out, &e);
}

pub open spec fn yaml_header(ctx: ExpandedContext) -> Seq<char> {
    let imp = ctx.impact_summary;
    "# Diff Context\n\n"@ + "preamble: |\n"@ + indented_by(lines(preamble_text(imp.level@)), "  "@)
        + "\n"@ + yaml_impact(imp) + "total_tokens: "@ + dec(ctx.total_tokens as u64) + "\n\n"@
}

pub open spec fn yaml_impact(imp: ImpactSummary) -> Seq<char> {
    "impact:\n"@ + "  level: "@ + imp.level@ + "\n"@ + "  description: \""@ + quote_escaped(
        imp.description@,
    ) + "\"\n"@ + "  direct_files: "@ + dec(imp.direct_files) + "\n"@ + "  transitive_files: "@
        + dec(imp.transitive_files) + "\n"@ + "  affected_symbols: "@ + dec(imp.affected_symbols)
        + "\n"@ + "  affected_tests: "@ + dec(imp.affected_tests) + "\n"@
}

pub open spec fn yaml_commit(c: Commit) -> Seq<char> {
    "      - hash: \""@ + c.short_hash@ + "\"\n"@ + "        author: \""@ + c.author@ + "\"\n"@
        + "        date: \""@ + c.date@ + "\"\n"@ + "        message: \""@ + quote_escaped(c.message@)
        + "\"\n"@
}

pub open spec fn yaml_history(h: Option<Seq<Commit>>) -> Seq<char> {
    match h {
        Some(cs) => if cs.len() > 0 {
            "    history:\n"@ + concat_map(cs, |c: Commit| yaml_commit(c))
        } else {
            Seq::empty()
        },
        None => Seq::empty(),
    }
}

pub open spec fn yaml_diff(d: Option<String>) -> Seq<char> {
    match d {
        Some(d) => "    diff: |\n"@ + indented_by(lines(d@), "      "@),
        None => Seq::empty(),
    }
}

pub open spec fn yaml_snippet(s: DiffSnippet) -> Seq<char> {
    "      - start_line: "@ + dec(s.start_line as u64) + "\n"@ + "        end_line: "@ + dec(
        s.end_line as u64,
    ) + "\n"@ + "        reason: \""@ + quote_escaped(s.reason@) + "\"\n"@ + "        content: |\n"@
        + indented_by(lines(s.content@), "          "@)
}

pub open spec fn yaml_snippet_block(ss: Seq<DiffSnippet>) -> Seq<char> {
    if ss.len() > 0 {
        "    snippets:\n"@ + concat_map(ss, |s: DiffSnippet| yaml_snippet(s))
    } else {
        Seq::empty()
    }
}

pub open spec fn yaml_file_head(f: ContextFile) -> Seq<char> {
    "  - path: \""@ + f.path@ + "\"\n"@ + "    language: "@ + f.language@ + "\n"@ + "    tokens: "@
        + dec(f.tokens as u64) + "\n"@
}

pub open spec fn yaml_changed_file(f: ContextFile, h: Seq<FileCommits>) -> Seq<char> {
    yaml_file_head(f) + yaml_history(commits_for(h, f.path@)) + yaml_diff(f.diff_content)
        + yaml_snippet_block(f.snippets@)
}

pub open spec fn yaml_symbol_head(s: ContextSymbol) -> Seq<char> {
    "  - name: \""@ + s.name@ + "\"\n"@ + "    kind: "@ + s.kind@ + "\n"@ + "    file: \""@
        + s.file_path@ + "\"\n"@ + "    line: "@ + dec(s.start_line as u64) + "\n"@
}

pub open spec fn yaml_symbol(s: ContextSymbol, dependent: bool) -> Seq<char> {
    yaml_symbol_head(s) + if dependent {
        "    reason: \""@ + quote_escaped(s.relevance_reason@) + "\"\n"@ + "    relevance: "@
            + s.relevance@ + "\n"@
    } else {
        Seq::empty()
    }
}

pub open spec fn yaml_symbols(ss: Seq<ContextSymbol>, dependent: bool) -> Seq<char> {
    if ss.len() == 0 {
        Seq::empty()
    } else {
        (if dependent {
            "\ndependent_symbols:\n"@
        } else {
            "\nchanged_symbols:\n"@
        }) + concat_map(ss, |s: ContextSymbol| yaml_symbol(s, dependent))
    }
}

pub open spec fn yaml_dependent_file(f: ContextFile) -> Seq<char> {
    "  - path: \""@ + f.path@ + "\"\n"@ + "    reason: \""@ + f.relevance_reason@ + "\"\n"@
        + "    relevance: "@ + f.relevance@ + "\n"@ + yaml_snippet_block(f.snippets@)
}

pub open spec fn yaml_test(t: ContextFile) -> Seq<char> {
    "  - path: \""@ + t.path@ + "\"\n"@ + yaml_snippet_block(t.snippets@)
}

pub open spec fn yaml_chain(c: CallChain) -> Seq<char> {
    "  - \""@ + chain_text(c) + "\"\n"@
}

/// A section: nothing for no items, else the title and each item's piece.
pub open spec fn section<A>(title: Seq<char>, items: Seq<A>, f: spec_fn(A) -> Seq<char>) -> Seq<char> {
    if items.len() == 0 {
        Seq::empty()
    } else {
        title + concat_map(items, f)
    }
}

/// The YAML rendering: preamble block, impact, total tokens, changed files
/// (with history, diff and snippets as block scalars), then the non-empty
/// lists of changed symbols, dependent symbols, dependent files, related
/// tests and call chains.
pub open spec fn yaml_text(ctx: ExpandedContext, h: Seq<FileCommits>) -> Seq<char> {
    yaml_header(ctx) + "changed_files:\n"@ + concat_map(
        ctx.changed_files@,
        |f: ContextFile| yaml_changed_file(f, h),
    ) + yaml_symbols(ctx.changed_symbols@, false) + yaml_symbols(ctx.dependent_symbols@, true)
        + section(
        "\ndependent_files:\n"@,
        ctx.dependent_files@,
        |f: ContextFile| yaml_dependent_file(f),
    ) + section("\nrelated_tests:\n"@, ctx.related_tests@, |t: ContextFile| yaml_test(t)) + section(
        "\ncall_chains:\n"@,
        ctx.call_chains@,
        |c: CallChain| yaml_chain(c),
    )
}

fn push_yaml_impact(out: &mut Vec<char>, imp: &ImpactSummary)
    ensures
        final(out)@ == old(out)@ + yaml_impact(*imp),
{
    let ghost start = out@;
    push_str(out, "impact:\n");
    push_str(out, "  level: ");
    push_string(out, &imp.level);
    push_str(out, "\n");
    push_str(out, "  description: \"");
    push_quote_escaped(out, &imp.description);
    push_str(out, "\"\n");
    push_str(out, "  direct_files: ");
    push_dec(out, imp.direct_files);
    push_str(out, "\n");
    push_str(out, "  transitive_files: ");
    push_dec(out, imp.transitive_files);
    push_str(out, "\n");
    push_str(out, "  affected_symbols: ");
    push_dec(out, imp.affected_symbols);
    push_str(out, "\n");
    push_str(out, "  affected_tests: ");
    push_dec(out, imp.affected_tests);
    push_str(out, "\n");
    assert(out@ =~= start + yaml_impact(*imp));
}

fn push_yaml_header(out: &mut Vec<char>, ctx: &ExpandedContext)
    ensures
        final(out)@ == old(out)@ + yaml_header(*ctx),
{
    let ghost start = out@;
    push_str(out, "# Diff Context\n\n");
    push_str(out, "preamble: |\n");
    let pre = diff_preamble(ctx);
    push_indented_lines(out, &pre, "  ");
    push_str(out, "\n");
    push_yaml_impact(out, &ctx.impact_summary);
    push_str(out, "total_tokens: ");
    push_dec(out, ctx.total_tokens as u64);
    push_str(out, "\n\n");
    assert(out@ =~= start + yaml_header(*ctx));
}

fn push_yaml_snippet_block(out: &mut Vec<char>, ss: &Vec<DiffSnippet>)
    ensures
        final(out)@ == old(out)@ + yaml_snippet_block(ss@),
{
    let ghost start = out@;
    if ss.len() > 0 {
        push_str(out, "    snippets:\n");
        let ghost q0 = out@;
        let ghost f = |s: DiffSnippet| yaml_snippet(s);
        let mut i: usize = 0;
        while i < ss.len()
            invariant
                i <= ss.len(),
                f == (|s: DiffSnippet| yaml_snippet(s)),
                out@ == q0 + concat_map(ss@.take(i as int), f),
            decreases ss.len() - i,
        {
            proof {
                lemma_concat_map_step(ss@, f, i as int);
            }
            let ghost before = out@;
            let s = &ss[i];
            push_str(out, "      - start_line: ");
            push_dec(out, s.start_line as u64);
            push_str(out, "\n");
            push_str(out, "        end_line: ");
            push_dec(out, s.end_line as u64);
            push_str(out, "\n");
            push_str(out, "        reason: \"");
            push_quote_escaped(out, &s.reason);
            push_str(out, "\"\n");
            push_str(out, "        content: |\n");
            push_indented_lines(out, &s.content, "          ");
            assert(out@ =~= before + yaml_snippet(*s));
            i = i + 1;
            assert(out@ =~= q0 + concat_map(ss@.take(i as int), f));
        }
        assert(ss@.take(ss.len() as int) =~= ss@);
    }
    assert(out@ =~= start + yaml_snippet_block(ss@));
}

fn push_yaml_history(out: &mut Vec<char>, history: &Vec<FileCommits>, path: &String)
    ensures
        final(out)@ == old(out)@ + yaml_history(commits_for(history@, path@)),
{
    match find_commits(history, path) {
        Some(cs) => {
            if cs.len() > 0 {
                let ghost start = out@;
                push_str(out, "    history:\n");
                let ghost head = out@;
                let ghost f = |c: Commit| yaml_commit(c);
                let mut i: usize = 0;
                while i < cs.len()
                    invariant
                        i <= cs.len(),
                        f == (|c: Commit| yaml_commit(c)),
                        out@ == head + concat_map(cs@.take(i as int), f),
                    decreases cs.len() - i,
                {
                    proof {
                        lemma_concat_map_step(cs@, f, i as int);
                    }
                    let ghost before = out@;
                    let c = &cs[i];
                    push_str(out, "      - hash: \"");
                    push_string(out, &c.short_hash);
                    push_str(out, "\"\n");
                    push_str(out, "        author: \"");
                    push_string(out, &c.author);
                    push_str(out, "\"\n");
                    push_str(out, "        date: \"");
                    push_string(out, &c.date);
                    push_str(out, "\"\n");
                    push_str(out, "        message: \"");
                    push_quote_escaped(out, &c.message);
                    push_str(out, "\"\n");
                    assert(out@ =~= before + yaml_commit(*c));
                    i = i + 1;
                    assert(out@ =~= head + concat_map(cs@.take(i as int), f));
                }
                assert(cs@.take(cs.len() as int) =~= cs@);
                assert(out@ =~= start + yaml_history(commits_for(history@, path@)));
            }
        },
        None => {},
    }
}

fn push_yaml_changed_file(out: &mut Vec<char>, f: &ContextFile, history: &Vec<FileCommits>)
    ensures
        final(out)@ == old(out)@ + yaml_changed_file(*f, history@),
{
    let ghost start = out@;
    push_str(out, "  - path: \"");
    push_string(out, &f.path);
    push_str(out, "\"\n");
    push_str(out, "    language: ");
    push_string(out, &f.language);
    push_str(out, "\n");
    push_str(out, "    tokens: ");
    push_dec(out, f.tokens as u64);
    push_str(out, "\n");
    assert(out@ =~= start + yaml_file_head(*f));
    push_yaml_history(out, history, &f.path);
    let ghost b = out@;
    match &f.diff_content {
        Some(d) => {
            push_str(out, "    diff: |\n");
            push_indented_lines(out, d, "      ");
        },
        None => {},
    }
    assert(out@ =~= b + yaml_diff(f.diff_content));
    push_yaml_snippet_block(out, &f.snippets);
    assert(out@ =~= start + yaml_changed_file(*f, history@));
}

fn push_yaml_symbol(out: &mut Vec<char>, s: &ContextSymbol, dependent: bool)
    ensures
        final(out)@ == old(out)@ + yaml_symbol(*s, dependent),
{
    let ghost start = out@;
    push_str(out, "  - name: \"");
    push_string(out, &s.name);
    push_str(out, "\"\n");
    push_str(out, "    kind: ");
    push_string(out, &s.kind);
    push_str(out, "\n");
    push_str(out, "    file: \"");
    push_string(out, &s.file_path);
    push_str(out, "\"\n");
    push_str(out, "    line: ");
    push_dec(out, s.start_line as u64);
    push_str(out, "\n");
    assert(out@ =~= start + yaml_symbol_head(*s));
    let ghost mid = out@;
    if dependent {
        push_str(out, "    reason: \"");
        push_quote_escaped(out, &s.relevance_reason);
        push_str(out, "\"\n");
        push_str(out, "    relevance: ");
        push_string(out, &s.relevance);
        push_str(out, "\n");
    }
    assert(out@ =~= start + yaml_symbol(*s, dependent));
}

fn push_yaml_symbols(out: &mut Vec<char>, ss: &Vec<ContextSymbol>, dependent: bool)
    ensures
        final(out)@ == old(out)@ + yaml_symbols(ss@, dependent),
{
    let ghost start = out@;
    if ss.len() > 0 {
        if dependent {
            push_str(out, "\ndependent_symbols:\n");
        } else {
            push_str(out, "\nchanged_symbols:\n");
        }
        let ghost q0 = out@;
        let ghost f = |s: ContextSymbol| yaml_symbol(s, dependent);
        let mut i: usize = 0;
        while i < ss.len()
            invariant
                i <= ss.len(),
                f == (|s: ContextSymbol| yaml_symbol(s, dependent)),
                out@ == q0 + concat_map(ss@.take(i as int), f),
            decreases ss.len() - i,
        {
            proof {
                lemma_concat_map_step(ss@, f, i as int);
            }
            push_yaml_symbol(out, &ss[i], dependent);
            i = i + 1;
            assert(out@ =~= q0 + concat_map(ss@.take(i as int), f));
        }
        assert(ss@.take(ss.len() as int) =~= ss@);
    }
    assert(out@ =~= start + yaml_symbols(ss@, dependent));
}

fn push_yaml_dependent_files(out: &mut Vec<char>, fs: &Vec<ContextFile>)
    ensures
        final(out)@ == old(out)@ + section(
            "\ndependent_files:\n"@,
            fs@,
            |f: ContextFile| yaml_dependent_file(f),
        ),
{
    let ghost start = out@;
    let ghost f = |f: ContextFile| yaml_dependent_file(f);
    if fs.len() > 0 {
        push_str(out, "\ndependent_files:\n");
        let ghost q0 = out@;
        let mut i: usize = 0;
        while i < fs.len()
            invariant
                i <= fs.len(),
                f == (|f: ContextFile| yaml_dependent_file(f)),
                out@ == q0 + concat_map(fs@.take(i as int), f),
            decreases fs.len() - i,
        {
            proof {
                lemma_concat_map_step(fs@, f, i as int);
            }
            let ghost before = out@;
            let d = &fs[i];
            push_str(out, "  - path: \"");
            push_string(out, &d.path);
            push_str(out, "\"\n");
            push_str(out, "    reason: \"");
            push_string(out, &d.relevance_reason);
            push_str(out, "\"\n");
            push_str(out, "    relevance: ");
            push_string(out, &d.relevance);
            push_str(out, "\n");
            push_yaml_snippet_block(out, &d.snippets);
            assert(out@ =~= before + yaml_dependent_file(*d));
            i = i + 1;
            assert(out@ =~= q0 + concat_map(fs@.take(i as int), f));
        }
        assert(fs@.take(fs.len() as int) =~= fs@);
    }
    assert(out@ =~= start + section("\ndependent_files:\n"@, fs@, f));
}

fn push_yaml_tests(out: &mut Vec<char>, ts: &Vec<ContextFile>)
    ensures
        final(out)@ == old(out)@ + section("\nrelated_tests:\n"@, ts@, |t: ContextFile| yaml_test(t)),
{
    let ghost start = out@;
    let ghost f = |t: ContextFile| yaml_test(t);
    if ts.len() > 0 {
        push_str(out, "\nrelated_tests:\n");
        let ghost q0 = out@;
        let mut i: usize = 0;
        while i < ts.len()
            invariant
                i <= ts.len(),
                f == (|t: ContextFile| yaml_test(t)),
                out@ == q0 + concat_map(ts@.take(i as int), f),
            decreases ts.len() - i,
        {
            proof {
                lemma_concat_map_step(ts@, f, i as int);
            }
            let ghost before = out@;
            let t = &ts[i];
            push_str(out, "  - path: \"");
            push_string(out, &t.path);
            push_str(out, "\"\n");
            push_yaml_snippet_block(out, &t.snippets);
            assert(out@ =~= before + yaml_test(*t));
            i = i + 1;
            assert(out@ =~= q0 + concat_map(ts@.take(i as int), f));
        }
        assert(ts@.take(ts.len() as int) =~= ts@);
    }
    assert(out@ =~= start + section("\nrelated_tests:\n"@, ts@, f));
}

fn push_yaml_chains(out: &mut Vec<char>, cs: &Vec<CallChain>)
    ensures
        final(out)@ == old(out)@ + section("\ncall_chains:\n"@, cs@, |c: CallChain| yaml_chain(c)),
{
    let ghost start = out@;
    let ghost f = |c: CallChain| yaml_chain(c);
    if cs.len() > 0 {
        push_str(out, "\ncall_chains:\n");
        let ghost q0 = out@;
        let mut i: usize = 0;
        while i < cs.len()
            invariant
                i <= cs.len(),
                f == (|c: CallChain| yaml_chain(c)),
                out@ == q0 + concat_map(cs@.take(i as int), f),
            decreases cs.len() - i,
        {
            proof {
                lemma_concat_map_step(cs@, f, i as int);
            }
            let ghost before = out@;
            push_str(out, "  - \"");
            push_chain(out, &cs[i]);
            push_str(out, "\"\n");
            assert(out@ =~= before + yaml_chain(cs@[i as int]));
            i = i + 1;
            assert(out@ =~= q0 + concat_map(cs@.take(i as int), f));
        }
        assert(cs@.take(cs.len() as int) =~= cs@);
    }
    assert(out@ =~= start + section("\ncall_chains:\n"@, cs@, f));
}

/// Renders the context as YAML; see `yaml_text`.
pub fn format_diff_context_yaml(context: &ExpandedContext, history: &Vec<FileCommits>) -> (r: String)
    ensures
        r@ == yaml_text(*context, history@),
{
    let mut out: Vec<char> = Vec::new();
    push_yaml_header(&mut out, context);
    push_str(&mut out, "changed_files:\n");
    let ghost p0 = out@;
    let ghost ff = |f: ContextFile| yaml_changed_file(f, history@);
    let fs = &context.changed_files;
    let mut i: usize = 0;
    while i < fs.len()
        invariant
            i <= fs.len(),
            ff == (|f: ContextFile| yaml_changed_file(f, history@)),
            out@ == p0 + concat_map(fs@.take(i as int), ff),
        decreases fs.len() - i,
    {
        proof {
            lemma_concat_map_step(fs@, ff, i as int);
        }
        push_yaml_changed_file(&mut out, &fs[i], history);
        i = i + 1;
        assert(out@ =~= p0 + concat_map(fs@.take(i as int), ff));
    }
    assert(fs@.take(fs.len() as int) =~= fs@);
    push_yaml_symbols(&mut out, &context.changed_symbols, false);
    push_yaml_symbols(&mut out, &context.dependent_symbols, true);
    push_yaml_dependent_files(&mut out, &context.dependent_files);
    push_yaml_tests(&mut out, &context.related_tests);
    push_yaml_chains(&mut out, &context.call_chains);
    assert(out@ =~= yaml_text(*context, history@));
    string_from_chars(&out)
}

// ---------------------------------------------------------------------------
// TOON
// ---------------------------------------------------------------------------

pub open spec fn toon_header(ctx: ExpandedContext) -> Seq<char> {
    let imp = ctx.impact_summary;
    "DIFF|"@ + imp.level@ + "|d"@ + dec(imp.direct_files) + "t"@ + dec(imp.transitive_files) + "s"@
        + dec(imp.affected_symbols) + "T"@ + dec(ctx.total_tokens as u64) + "\n"@ + "PRE|"@
        + preamble_text(imp.level@) + "\n"@ + "FILES:\n"@
}

pub open spec fn toon_commit(c: Commit) -> Seq<char> {
    "H|"@ + c.short_hash@ + "|"@ + c.author@ + "|"@ + c.date@ + "|"@ + c.message@ + "\n"@
}

pub open spec fn toon_history(h: Option<Seq<Commit>>) -> Seq<char> {
    match h {
        Some(cs) => concat_map(cs, |c: Commit| toon_commit(c)),
        None => Seq::empty(),
    }
}

pub open spec fn toon_diff(d: Option<String>) -> Seq<char> {
    match d {
        Some(d) => "D{\n"@ + nl_terminated(d@) + "}D\n"@,
        None => Seq::empty(),
    }
}

pub open spec fn toon_snippet(s: DiffSnippet) -> Seq<char> {
    "N|"@ + dec(s.start_line as u64) + "|"@ + dec(s.end_line as u64) + "|"@ + s.reason@ + "\n"@
        + "C{\n"@ + nl_terminated(s.content@) + "}C\n"@
}

pub open spec fn toon_snippets(ss: Seq<DiffSnippet>) -> Seq<char> {
    concat_map(ss, |s: DiffSnippet| toon_snippet(s))
}

pub open spec fn toon_file_head(f: ContextFile) -> Seq<char> {
    "F|"@ + f.path@ + "|"@ + f.language@ + "|"@ + dec(f.tokens as u64) + "\n"@
}

pub open spec fn toon_changed_file(f: ContextFile, h: Seq<FileCommits>) -> Seq<char> {
    toon_file_head(f) + toon_history(commits_for(h, f.path@)) + toon_diff(f.diff_content)
        + toon_snippets(f.snippets@)
}

pub open spec fn toon_symbol(s: ContextSymbol, dependent: bool) -> Seq<char> {
    "S|"@ + s.name@ + "|"@ + s.kind@ + "|"@ + s.file_path@ + "|"@ + dec(s.start_line as u64) + if dependent {
        "|"@ + s.relevance_short@
    } else {
        Seq::empty()
    } + "\n"@
}

pub open spec fn toon_dependent_file(f: ContextFile) -> Seq<char> {
    "P|"@ + f.path@ + "|"@ + f.relevance_short@ + "\n"@ + toon_snippets(f.snippets@)
}

pub open spec fn toon_test(t: ContextFile) -> Seq<char> {
    "T|"@ + t.path@ + "\n"@ + toon_snippets(t.snippets@)
}

/// The TOON rendering: one `DIFF|` line with the impact and counts, the
/// preamble, then `F|` lines for changed files (with `H|` history lines and
/// `D{ }D` / `C{ }C` blocks), and the non-empty `SYMS:`, `DEPSYMS:`, `DEPS:`
/// and `TESTS:` sections.
pub open spec fn toon_text(ctx: ExpandedContext, h: Seq<FileCommits>) -> Seq<char> {
    toon_header(ctx) + concat_map(ctx.changed_files@, |f: ContextFile| toon_changed_file(f, h))
        + section("SYMS:\n"@, ctx.changed_symbols@, |s: ContextSymbol| toon_symbol(s, false))
        + section("DEPSYMS:\n"@, ctx.dependent_symbols@, |s: ContextSymbol| toon_symbol(s, true))
        + section("DEPS:\n"@, ctx.dependent_files@, |f: ContextFile| toon_dependent_file(f))
        + section("TESTS:\n"@, ctx.related_tests@, |t: ContextFile| toon_test(t))
}

fn push_toon_snippets(out: &mut Vec<char>, ss: &Vec<DiffSnippet>)
    ensures
        final(out)@ == old(out)@ + toon_snippets(ss@),
{
    let ghost f = |s: DiffSnippet| toon_snippet(s);
    let ghost q0 = out@;
    let mut i: usize = 0;
    while i < ss.len()
        invariant
            i <= ss.len(),
            f == (|s: DiffSnippet| toon_snippet(s)),
            out@ == q0 + concat_map(ss@.take(i as int), f),
        decreases ss.len() - i,
    {
        proof {
            lemma_concat_map_step(ss@, f, i as int);
        }
        let ghost before = out@;
        let s = &ss[i];
        push_str(out, "N|");
        push_dec(out, s.start_line as u64);
        push_str(out, "|");
        push_dec(out, s.end_line as u64);
        push_str(out, "|");
        push_string(out, &s.reason);
        push_str(out, "\n");
        push_str(out, "C{\n");
        push_nl_terminated(out, &s.content);
        push_str(out, "}C\n");
        assert(out@ =~= before + toon_snippet(*s));
        i = i + 1;
        assert(out@ =~= q0 + concat_map(ss@.take(i as int), f));
    }
    assert(ss@.take(ss.len() as int) =~= ss@);
}

fn push_toon_history(out: &mut Vec<char>, history: &Vec<FileCommits>, path: &String)
    ensures
        final(out)@ == old(out)@ + toon_history(commits_for(history@, path@)),
{
    let ghost a = out@;
    match find_commits(history, path) {
        Some(cs) => {
            let ghost g = |c: Commit| toon_commit(c);
            let ghost q0 = out@;
            let mut i: usize = 0;
            while i < cs.len()
                invariant
                    i <= cs.len(),
                    g == (|c: Commit| toon_commit(c)),
                    out@ == q0 + concat_map(cs@.take(i as int), g),
                decreases cs.len() - i,
            {
                proof {
                    lemma_concat_map_step(cs@, g, i as int);
                }
                let ghost before = out@;
                let c = &cs[i];
                push_str(out, "H|");
                push_string(out, &c.short_hash);
                push_str(out, "|");
                push_string(out, &c.author);
                push_str(out, "|");
                push_string(out, &c.date);
                push_str(out, "|");
                push_string(out, &c.message);
                push_str(out, "\n");
                assert(out@ =~= before + toon_commit(*c));
                i = i + 1;
                assert(out@ =~= q0 + concat_map(cs@.take(i as int), g));
            }
            assert(cs@.take(cs.len() as int) =~= cs@);
        },
        None => {},
    }
    assert(out@ =~= a + toon_history(commits_for(history@, path@)));
}

fn push_toon_changed_file(out: &mut Vec<char>, f: &ContextFile, history: &Vec<FileCommits>)
    ensures
        final(out)@ == old(out)@ + toon_changed_file(*f, history@),
{
    let ghost start = out@;
    push_str(out, "F|");
    push_string(out, &f.path);
    push_str(out, "|");
    push_string(out, &f.language);
    push_str(out, "|");
    push_dec(out, f.tokens as u64);
    push_str(out, "\n");
    assert(out@ =~= start + toon_file_head(*f));
    push_toon_history(out, history, &f.path);
    let ghost b = out@;
    match &f.diff_content {
        Some(d) => {
            push_str(out, "D{\n");
            push_nl_terminated(out, d);
            push_str(out, "}D\n");
        },
        None => {},
    }
    assert(out@ =~= b + toon_diff(f.diff_content));
    push_toon_snippets(out, &f.snippets);
    assert(out@ =~= start + toon_changed_file(*f, history@));
}

fn push_toon_symbols(out: &mut Vec<char>, ss: &Vec<ContextSymbol>, dependent: bool)
    ensures
        final(out)@ == old(out)@ + section(
            if dependent {
                "DEPSYMS:\n"@
            } else {
                "SYMS:\n"@
            },
            ss@,
            |s: ContextSymbol| toon_symbol(s, dependent),
        ),
{
    let ghost start = out@;
    let ghost title = if dependent {
        "DEPSYMS:\n"@
    } else {
        "SYMS:\n"@
    };
    if ss.len() > 0 {
        if dependent {
            push_str(out, "DEPSYMS:\n");
        } else {
            push_str(out, "SYMS:\n");
        }
    let ghost f = |s: ContextSymbol| toon_symbol(s, dependent);
        let ghost q0 = out@;
        let mut i: usize = 0;
        while i < ss.len()
            invariant
                i <= ss.len(),
                f == (|s: ContextSymbol| toon_symbol(s, dependent)),
                out@ == q0 + concat_map(ss@.take(i as int), f),
            decreases ss.len() - i,
        {
            proof {
                lemma_concat_map_step(ss@, f, i as int);
            }
            let ghost before = out@;
            let s = &ss[i];
            push_str(out, "S|");
            push_string(out, &s.name);
            push_str(out, "|");
            push_string(out, &s.kind);
            push_str(out, "|");
            push_string(out, &s.file_path);
            push_str(out, "|");
            push_dec(out, s.start_line as u64);
            if dependent {
                push_str(out, "|");
                push_string(out, &s.relevance_short);
            }
            push_str(out, "\n");
            assert(out@ =~= before + toon_symbol(*s, dependent));
            i = i + 1;
            assert(out@ =~= q0 + concat_map(ss@.take(i as int), f));
        }
        assert(ss@.take(ss.len() as int) =~= ss@);
    }
    assert(out@ =~= start + section(title, ss@, |s: ContextSymbol| toon_symbol(s, dependent)));
}

fn push_toon_files(out: &mut Vec<char>, fs: &Vec<ContextFile>, tests: bool)
    ensures
        final(out)@ == old(out)@ + if tests {
            section("TESTS:\n"@, fs@, |t: ContextFile| toon_test(t))
        } else {
            section("DEPS:\n"@, fs@, |f: ContextFile| toon_dependent_file(f))
        },
{
    let ghost start = out@;
    let ghost f = if tests {
        |t: ContextFile| toon_test(t)
    } else {
        |f: ContextFile| toon_dependent_file(f)
    };
    let ghost title = if tests {
        "TESTS:\n"@
    } else {
        "DEPS:\n"@
    };
    if fs.len() > 0 {
        if tests {
            push_str(out, "TESTS:\n");
        } else {
            push_str(out, "DEPS:\n");
        }
        let ghost q0 = out@;
        let mut i: usize = 0;
        while i < fs.len()
            invariant
                i <= fs.len(),
                f == if tests {
                    |t: ContextFile| toon_test(t)
                } else {
                    |f: ContextFile| toon_dependent_file(f)
                },
                out@ == q0 + concat_map(fs@.take(i as int), f),
            decreases fs.len() - i,
        {
            proof {
                lemma_concat_map_step(fs@, f, i as int);
            }
            let ghost before = out@;
            let d = &fs[i];
            if tests {
                push_str(out, "T|");
                push_string(out, &d.path);
                push_str(out, "\n");
            } else {
                push_str(out, "P|");
                push_string(out, &d.path);
                push_str(out, "|");
                push_string(out, &d.relevance_short);
                push_str(out, "\n");
            }
            push_toon_snippets(out, &d.snippets);
            assert(out@ =~= before + f(*d));
            i = i + 1;
            assert(out@ =~= q0 + concat_map(fs@.take(i as int), f));
        }
        assert(fs@.take(fs.len() as int) =~= fs@);
    }
    assert(out@ =~= start + section(title, fs@, f));
}

/// Renders the context in TOON; see `toon_text`.
pub fn format_diff_context_toon(context: &ExpandedContext, history: &Vec<FileCommits>) -> (r: String)
    ensures
        r@ == toon_text(*context, history@),
{
    let imp = &context.impact_summary;
    let mut out: Vec<char> = Vec::new();
    push_str(&mut out, "DIFF|");
    push_string(&mut out, &imp.level);
    push_str(&mut out, "|d");
    push_dec(&mut out, imp.direct_files);
    push_str(&mut out, "t");
    push_dec(&mut out, imp.transitive_files);
    push_str(&mut out, "s");
    push_dec(&mut out, imp.affected_symbols);
    push_str(&mut out, "T");
    push_dec(&mut out, context.total_tokens as u64);
    push_str(&mut out, "\n");
    push_str(&mut out, "PRE|");
    let pre = diff_preamble(context);
    push_string(&mut out, &pre);
    push_str(&mut out, "\n");
    push_str(&mut out, "FILES:\n");
    assert(out@ =~= toon_header(*context));
    let fs = &context.changed_files;
    let ghost ff = |f: ContextFile| toon_changed_file(f, history@);
    let ghost q0 = out@;
    let mut i: usize = 0;
    while i < fs.len()
        invariant
            i <= fs.len(),
            ff == (|f: ContextFile| toon_changed_file(f, history@)),
            out@ == q0 + concat_map(fs@.take(i as int), ff),
        decreases fs.len() - i,
    {
        proof {
            lemma_concat_map_step(fs@, ff, i as int);
        }
        push_toon_changed_file(&mut out, &fs[i], history);
        i = i + 1;
        assert(out@ =~= q0 + concat_map(fs@.take(i as int), ff));
    }
    assert(fs@.take(fs.len() as int) =~= fs@);
    push_toon_symbols(&mut out, &context.changed_symbols, false);
    push_toon_symbols(&mut out, &context.dependent_symbols, true);
    push_toon_files(&mut out, &context.dependent_files, false);
    push_toon_files(&mut out, &context.related_tests, true);
    assert(out@ =~= toon_text(*context, history@));
    string_from_chars(&out)
}

// ---------------------------------------------------------------------------
// Plain text
// ---------------------------------------------------------------------------

pub open spec fn plain_header(ctx: ExpandedContext) -> Seq<char> {
    let imp = ctx.impact_summary;
    "=== DIFF CONTEXT ===\n\n"@ + preamble_text(imp.level@) + "\n\n"@ + "Impact: "@ + imp.level@
        + " - "@ + imp.description@ + "\n"@ + "Stats: "@ + dec(imp.direct_files) + " direct files, "@
        + dec(imp.transitive_files) + " transitive, "@ + dec(imp.affected_symbols) + " symbols, "@
        + dec(imp.affected_tests) + " tests\n"@ + "Total tokens: "@ + dec(ctx.total_tokens as u64)
        + "\n\n"@ + "--- CHANGED FILES ---\n"@
}

pub open spec fn plain_snippet(s: DiffSnippet) -> Seq<char> {
    "- "@ + s.reason@ + " (lines "@ + dec(s.start_line as u64) + "-"@ + dec(s.end_line as u64)
        + ")\n"@ + nl_terminated(s.content@)
}

pub open spec fn plain_snippet_block(ss: Seq<DiffSnippet>) -> Seq<char> {
    section("Snippets:\n"@, ss, |s: DiffSnippet| plain_snippet(s))
}

pub open spec fn plain_commit(c: Commit) -> Seq<char> {
    "  "@ + c.short_hash@ + " ("@ + c.author@ + ", "@ + c.date@ + ") "@ + c.message@ + "\n"@
}

pub open spec fn plain_history(h: Option<Seq<Commit>>) -> Seq<char> {
    match h {
        Some(cs) => section("Recent history:\n"@, cs, |c: Commit| plain_commit(c)),
        None => Seq::empty(),
    }
}

pub open spec fn plain_diff(d: Option<String>) -> Seq<char> {
    match d {
        Some(d) => nl_terminated(d@),
        None => Seq::empty(),
    }
}

pub open spec fn plain_file_head(f: ContextFile) -> Seq<char> {
    "\n"@ + f.path@ + " ("@ + f.language@ + ", "@ + dec(f.tokens as u64) + " tokens)\n"@
}

pub open spec fn plain_changed_file(f: ContextFile, h: Seq<FileCommits>) -> Seq<char> {
    plain_file_head(f) + plain_history(commits_for(h, f.path@)) + plain_diff(f.diff_content)
        + plain_snippet_block(f.snippets@)
}

pub open spec fn plain_symbol(s: ContextSymbol, dependent: bool) -> Seq<char> {
    s.name@ + " ("@ + s.kind@ + ") in "@ + s.file_path@ + " line "@ + dec(s.start_line as u64) + if dependent {
        " (relevance: "@ + s.relevance@ + ")"@
    } else {
        Seq::empty()
    } + "\n"@
}

pub open spec fn plain_dependent_file(f: ContextFile) -> Seq<char> {
    f.path@ + " - "@ + f.relevance_reason@ + " (relevance: "@ + f.relevance@ + ")\n"@
        + plain_snippet_block(f.snippets@)
}

pub open spec fn plain_test(t: ContextFile) -> Seq<char> {
    t.path@ + "\n"@ + plain_snippet_block(t.snippets@)
}

/// The plain-text rendering: a banner, the preamble, impact and counts,
/// changed files (history, diff, snippets), then the non-empty sections of
/// changed symbols, dependent symbols, dependent files and related tests.
pub open spec fn plain_text(ctx: ExpandedContext, h: Seq<FileCommits>) -> Seq<char> {
    plain_header(ctx) + concat_map(ctx.changed_files@, |f: ContextFile| plain_changed_file(f, h))
        + section(
        "\n--- CHANGED SYMBOLS ---\n"@,
        ctx.changed_symbols@,
        |s: ContextSymbol| plain_symbol(s, false),
    ) + section(
        "\n--- DEPENDENT SYMBOLS ---\n"@,
        ctx.dependent_symbols@,
        |s: ContextSymbol| plain_symbol(s, true),
    ) + section(
        "\n--- DEPENDENT FILES ---\n"@,
        ctx.dependent_files@,
        |f: ContextFile| plain_dependent_file(f),
    ) + section("\n--- RELATED TESTS ---\n"@, ctx.related_tests@, |t: ContextFile| plain_test(t))
}

fn push_plain_snippet(out: &mut Vec<char>, s: &DiffSnippet)
    ensures
        final(out)@ == old(out)@ + plain_snippet(*s),
{
    let ghost start = out@;
    push_str(out, "- ");
    push_string(out, &s.reason);
    push_str(out, " (lines ");
    push_dec(out, s.start_line as u64);
    push_str(out, "-");
    push_dec(out, s.end_line as u64);
    push_str(out, ")\n");
    push_nl_terminated(out, &s.content);
    assert(out@ =~= start + plain_snippet(*s));
}

fn push_plain_snippet_block(out: &mut Vec<char>, ss: &Vec<DiffSnippet>)
    ensures
        final(out)@ == old(out)@ + plain_snippet_block(ss@),
{
    let ghost start = out@;
    if ss.len() > 0 {
        push_str(out, "Snippets:\n");
        let ghost f = |s: DiffSnippet| plain_snippet(s);
        let ghost q0 = out@;
        let mut i: usize = 0;
        while i < ss.len()
            invariant
                i <= ss.len(),
                f == (|s: DiffSnippet| plain_snippet(s)),
                out@ == q0 + concat_map(ss@.take(i as int), f),
            decreases ss.len() - i,
        {
            proof {
                lemma_concat_map_step(ss@, f, i as int);
            }
            push_plain_snippet(out, &ss[i]);
            i = i + 1;
            assert(out@ =~= q0 + concat_map(ss@.take(i as int), f));
        }
        assert(ss@.take(ss.len() as int) =~= ss@);
    }
    assert(out@ =~= start + plain_snippet_block(ss@));
}

fn push_plain_commit(out: &mut Vec<char>, c: &Commit)
    ensures
        final(out)@ == old(out)@ + plain_commit(*c),
{
    let ghost start = out@;
    push_str(out, "  ");
    push_string(out, &c.short_hash);
    push_str(out, " (");
    push_string(out, &c.author);
    push_str(out, ", ");
    push_string(out, &c.date);
    push_str(out, ") ");
    push_string(out, &c.message);
    push_str(out, "\n");
    assert(out@ =~= start + plain_commit(*c));
}

fn push_plain_history(out: &mut Vec<char>, history: &Vec<FileCommits>, path: &String)
    ensures
        final(out)@ == old(out)@ + plain_history(commits_for(history@, path@)),
{
    let ghost start = out@;
    match find_commits(history, path) {
        Some(cs) => {
            if cs.len() > 0 {
                push_str(out, "Recent history:\n");
                let ghost g = |c: Commit| plain_commit(c);
                let ghost q0 = out@;
                let mut i: usize = 0;
                while i < cs.len()
                    invariant
                        i <= cs.len(),
                        g == (|c: Commit| plain_commit(c)),
                        out@ == q0 + concat_map(cs@.take(i as int), g),
                    decreases cs.len() - i,
                {
                    proof {
                        lemma_concat_map_step(cs@, g, i as int);
                    }
                    push_plain_commit(out, &cs[i]);
                    i = i + 1;
                    assert(out@ =~= q0 + concat_map(cs@.take(i as int), g));
                }
                assert(cs@.take(cs.len() as int) =~= cs@);
            }
        },
        None => {},
    }
    assert(out@ =~= start + plain_history(commits_for(history@, path@)));
}

fn push_plain_changed_file(out: &mut Vec<char>, f: &ContextFile, history: &Vec<FileCommits>)
    ensures
        final(out)@ == old(out)@ + plain_changed_file(*f, history@),
{
    let ghost start = out@;
    push_str(out, "\n");
    push_string(out, &f.path);
    push_str(out, " (");
    push_string(out, &f.language);
    push_str(out, ", ");
    push_dec(out, f.tokens as u64);
    push_str(out, " tokens)\n");
    assert(out@ =~= start + plain_file_head(*f));
    push_plain_history(out, history, &f.path);
    let ghost b = out@;
    match &f.diff_content {
        Some(d) => {
            push_nl_terminated(out, d);
        },
        None => {},
    }
    assert(out@ =~= b + plain_diff(f.diff_content));
    push_plain_snippet_block(out, &f.snippets);
    assert(out@ =~= start + plain_changed_file(*f, history@));
}

fn push_plain_symbol(out: &mut Vec<char>, s: &ContextSymbol, dependent: bool)
    ensures
        final(out)@ == old(out)@ + plain_symbol(*s, dependent),
{
    let ghost start = out@;
    push_string(out, &s.name);
    push_str(out, " (");
    push_string(out, &s.kind);
    push_str(out, ") in ");
    push_string(out, &s.file_path);
    push_str(out, " line ");
    push_dec(out, s.start_line as u64);
    if dependent {
        push_str(out, " (relevance: ");
        push_string(out, &s.relevance);
        push_str(out, ")");
    }
    push_str(out, "\n");
    assert(out@ =~= start + plain_symbol(*s, dependent));
}

fn push_plain_dependent_file(out: &mut Vec<char>, f: &ContextFile)
    ensures
        final(out)@ == old(out)@ + plain_dependent_file(*f),
{
    let ghost start = out@;
    push_string(out, &f.path);
    push_str(out, " - ");
    push_string(out, &f.relevance_reason);
    push_str(out, " (relevance: ");
    push_string(out, &f.relevance);
    push_str(out, ")\n");
    push_plain_snippet_block(out, &f.snippets);
    assert(out@ =~= start + plain_dependent_file(*f));
}

fn push_plain_test(out: &mut Vec<char>, t: &ContextFile)
    ensures
        final(out)@ == old(out)@ + plain_test(*t),
{
    let ghost start = out@;
    push_string(out, &t.path);
    push_str(out, "\n");
    push_plain_snippet_block(out, &t.snippets);
    assert(out@ =~= start + plain_test(*t));
}

fn push_plain_symbols(out: &mut Vec<char>, ss: &Vec<ContextSymbol>, dependent: bool)
    ensures
        final(out)@ == old(out)@ + section(
            if dependent {
                "\n--- DEPENDENT SYMBOLS ---\n"@
            } else {
                "\n--- CHANGED SYMBOLS ---\n"@
            },
            ss@,
            |s: ContextSymbol| plain_symbol(s, dependent),
        ),
{
    let ghost start = out@;
    let ghost title = if dependent {
        "\n--- DEPENDENT SYMBOLS ---\n"@
    } else {
        "\n--- CHANGED SYMBOLS ---\n"@
    };
    if ss.len() > 0 {
        if dependent {
            push_str(out, "\n--- DEPENDENT SYMBOLS ---\n");
        } else {
            push_str(out, "\n--- CHANGED SYMBOLS ---\n");
        }
        let ghost f = |s: ContextSymbol| plain_symbol(s, dependent);
        let ghost q0 = out@;
        let mut i: usize = 0;
        while i < ss.len()
            invariant
                i <= ss.len(),
                f == (|s: ContextSymbol| plain_symbol(s, dependent)),
                out@ == q0 + concat_map(ss@.take(i as int), f),
            decreases ss.len() - i,
        {
            proof {
                lemma_concat_map_step(ss@, f, i as int);
            }
            push_plain_symbol(out, &ss[i], dependent);
            i = i + 1;
            assert(out@ =~= q0 + concat_map(ss@.take(i as int), f));
        }
        assert(ss@.take(ss.len() as int) =~= ss@);
    }
    assert(out@ =~= start + section(title, ss@, |s: ContextSymbol| plain_symbol(s, dependent)));
}

fn push_plain_dependent_files(out: &mut Vec<char>, fs: &Vec<ContextFile>)
    ensures
        final(out)@ == old(out)@ + section(
            "\n--- DEPENDENT FILES ---\n"@,
            fs@,
            |f: ContextFile| plain_dependent_file(f),
        ),
{
    let ghost start = out@;
    if fs.len() > 0 {
        push_str(out, "\n--- DEPENDENT FILES ---\n");
        let ghost f = |f: ContextFile| plain_dependent_file(f);
        let ghost q0 = out@;
        let mut i: usize = 0;
        while i < fs.len()
            invariant
                i <= fs.len(),
                f == (|f: ContextFile| plain_dependent_file(f)),
                out@ == q0 + concat_map(fs@.take(i as int), f),
            decreases fs.len() - i,
        {
            proof {
                lemma_concat_map_step(fs@, f, i as int);
            }
            push_plain_dependent_file(out, &fs[i]);
            i = i + 1;
            assert(out@ =~= q0 + concat_map(fs@.take(i as int), f));
        }
        assert(fs@.take(fs.len() as int) =~= fs@);
    }
    assert(out@ =~= start + section(
        "\n--- DEPENDENT FILES ---\n"@,
        fs@,
        |f: ContextFile| plain_dependent_file(f),
    ));
}

fn push_plain_tests(out: &mut Vec<char>, ts: &Vec<ContextFile>)
    ensures
        final(out)@ == old(out)@ + section(
            "\n--- RELATED TESTS ---\n"@,
            ts@,
            |t: ContextFile| plain_test(t),
        ),
{
    let ghost start = out@;
    if ts.len() > 0 {
        push_str(out, "\n--- RELATED TESTS ---\n");
        let ghost f = |t: ContextFile| plain_test(t);
        let ghost q0 = out@;
        let mut i: usize = 0;
        while i < ts.len()
            invariant
                i <= ts.len(),
                f == (|t: ContextFile| plain_test(t)),
                out@ == q0 + concat_map(ts@.take(i as int), f),
            decreases ts.len() - i,
        {
            proof {
                lemma_concat_map_step(ts@, f, i as int);
            }
            push_plain_test(out, &ts[i]);
            i = i + 1;
            assert(out@ =~= q0 + concat_map(ts@.take(i as int), f));
        }
        assert(ts@.take(ts.len() as int) =~= ts@);
    }
    assert(out@ =~= start + section("\n--- RELATED TESTS ---\n"@, ts@, |t: ContextFile| plain_test(t)));
}

/// Renders the context as plain text; see `plain_text`.
pub fn format_diff_context_plain(context: &ExpandedContext, history: &Vec<FileCommits>) -> (r: String)
    ensures
        r@ == plain_text(*context, history@),
{
    let imp = &context.impact_summary;
    let mut out: Vec<char> = Vec::new();
    push_str(&mut out, "=== DIFF CONTEXT ===\n\n");
    let pre = diff_preamble(context);
    push_string(&mut out, &pre);
    push_str(&mut out, "\n\n");
    push_str(&mut out, "Impact: ");
    push_string(&mut out, &imp.level);
    push_str(&mut out, " - ");
    push_string(&mut out, &imp.description);
    push_str(&mut out, "\n");
    push_str(&mut out, "Stats: ");
    push_dec(&mut out, imp.direct_files);
    push_str(&mut out, " direct files, ");
    push_dec(&mut out, imp.transitive_files);
    push_str(&mut out, " transitive, ");
    push_dec(&mut out, imp.affected_symbols);
    push_str(&mut out, " symbols, ");
    push_dec(&mut out, imp.affected_tests);
    push_str(&mut out, " tests\n");
    push_str(&mut out, "Total tokens: ");
    push_dec(&mut out, context.total_tokens as u64);
    push_str(&mut out, "\n\n");
    push_str(&mut out, "--- CHANGED FILES ---\n");
    assert(out@ =~= plain_header(*context));
    let fs = &context.changed_files;
    let ghost ff = |f: ContextFile| plain_changed_file(f, history@);
    let ghost q0 = out@;
    let mut i: usize = 0;
    while i < fs.len()
        invariant
            i <= fs.len(),
            ff == (|f: ContextFile| plain_changed_file(f, history@)),
            out@ == q0 + concat_map(fs@.take(i as int), ff),
        decreases fs.len() - i,
    {
        proof {
            lemma_concat_map_step(fs@, ff, i as int);
        }
        push_plain_changed_file(&mut out, &fs[i], history);
        i = i + 1;
        assert(out@ =~= q0 + concat_map(fs@.take(i as int), ff));
    }
    assert(fs@.take(fs.len() as int) =~= fs@);
    push_plain_symbols(&mut out, &context.changed_symbols, false);
    push_plain_symbols(&mut out, &context.dependent_symbols, true);
    push_plain_dependent_files(&mut out, &context.dependent_files);
    push_plain_tests(&mut out, &context.related_tests);
    assert(out@ =~= plain_text(*context, history@));
    string_from_chars(&out)
}

// ---------------------------------------------------------------------------
// XML
// ---------------------------------------------------------------------------

/// Double quotes written as `&quot;`.
pub open spec fn quot_escaped(s: Seq<char>) -> Seq<char> {
    replace_char(s, '"', "&quot;"@)
}

/// Nothing for no items; else the opening line, each item's piece and the
/// closing line.
pub open spec fn wrapped<A>(open: Seq<char>, items: Seq<A>, f: spec_fn(A) -> Seq<char>, close: Seq<char>) -> Seq<char> {
    if items.len() == 0 {
        Seq::empty()
    } else {
        open + concat_map(items, f) + close
    }
}

pub open spec fn xml_header(ctx: ExpandedContext) -> Seq<char> {
    let imp = ctx.impact_summary;
    "<?xml version=\"1.0\" encoding=\"UTF-8\"?>\n"@ + "<diff_context>\n"@ + "  <summary>\n"@
        + "    <preamble>"@ + xml_escape(preamble_text(imp.level@)) + "</preamble>\n"@
        + "    <impact level=\""@ + imp.level@ + "\">"@ + imp.description@ + "</impact>\n"@
        + "    <stats files=\""@ + decimal((imp.direct_files + imp.transitive_files) as nat)
        + "\" symbols=\""@ + dec(imp.affected_symbols) + "\" tests=\""@ + dec(imp.affected_tests)
        + "\"/>\n"@ + "  </summary>\n"@ + "  <changed_files>\n"@
}

pub open spec fn xml_commit(c: Commit) -> Seq<char> {
    "        <commit hash=\""@ + xml_escape(c.short_hash@) + "\" date=\""@ + xml_escape(c.date@)
        + "\" author=\""@ + xml_escape(c.author@) + "\">\n          "@ + xml_escape(c.message@)
        + "\n        </commit>\n"@
}

pub open spec fn xml_history(h: Option<Seq<Commit>>) -> Seq<char> {
    match h {
        Some(cs) => wrapped("      <history>\n"@, cs, |c: Commit| xml_commit(c), "      </history>\n"@),
        None => Seq::empty(),
    }
}

pub open spec fn xml_diff(d: Option<String>) -> Seq<char> {
    match d {
        Some(d) => "      <diff>\n<![CDATA[\n"@ + d@ + "]]>\n      </diff>\n"@,
        None => Seq::empty(),
    }
}

pub open spec fn xml_snippet(s: DiffSnippet) -> Seq<char> {
    "        <snippet start=\""@ + dec(s.start_line as u64) + "\" end=\""@ + dec(s.end_line as u64)
        + "\" reason=\""@ + quot_escaped(s.reason@) + "\">\n<![CDATA[\n"@ + s.content@
        + "]]>\n        </snippet>\n"@
}

pub open spec fn xml_snippets(ss: Seq<DiffSnippet>) -> Seq<char> {
    wrapped("      <snippets>\n"@, ss, |s: DiffSnippet| xml_snippet(s), "      </snippets>\n"@)
}

/// Whether the file has recent commits to show.
pub open spec fn has_history(h: Seq<FileCommits>, path: Seq<char>) -> bool {
    match commits_for(h, path) {
        Some(cs) => cs.len() > 0,
        None => false,
    }
}

pub open spec fn xml_file_attrs(f: ContextFile) -> Seq<char> {
    "    <file path=\""@ + f.path@ + "\" language=\""@ + f.language@ + "\" tokens=\""@ + dec(
        f.tokens as u64,
    ) + "\""@
}

/// A changed file: an empty element unless it has a diff, snippets or
/// history to hold.
pub open spec fn xml_changed_file(f: ContextFile, h: Seq<FileCommits>) -> Seq<char> {
    if f.diff_content is Some || f.snippets@.len() > 0 || has_history(h, f.path@) {
        xml_file_attrs(f) + ">\n"@ + xml_history(commits_for(h, f.path@)) + xml_diff(f.diff_content)
            + xml_snippets(f.snippets@) + "    </file>\n"@
    } else {
        xml_file_attrs(f) + "/>\n"@
    }
}

pub open spec fn xml_symbol(s: ContextSymbol, dependent: bool) -> Seq<char> {
    "    <symbol name=\""@ + s.name@ + "\" kind=\""@ + s.kind@ + "\" file=\""@ + s.file_path@
        + "\" line=\""@ + dec(s.start_line as u64) + "\""@ + if dependent {
        " relevance=\""@ + s.relevance@ + "\" reason=\""@ + quot_escaped(s.relevance_reason@) + "\""@
    } else {
        Seq::empty()
    } + "/>\n"@
}

pub open spec fn xml_dependent_file(f: ContextFile) -> Seq<char> {
    "    <file path=\""@ + f.path@ + "\" reason=\""@ + f.relevance_reason@ + "\" relevance=\""@
        + f.relevance@ + "\""@ + if f.snippets@.len() == 0 {
        "/>\n"@
    } else {
        ">\n"@ + xml_snippets(f.snippets@) + "    </file>\n"@
    }
}

pub open spec fn xml_test(t: ContextFile) -> Seq<char> {
    "    <test path=\""@ + t.path@ + "\""@ + if t.snippets@.len() == 0 {
        "/>\n"@
    } else {
        ">\n"@ + xml_snippets(t.snippets@) + "    </test>\n"@
    }
}

pub open spec fn xml_chain(c: CallChain) -> Seq<char> {
    "    <chain>"@ + chain_text(c) + "</chain>\n"@
}

/// The XML rendering: a `<diff_context>` document with a summary (escaped
/// preamble, impact, counts), the changed files, and the non-empty groups
/// of changed symbols, dependent symbols, dependent files, related tests
/// and call chains; diffs and snippet texts go in CDATA sections.
pub open spec fn xml_text(ctx: ExpandedContext, h: Seq<FileCommits>) -> Seq<char> {
    xml_header(ctx) + concat_map(ctx.changed_files@, |f: ContextFile| xml_changed_file(f, h))
        + "  </changed_files>\n"@ + wrapped(
        "  <changed_symbols>\n"@,
        ctx.changed_symbols@,
        |s: ContextSymbol| xml_symbol(s, false),
        "  </changed_symbols>\n"@,
    ) + wrapped(
        "  <dependent_symbols>\n"@,
        ctx.dependent_symbols@,
        |s: ContextSymbol| xml_symbol(s, true),
        "  </dependent_symbols>\n"@,
    ) + wrapped(
        "  <dependent_files>\n"@,
        ctx.dependent_files@,
        |f: ContextFile| xml_dependent_file(f),
        "  </dependent_files>\n"@,
    ) + wrapped(
        "  <related_tests>\n"@,
        ctx.related_tests@,
        |t: ContextFile| xml_test(t),
        "  </related_tests>\n"@,
    ) + wrapped("  <call_graph>\n"@, ctx.call_chains@, |c: CallChain| xml_chain(c), "  </call_graph>\n"@)
        + "</diff_context>\n"@
}

fn push_xml_escaped(out: &mut Vec<char>, s: &String)
    ensures
        final(out)@ == old(out)@ + xml_escape(s@),
{
    let e = escape_xml_text(s.as_str());
    push_string(out, &e);
}

fn push_quot_escaped(out: &mut Vec<char>, s: &String)
    ensures
        final(out)@ == old(out)@ + quot_escaped(s@),
{
    let v = chars_of(s.as_str());
    let e = replace_char_chars(&v, '"', "&quot;");
    push_all(out, &e);
}

fn push_xml_snippet(out: &mut Vec<char>, s: &DiffSnippet)
    ensures
        final(out)@ == old(out)@ + xml_snippet(*s),
{
    let ghost start = out@;
    push_str(out, "        <snippet start=\"");
    push_dec(out, s.start_line as u64);
    push_str(out, "\" end=\"");
    push_dec(out, s.end_line as u64);
    push_str(out, "\" reason=\"");
    push_quot_escaped(out, &s.reason);
    push_str(out, "\">\n<![CDATA[\n");
    push_string(out, &s.content);
    push_str(out, "]]>\n        </snippet>\n");
    assert(out@ =~= start + xml_snippet(*s));
}

fn push_xml_snippets(out: &mut Vec<char>, ss: &Vec<DiffSnippet>)
    ensures
        final(out)@ == old(out)@ + xml_snippets(ss@),
{
    let ghost start = out@;
    if ss.len() > 0 {
        push_str(out, "      <snippets>\n");
        let ghost f = |s: DiffSnippet| xml_snippet(s);
        let ghost q0 = out@;
        let mut i: usize = 0;
        while i < ss.len()
            invariant
                i <= ss.len(),
                f == (|s: DiffSnippet| xml_snippet(s)),
                out@ == q0 + concat_map(ss@.take(i as int), f),
            decreases ss.len() - i,
        {
            proof {
                lemma_concat_map_step(ss@, f, i as int);
            }
            push_xml_snippet(out, &ss[i]);
            i = i + 1;
            assert(out@ =~= q0 + concat_map(ss@.take(i as int), f));
        }
        assert(ss@.take(ss.len() as int) =~= ss@);
        push_str(out, "      </snippets>\n");
    }
    assert(out@ =~= start + xml_snippets(ss@));
}

fn push_xml_commit(out: &mut Vec<char>, c: &Commit)
    ensures
        final(out)@ == old(out)@ + xml_commit(*c),
{
    let ghost start = out@;
    push_str(out, "        <commit hash=\"");
    push_xml_escaped(out, &c.short_hash);
    push_str(out, "\" date=\"");
    push_xml_escaped(out, &c.date);
    push_str(out, "\" author=\"");
    push_xml_escaped(out, &c.author);
    push_str(out, "\">\n          ");
    push_xml_escaped(out, &c.message);
    push_str(out, "\n        </commit>\n");
    assert(out@ =~= start + xml_commit(*c));
}

fn push_xml_history(out: &mut Vec<char>, cs: Option<&Vec<Commit>>)
    ensures
        final(out)@ == old(out)@ + xml_history(
            match cs {
                Some(v) => Some(v@),
                None => None,
            },
        ),
{
    let ghost start = out@;
    match cs {
        Some(cs) => {
            if cs.len() > 0 {
                push_str(out, "      <history>\n");
                let ghost g = |c: Commit| xml_commit(c);
                let ghost q0 = out@;
                let mut i: usize = 0;
                while i < cs.len()
                    invariant
                        i <= cs.len(),
                        g == (|c: Commit| xml_commit(c)),
                        out@ == q0 + concat_map(cs@.take(i as int), g),
                    decreases cs.len() - i,
                {
                    proof {
                        lemma_concat_map_step(cs@, g, i as int);
                    }
                    push_xml_commit(out, &cs[i]);
                    i = i + 1;
                    assert(out@ =~= q0 + concat_map(cs@.take(i as int), g));
                }
                assert(cs@.take(cs.len() as int) =~= cs@);
                push_str(out, "      </history>\n");
            }
        },
        None => {},
    }
    assert(out@ =~= start + xml_history(
        match cs {
            Some(v) => Some(v@),
            None => None,
        },
    ));
}

fn push_xml_file_attrs(out: &mut Vec<char>, f: &ContextFile)
    ensures
        final(out)@ == old(out)@ + xml_file_attrs(*f),
{
    let ghost start = out@;
    push_str(out, "    <file path=\"");
    push_string(out, &f.path);
    push_str(out, "\" language=\"");
    push_string(out, &f.language);
    push_str(out, "\" tokens=\"");
    push_dec(out, f.tokens as u64);
    push_str(out, "\"");
    assert(out@ =~= start + xml_file_attrs(*f));
}

fn push_xml_diff(out: &mut Vec<char>, d: &Option<String>)
    ensures
        final(out)@ == old(out)@ + xml_diff(*d),
{
    let ghost b = out@;
    match d {
        Some(d) => {
            push_str(out, "      <diff>\n<![CDATA[\n");
            push_string(out, d);
            push_str(out, "]]>\n      </diff>\n");
        },
        None => {},
    }
    assert(out@ =~= b + xml_diff(*d));
}

fn push_xml_changed_file(out: &mut Vec<char>, f: &ContextFile, history: &Vec<FileCommits>)
    ensures
        final(out)@ == old(out)@ + xml_changed_file(*f, history@),
{
    let ghost start = out@;
    let cs = find_commits(history, &f.path);
    let has_hist = match cs {
        Some(v) => v.len() > 0,
        None => false,
    };
    push_xml_file_attrs(out, f);
    if f.diff_content.is_some() || f.snippets.len() > 0 || has_hist {
        push_str(out, ">\n");
        push_xml_history(out, cs);
        push_xml_diff(out, &f.diff_content);
        push_xml_snippets(out, &f.snippets);
        push_str(out, "    </file>\n");
    } else {
        push_str(out, "/>\n");
    }
    assert(out@ =~= start + xml_changed_file(*f, history@));
}

fn push_xml_symbol(out: &mut Vec<char>, s: &ContextSymbol, dependent: bool)
    ensures
        final(out)@ == old(out)@ + xml_symbol(*s, dependent),
{
    let ghost start = out@;
    push_str(out, "    <symbol name=\"");
    push_string(out, &s.name);
    push_str(out, "\" kind=\"");
    push_string(out, &s.kind);
    push_str(out, "\" file=\"");
    push_string(out, &s.file_path);
    push_str(out, "\" line=\"");
    push_dec(out, s.start_line as u64);
    push_str(out, "\"");
    if dependent {
        push_str(out, " relevance=\"");
        push_string(out, &s.relevance);
        push_str(out, "\" reason=\"");
        push_quot_escaped(out, &s.relevance_reason);
        push_str(out, "\"");
    }
    push_str(out, "/>\n");
    assert(out@ =~= start + xml_symbol(*s, dependent));
}

fn push_xml_dependent_file(out: &mut Vec<char>, f: &ContextFile)
    ensures
        final(out)@ == old(out)@ + xml_dependent_file(*f),
{
    let ghost start = out@;
    push_str(out, "    <file path=\"");
    push_string(out, &f.path);
    push_str(out, "\" reason=\"");
    push_string(out, &f.relevance_reason);
    push_str(out, "\" relevance=\"");
    push_string(out, &f.relevance);
    push_str(out, "\"");
    if f.snippets.len() == 0 {
        push_str(out, "/>\n");
    } else {
        push_str(out, ">\n");
        push_xml_snippets(out, &f.snippets);
        push_str(out, "    </file>\n");
    }
    assert(out@ =~= start + xml_dependent_file(*f));
}

fn push_xml_test(out: &mut Vec<char>, t: &ContextFile)
    ensures
        final(out)@ == old(out)@ + xml_test(*t),
{
    let ghost start = out@;
    push_str(out, "    <test path=\"");
    push_string(out, &t.path);
    push_str(out, "\"");
    if t.snippets.len() == 0 {
        push_str(out, "/>\n");
    } else {
        push_str(out, ">\n");
        push_xml_snippets(out, &t.snippets);
        push_str(out, "    </test>\n");
    }
    assert(out@ =~= start + xml_test(*t));
}

fn push_xml_symbols(out: &mut Vec<char>, ss: &Vec<ContextSymbol>, dependent: bool)
    ensures
        final(out)@ == old(out)@ + if dependent {
            wrapped(
                "  <dependent_symbols>\n"@,
                ss@,
                |s: ContextSymbol| xml_symbol(s, true),
                "  </dependent_symbols>\n"@,
            )
        } else {
            wrapped(
                "  <changed_symbols>\n"@,
                ss@,
                |s: ContextSymbol| xml_symbol(s, false),
                "  </changed_symbols>\n"@,
            )
        },
{
    let ghost start = out@;
    if ss.len() > 0 {
        if dependent {
            push_str(out, "  <dependent_symbols>\n");
        } else {
            push_str(out, "  <changed_symbols>\n");
        }
        let ghost f = |s: ContextSymbol| xml_symbol(s, dependent);
        let ghost q0 = out@;
        let mut i: usize = 0;
        while i < ss.len()
            invariant
                i <= ss.len(),
                f == (|s: ContextSymbol| xml_symbol(s, dependent)),
                out@ == q0 + concat_map(ss@.take(i as int), f),
            decreases ss.len() - i,
        {
            proof {
                lemma_concat_map_step(ss@, f, i as int);
            }
            push_xml_symbol(out, &ss[i], dependent);
            i = i + 1;
            assert(out@ =~= q0 + concat_map(ss@.take(i as int), f));
        }
        assert(ss@.take(ss.len() as int) =~= ss@);
        if dependent {
            push_str(out, "  </dependent_symbols>\n");
        } else {
            push_str(out, "  </changed_symbols>\n");
        }
        proof {
            let g = |s: ContextSymbol| xml_symbol(s, dependent);
            let t = |s: ContextSymbol| xml_symbol(s, true);
            let u = |s: ContextSymbol| xml_symbol(s, false);
            if dependent {
                assert(g == t);
            } else {
                assert(g == u);
            }
        }
    }
}

fn push_xml_files(out: &mut Vec<char>, fs: &Vec<ContextFile>, tests: bool)
    ensures
        final(out)@ == old(out)@ + if tests {
            wrapped(
                "  <related_tests>\n"@,
                fs@,
                |t: ContextFile| xml_test(t),
                "  </related_tests>\n"@,
            )
        } else {
            wrapped(
                "  <dependent_files>\n"@,
                fs@,
                |f: ContextFile| xml_dependent_file(f),
                "  </dependent_files>\n"@,
            )
        },
{
    let ghost start = out@;
    if fs.len() > 0 {
        if tests {
            push_str(out, "  <related_tests>\n");
        } else {
            push_str(out, "  <dependent_files>\n");
        }
        let ghost f = if tests {
            |t: ContextFile| xml_test(t)
        } else {
            |f: ContextFile| xml_dependent_file(f)
        };
        let ghost q0 = out@;
        let mut i: usize = 0;
        while i < fs.len()
            invariant
                i <= fs.len(),
                f == if tests {
                    |t: ContextFile| xml_test(t)
                } else {
                    |f: ContextFile| xml_dependent_file(f)
                },
                out@ == q0 + concat_map(fs@.take(i as int), f),
            decreases fs.len() - i,
        {
            proof {
                lemma_concat_map_step(fs@, f, i as int);
            }
            if tests {
                push_xml_test(out, &fs[i]);
            } else {
                push_xml_dependent_file(out, &fs[i]);
            }
            i = i + 1;
            assert(out@ =~= q0 + concat_map(fs@.take(i as int), f));
        }
        assert(fs@.take(fs.len() as int) =~= fs@);
        if tests {
            push_str(out, "  </related_tests>\n");
        } else {
            push_str(out, "  </dependent_files>\n");
        }
    }
}

fn push_xml_chains(out: &mut Vec<char>, cs: &Vec<CallChain>)
    ensures
        final(out)@ == old(out)@ + wrapped(
            "  <call_graph>\n"@,
            cs@,
            |c: CallChain| xml_chain(c),
            "  </call_graph>\n"@,
        ),
{
    let ghost start = out@;
    if cs.len() > 0 {
        push_str(out, "  <call_graph>\n");
        let ghost f = |c: CallChain| xml_chain(c);
        let ghost q0 = out@;
        let mut i: usize = 0;
        while i < cs.len()
            invariant
                i <= cs.len(),
                f == (|c: CallChain| xml_chain(c)),
                out@ == q0 + concat_map(cs@.take(i as int), f),
            decreases cs.len() - i,
        {
            proof {
                lemma_concat_map_step(cs@, f, i as int);
            }
            let ghost before = out@;
            push_str(out, "    <chain>");
            push_chain(out, &cs[i]);
            push_str(out, "</chain>\n");
            assert(out@ =~= before + xml_chain(cs@[i as int]));
            i = i + 1;
            assert(out@ =~= q0 + concat_map(cs@.take(i as int), f));
        }
        assert(cs@.take(cs.len() as int) =~= cs@);
        push_str(out, "  </call_graph>\n");
    }
    assert(out@ =~= start + wrapped(
        "  <call_graph>\n"@,
        cs@,
        |c: CallChain| xml_chain(c),
        "  </call_graph>\n"@,
    ));
}

/// Renders the context as XML; see `xml_text`. The file count of the
/// summary is the sum of direct and transitive files, which must fit in
/// 64 bits.
pub fn format_diff_context_xml(context: &ExpandedContext, history: &Vec<FileCommits>) -> (r: String)
    requires
        context.impact_summary.direct_files + context.impact_summary.transitive_files <= u64::MAX,
    ensures
        r@ == xml_text(*context, history@),
{
    let imp = &context.impact_summary;
    let mut out: Vec<char> = Vec::new();
    push_str(&mut out, "<?xml version=\"1.0\" encoding=\"UTF-8\"?>\n");
    push_str(&mut out, "<diff_context>\n");
    push_str(&mut out, "  <summary>\n");
    push_str(&mut out, "    <preamble>");
    let pre = diff_preamble(context);
    push_xml_escaped(&mut out, &pre);
    push_str(&mut out, "</preamble>\n");
    push_str(&mut out, "    <impact level=\"");
    push_string(&mut out, &imp.level);
    push_str(&mut out, "\">");
    push_string(&mut out, &imp.description);
    push_str(&mut out, "</impact>\n");
    push_str(&mut out, "    <stats files=\"");
    push_dec(&mut out, imp.direct_files + imp.transitive_files);
    push_str(&mut out, "\" symbols=\"");
    push_dec(&mut out, imp.affected_symbols);
    push_str(&mut out, "\" tests=\"");
    push_dec(&mut out, imp.affected_tests);
    push_str(&mut out, "\"/>\n");
    push_str(&mut out, "  </summary>\n");
    push_str(&mut out, "  <changed_files>\n");
    assert(out@ =~= xml_header(*context));
    let fs = &context.changed_files;
    let ghost ff = |f: ContextFile| xml_changed_file(f, history@);
    let ghost q0 = out@;
    let mut i: usize = 0;
    while i < fs.len()
        invariant
            i <= fs.len(),
            ff == (|f: ContextFile| xml_changed_file(f, history@)),
            out@ == q0 + concat_map(fs@.take(i as int), ff),
        decreases fs.len() - i,
    {
        proof {
            lemma_concat_map_step(fs@, ff, i as int);
        }
        push_xml_changed_file(&mut out, &fs[i], history);
        i = i + 1;
        assert(out@ =~= q0 + concat_map(fs@.take(i as int), ff));
    }
    assert(fs@.take(fs.len() as int) =~= fs@);
    push_str(&mut out, "  </changed_files>\n");
    push_xml_symbols(&mut out, &context.changed_symbols, false);
    push_xml_symbols(&mut out, &context.dependent_symbols, true);
    push_xml_files(&mut out, &context.dependent_files, false);
    push_xml_files(&mut out, &context.related_tests, true);
    push_xml_chains(&mut out, &context.call_chains);
    push_str(&mut out, "</diff_context>\n");
    assert(out@ =~= xml_text(*context, history@));
    string_from_chars(&out)
}


// ---------------------------------------------------------------------------
// Choosing the format
// ---------------------------------------------------------------------------

/// The context rendered in a text format; JSON, which is serialised
/// outside the library, has no text here.
pub open spec fn diff_context_text(
    context: ExpandedContext,
    format: OutputFormat,
    history: Seq<FileCommits>,
) -> Option<Seq<char>> {
    match format {
        OutputFormat::Xml => Some(xml_text(context, history)),
        OutputFormat::Json => None,
        OutputFormat::Markdown => Some(markdown_text(context, history)),
        OutputFormat::Yaml => Some(yaml_text(context, history)),
        OutputFormat::Toon => Some(toon_text(context, history)),
        OutputFormat::Plain => Some(plain_text(context, history)),
    }
}

/// Renders the context in the chosen format; `None` for JSON.
pub fn format_diff_context(
    context: &ExpandedContext,
    format: OutputFormat,
    history: &Vec<FileCommits>,
) -> (r: Option<String>)
    requires
        format == OutputFormat::Xml ==> context.impact_summary.direct_files
            + context.impact_summary.transitive_files <= u64::MAX,
    ensures
        match (r, diff_context_text(*context, format, history@)) {
            (Some(t), Some(e)) => t@ == e,
            (None, None) => true,
            _ => false,
        },
{
    match format {
        OutputFormat::Xml => Some(format_diff_context_xml(context, history)),
        OutputFormat::Json => None,
        OutputFormat::Markdown => Some(format_diff_context_markdown(context, history)),
        OutputFormat::Yaml => Some(format_diff_context_yaml(context, history)),
        OutputFormat::Toon => Some(format_diff_context_toon(context, history)),
        OutputFormat::Plain => Some(format_diff_context_plain(context, history)),
    }
}

} // verus!
