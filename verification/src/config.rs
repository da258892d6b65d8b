//! Configuration file handling: the settings a config file supplies, how a
//! parsed file is merged into them, size strings such as `"10MB"`, the
//! ignore-file format, and how the format of an extension-less config file
//! is detected.

use vstd::prelude::*;
use crate::text::{
    chars_of, ends_with, is_blank, is_blank_chars, lines, parse_unsigned, parse_unsigned_chars,
    push_all, split_lines, starts_with, string_from_chars, subrange_chars, trim, trim_chars,
    trim_start, trim_start_chars, uppercase, to_uppercase_chars, ends_with_str, views, is_ascii,
    ascii_upper, lemma_trim_twice, lemma_trim_upper, lemma_ascii_upper_twice,
};

verus! {

// ---------------------------------------------------------------------------
// Settings supplied by a config file
// ---------------------------------------------------------------------------

/// Loaded configuration from file.
#[derive(Debug)]
pub struct LoadedConfig {
    /// Additional exclude patterns from config
    pub exclude_patterns: Vec<String>,
    /// Additional include patterns from config
    pub include_patterns: Vec<String>,
    /// Output format from config
    pub format: Option<String>,
    /// Target model from config
    pub model: Option<String>,
    /// Token budget from config
    pub token_budget: Option<u32>,
    /// Compression level from config
    pub compression: Option<String>,
    /// Include tests from config
    pub include_tests: Option<bool>,
    /// Include docs from config
    pub include_docs: Option<bool>,
    /// Security check from config
    pub security_check: Option<bool>,
    /// Fail if secrets are detected
    pub fail_on_secrets: Option<bool>,
    /// Security allowlist patterns
    pub security_allowlist: Vec<String>,
    /// Custom security patterns
    pub security_custom_patterns: Vec<String>,
    /// Redact secrets in output
    pub redact_secrets: Option<bool>,
    /// Show line numbers
    pub line_numbers: Option<bool>,
    /// Show directory structure
    pub show_directory_structure: Option<bool>,
    /// Show file summary
    pub show_file_summary: Option<bool>,
    /// Remove empty lines
    pub remove_empty_lines: Option<bool>,
    /// Remove comments
    pub remove_comments: Option<bool>,
    /// Include hidden files
    pub include_hidden: Option<bool>,
    /// Maximum file size in bytes
    pub max_file_size: Option<u64>,
}

/// Nothing set: empty pattern lists and no values.
pub open spec fn loaded_config_is_empty(c: LoadedConfig) -> bool {
    &&& c.exclude_patterns@.len() == 0
    &&& c.include_patterns@.len() == 0
    &&& c.format is None
    &&& c.model is None
    &&& c.token_budget is None
    &&& c.compression is None
    &&& c.include_tests is None
    &&& c.include_docs is None
    &&& c.security_check is None
    &&& c.fail_on_secrets is None
    &&& c.security_allowlist@.len() == 0
    &&& c.security_custom_patterns@.len() == 0
    &&& c.redact_secrets is None
    &&& c.line_numbers is None
    &&& c.show_directory_structure is None
    &&& c.show_file_summary is None
    &&& c.remove_empty_lines is None
    &&& c.remove_comments is None
    &&& c.include_hidden is None
    &&& c.max_file_size is None
}

impl Default for LoadedConfig {
    fn default() -> (r: Self)
        ensures
            loaded_config_is_empty(r),
    {
        LoadedConfig {
            exclude_patterns: Vec::new(),
            include_patterns: Vec::new(),
            format: None,
            model: None,
            token_budget: None,
            compression: None,
            include_tests: None,
            include_docs: None,
            security_check: None,
            fail_on_secrets: None,
            security_allowlist: Vec::new(),
            security_custom_patterns: Vec::new(),
            redact_secrets: None,
            line_numbers: None,
            show_directory_structure: None,
            show_file_summary: None,
            remove_empty_lines: None,
            remove_comments: None,
            include_hidden: None,
            max_file_size: None,
        }
    }
}

// ---------------------------------------------------------------------------
// A parsed config file
// ---------------------------------------------------------------------------

/// The `output` section of a config file.
#[derive(Debug)]
pub struct OutputConfigSection {
    pub format: Option<String>,
    pub model: Option<String>,
    pub compression: Option<String>,
    pub token_budget: Option<u32>,
    pub line_numbers: Option<bool>,
    pub show_directory_structure: Option<bool>,
    pub show_file_summary: Option<bool>,
    pub remove_empty_lines: Option<bool>,
    pub remove_comments: Option<bool>,
}

/// The `budget` section of a config file (flat legacy format).
#[derive(Debug)]
pub struct BudgetConfigSection {
    pub tokens: Option<u32>,
}

/// The `scan` section of a config file.
#[derive(Debug)]
pub struct ScanConfigSection {
    pub include_patterns: Vec<String>,
    pub exclude_patterns: Vec<String>,
    pub include_hidden: Option<bool>,
    /// Maximum file size ("10MB", "500KB", ... or raw bytes)
    pub max_file_size: Option<String>,
}

/// The `security` section of a config file.
#[derive(Debug)]
pub struct SecurityConfigSection {
    pub scan_secrets: Option<bool>,
    pub fail_on_secrets: Option<bool>,
    pub allowlist: Vec<String>,
    pub custom_patterns: Vec<String>,
    pub redact_secrets: Option<bool>,
}

/// A config file as parsed: both the flat (legacy) and the nested layout.
#[derive(Debug)]
pub struct PartialConfig {
    /// Exclude patterns (flat format)
    pub exclude_patterns: Vec<String>,
    /// Include patterns (flat format)
    pub include_patterns: Vec<String>,
    pub scan: ScanConfigSection,
    pub output: OutputConfigSection,
    pub budget: BudgetConfigSection,
    pub security: SecurityConfigSection,
    pub include_tests: Option<bool>,
    pub include_docs: Option<bool>,
    pub security_check: Option<bool>,
}

/// The texts held by a vector of strings.
pub open spec fn texts(v: Seq<String>) -> Seq<Seq<char>> {
    v.map_values(|s: String| s@)
}

/// The text of an optional string.
pub open spec fn opt_text(o: Option<String>) -> Option<Seq<char>> {
    match o {
        Some(s) => Some(s@),
        None => None,
    }
}

/// `a`, or `b` when `a` is unset (`Option::or`).
pub open spec fn or_else<T>(a: Option<T>, b: Option<T>) -> Option<T> {
    if a is Some {
        a
    } else {
        b
    }
}

/// How a parsed file is merged into the settings collected so far: pattern
/// lists are extended (flat list first, then the nested `scan` list); every
/// other setting is taken from the file only where still unset, the token
/// budget from `output.token_budget` or else `budget.tokens`, the security
/// check from the flat flag or else `security.scan_secrets`, the two security
/// pattern lists only where still empty, and the size limit parsed from
/// `scan.max_file_size` by `size_in_bytes`.
pub open spec fn merged_config(before: LoadedConfig, after: LoadedConfig, p: PartialConfig) -> bool {
    &&& texts(after.exclude_patterns@) == texts(before.exclude_patterns@) + texts(p.exclude_patterns@) + texts(
        p.scan.exclude_patterns@,
    )
    &&& texts(after.include_patterns@) == texts(before.include_patterns@) + texts(p.include_patterns@) + texts(
        p.scan.include_patterns@,
    )
    &&& opt_text(after.format) == or_else(opt_text(before.format), opt_text(p.output.format))
    &&& opt_text(after.model) == or_else(opt_text(before.model), opt_text(p.output.model))
    &&& opt_text(after.compression) == or_else(
        opt_text(before.compression),
        opt_text(p.output.compression),
    )
    &&& after.token_budget == or_else(
        before.token_budget,
        or_else(p.output.token_budget, p.budget.tokens),
    )
    &&& after.include_tests == or_else(before.include_tests, p.include_tests)
    &&& after.include_docs == or_else(before.include_docs, p.include_docs)
    &&& after.security_check == or_else(
        before.security_check,
        or_else(p.security_check, p.security.scan_secrets),
    )
    &&& after.fail_on_secrets == or_else(before.fail_on_secrets, p.security.fail_on_secrets)
    &&& after.redact_secrets == or_else(before.redact_secrets, p.security.redact_secrets)
    &&& texts(after.security_allowlist@) == (if before.security_allowlist@.len() == 0 {
        texts(p.security.allowlist@)
    } else {
        texts(before.security_allowlist@)
    })
    &&& texts(after.security_custom_patterns@) == (if before.security_custom_patterns@.len() == 0 {
        texts(p.security.custom_patterns@)
    } else {
        texts(before.security_custom_patterns@)
    })
    &&& after.line_numbers == or_else(before.line_numbers, p.output.line_numbers)
    &&& after.show_directory_structure == or_else(
        before.show_directory_structure,
        p.output.show_directory_structure,
    )
    &&& after.show_file_summary == or_else(before.show_file_summary, p.output.show_file_summary)
    &&& after.remove_empty_lines == or_else(before.remove_empty_lines, p.output.remove_empty_lines)
    &&& after.remove_comments == or_else(before.remove_comments, p.output.remove_comments)
    &&& after.include_hidden == or_else(before.include_hidden, p.scan.include_hidden)
    &&& (after.max_file_size == if before.max_file_size is Some {
        before.max_file_size
    } else {
        match p.scan.max_file_size {
            Some(s) => Some(size_in_bytes(s@) as u64),
            None => None,
        }
    })
}

fn append_strings(dst: &mut Vec<String>, src: Vec<String>)
    ensures
        texts(final(dst)@) == texts(old(dst)@) + texts(src@),
{
    let mut src = src;
    let ghost d0 = dst@;
    let ghost s0 = src@;
    dst.append(&mut src);
    assert(texts(dst@) =~= texts(d0) + texts(s0));
}

fn pick<T>(a: Option<T>, b: Option<T>) -> (r: Option<T>)
    ensures
        r == or_else(a, b),
{
    match a {
        Some(x) => Some(x),
        None => b,
    }
}

fn pick_text(a: Option<String>, b: Option<String>) -> (r: Option<String>)
    ensures
        opt_text(r) == or_else(opt_text(a), opt_text(b)),
{
    match a {
        Some(x) => Some(x),
        None => b,
    }
}

fn pick_list(a: Vec<String>, b: Vec<String>) -> (r: Vec<String>)
    ensures
        texts(r@) == (if a@.len() == 0 {
            texts(b@)
        } else {
            texts(a@)
        }),
{
    if a.len() == 0 {
        b
    } else {
        a
    }
}

fn merged_values(before: LoadedConfig, parsed: PartialConfig) -> (after: LoadedConfig)
    requires
        before.max_file_size is None ==> (parsed.scan.max_file_size matches Some(s) ==> size_in_bytes(
            s@,
        ) <= u64::MAX),
    ensures
        merged_config(before, after, parsed),
{
    let LoadedConfig {
        mut exclude_patterns,
        mut include_patterns,
        format,
        model,
        token_budget,
        compression,
        include_tests,
        include_docs,
        security_check,
        fail_on_secrets,
        security_allowlist,
        security_custom_patterns,
        redact_secrets,
        line_numbers,
        show_directory_structure,
        show_file_summary,
        remove_empty_lines,
        remove_comments,
        include_hidden,
        max_file_size,
    } = before;
    let PartialConfig {
        exclude_patterns: p_exclude,
        include_patterns: p_include,
        scan,
        output,
        budget,
        security,
        include_tests: p_include_tests,
        include_docs: p_include_docs,
        security_check: p_security_check,
    } = parsed;
    append_strings(&mut exclude_patterns, p_exclude);
    append_strings(&mut exclude_patterns, scan.exclude_patterns);
    append_strings(&mut include_patterns, p_include);
    append_strings(&mut include_patterns, scan.include_patterns);
    let size = match max_file_size {
        Some(m) => Some(m),
        None => match scan.max_file_size {
            Some(size_str) => Some(parse_size_string(size_str.as_str())),
            None => None,
        },
    };
    LoadedConfig {
        exclude_patterns,
        include_patterns,
        format: pick_text(format, output.format),
        model: pick_text(model, output.model),
        token_budget: pick(token_budget, pick(output.token_budget, budget.tokens)),
        compression: pick_text(compression, output.compression),
        include_tests: pick(include_tests, p_include_tests),
        include_docs: pick(include_docs, p_include_docs),
        security_check: pick(security_check, pick(p_security_check, security.scan_secrets)),
        fail_on_secrets: pick(fail_on_secrets, security.fail_on_secrets),
        security_allowlist: pick_list(security_allowlist, security.allowlist),
        security_custom_patterns: pick_list(security_custom_patterns, security.custom_patterns),
        redact_secrets: pick(redact_secrets, security.redact_secrets),
        line_numbers: pick(line_numbers, output.line_numbers),
        show_directory_structure: pick(show_directory_structure, output.show_directory_structure),
        show_file_summary: pick(show_file_summary, output.show_file_summary),
        remove_empty_lines: pick(remove_empty_lines, output.remove_empty_lines),
        remove_comments: pick(remove_comments, output.remove_comments),
        include_hidden: pick(include_hidden, scan.include_hidden),
        max_file_size: size,
    }
}

/// Merges a parsed config file into the settings collected so far; see
/// `merged_config` for what is taken from where.
pub fn merge_partial_config(config: &mut LoadedConfig, parsed: PartialConfig)
    requires
        old(config).max_file_size is None ==> (parsed.scan.max_file_size matches Some(s)
            ==> size_in_bytes(s@) <= u64::MAX),
    ensures
        merged_config(*old(config), *final(config), parsed),
{
    let mut before = LoadedConfig::default();
    core::mem::swap(&mut before, config);
    *config = merged_values(before, parsed);
}

/// Merges a parsed config file into the settings collected so far, when its
/// `scan.max_file_size` (if it is used) denotes a size that fits in a `u64`;
/// otherwise leaves the settings unchanged and returns `false`.
pub fn merge_config_file(config: &mut LoadedConfig, parsed: PartialConfig) -> (merged: bool)
    ensures
        merged ==> merged_config(*old(config), *final(config), parsed),
        !merged ==> *final(config) == *old(config),
        merged == (old(config).max_file_size is None ==> (parsed.scan.max_file_size matches Some(s)
            ==> size_in_bytes(s@) <= u64::MAX)),
{
    if config.max_file_size.is_none() {
        match &parsed.scan.max_file_size {
            Some(s) => {
                if checked_parse_size_string(s.as_str()).is_none() {
                    return false;
                }
            },
            None => {},
        }
    }
    merge_partial_config(config, parsed);
    true
}

// ---------------------------------------------------------------------------
// Size strings
// ---------------------------------------------------------------------------

/// The size used when the number part does not parse: 50 MiB.
pub open spec fn default_size() -> nat {
    50 * 1024 * 1024
}

/// How a size string splits, after trimming and upper-casing, into its number
/// part and unit multiplier: a `GB`, `MB` or `KB` suffix (binary units), a bare
/// `B`, or no suffix.
pub open spec fn size_parts(u: Seq<char>) -> (Seq<char>, nat) {
    if ends_with(u, "GB"@) {
        (u.subrange(0, u.len() - 2), 1024 * 1024 * 1024)
    } else if ends_with(u, "MB"@) {
        (u.subrange(0, u.len() - 2), 1024 * 1024)
    } else if ends_with(u, "KB"@) {
        (u.subrange(0, u.len() - 2), 1024)
    } else if ends_with(u, "B"@) {
        (u.subrange(0, u.len() - 1), 1)
    } else {
        (u, 1)
    }
}

/// The number of bytes a size string such as `"10MB"` denotes: the trimmed
/// number part times the unit, where a number part that is not a `u64` counts
/// as 50 MiB.
pub open spec fn size_in_bytes(s: Seq<char>) -> nat {
    upper_size_in_bytes(uppercase(trim(s)))
}

/// The number of bytes of a trimmed, upper-cased size string.
pub open spec fn upper_size_in_bytes(u: Seq<char>) -> nat {
    let (num, unit) = size_parts(u);
    let n = match parse_unsigned(trim(num), u64::MAX as nat) {
        Some(v) => v,
        None => default_size(),
    };
    n * unit
}

/// The number of bytes an ASCII size string denotes: as `size_in_bytes`,
/// with its letters upper-cased `a`-`z` to `A`-`Z`.
pub open spec fn ascii_size_in_bytes(s: Seq<char>) -> nat {
    upper_size_in_bytes(ascii_upper(trim(s)))
}

/// On ASCII text a size string is read the same however its letters are
/// cased and whatever whitespace surrounds it: trimming and upper-casing it
/// first gives ASCII text that denotes the same number of bytes.
pub proof fn law_size_ignores_case_and_spaces(s: Seq<char>)
    requires
        is_ascii(s),
    ensures
        is_ascii(ascii_upper(trim(s))),
        ascii_size_in_bytes(ascii_upper(trim(s))) == ascii_size_in_bytes(s),
{
    lemma_trim_twice(s);
    lemma_ascii_upper_twice(trim(s));
    lemma_trim_upper(trim(s));
}

/// Computes the number part's value and the unit of a size string.
fn size_value_and_unit(s: &str) -> (r: (u64, u64))
    ensures
        is_ascii(s@) ==> uppercase(trim(s@)) == ascii_upper(trim(s@)),
        ({
            let (num, unit) = size_parts(uppercase(trim(s@)));
            &&& r.0 as nat == match parse_unsigned(trim(num), u64::MAX as nat) {
                Some(v) => v,
                None => default_size(),
            }
            &&& r.1 as nat == unit
        }),
{
    let t = trim_chars(&chars_of(s));
    let ts = string_from_chars(&t);
    proof {
        lemma_trim_twice(s@);
    }
    let u = to_uppercase_chars(ts.as_str());
    upper_value_and_unit(&u)
}

/// Computes the number part's value and the unit of a trimmed, upper-cased
/// size string.
fn upper_value_and_unit(u: &Vec<char>) -> (r: (u64, u64))
    ensures
        ({
            let (num, unit) = size_parts(u@);
            &&& r.0 as nat == match parse_unsigned(trim(num), u64::MAX as nat) {
                Some(v) => v,
                None => default_size(),
            }
            &&& r.1 as nat == unit
        }),
{
    proof {
        reveal_strlit("GB");
        reveal_strlit("MB");
        reveal_strlit("KB");
        reveal_strlit("B");
    }
    let (num, unit): (Vec<char>, u64) = if ends_with_str(u, "GB") {
        (subrange_chars(u, 0, u.len() - 2), 1024 * 1024 * 1024)
    } else if ends_with_str(u, "MB") {
        (subrange_chars(u, 0, u.len() - 2), 1024 * 1024)
    } else if ends_with_str(u, "KB") {
        (subrange_chars(u, 0, u.len() - 2), 1024)
    } else if ends_with_str(u, "B") {
        (subrange_chars(u, 0, u.len() - 1), 1)
    } else {
        (subrange_chars(u, 0, u.len()), 1)
    };
    assert(u@.subrange(0, u@.len() as int) == u@);
    let n = trim_chars(&num);
    let value = match parse_unsigned_chars(&n, u64::MAX) {
        Some(v) => v,
        None => 50 * 1024 * 1024,
    };
    (value, unit)
}

/// The bytes a trimmed, upper-cased size string denotes, or `None` when they
/// do not fit in a `u64`; see `upper_size_in_bytes`.
pub fn upper_size_string_bytes(upper: &str) -> (r: Option<u64>)
    ensures
        upper_size_in_bytes(upper@) <= u64::MAX ==> r == Some(upper_size_in_bytes(upper@) as u64),
        upper_size_in_bytes(upper@) > u64::MAX ==> r is None,
{
    let u = chars_of(upper);
    let (value, unit) = upper_value_and_unit(&u);
    value.checked_mul(unit)
}

/// Parses a size string like "10MB", "500KB", "1GB" into bytes.
pub fn parse_size_string(s: &str) -> (r: u64)
    requires
        size_in_bytes(s@) <= u64::MAX,
    ensures
        r as nat == size_in_bytes(s@),
        is_ascii(s@) ==> r as nat == ascii_size_in_bytes(s@),
{
    let (value, unit) = size_value_and_unit(s);
    value * unit
}

/// Parses a size string into bytes, or `None` when the product does not fit
/// in a `u64` (where `parse_size_string` has no result).
pub fn checked_parse_size_string(s: &str) -> (r: Option<u64>)
    ensures
        size_in_bytes(s@) <= u64::MAX ==> r == Some(size_in_bytes(s@) as u64),
        size_in_bytes(s@) > u64::MAX ==> r is None,
        is_ascii(s@) ==> size_in_bytes(s@) == ascii_size_in_bytes(s@),
{
    let (value, unit) = size_value_and_unit(s);
    match value.checked_mul(unit) {
        Some(_) => Some(parse_size_string(s)),
        None => None,
    }
}

// ---------------------------------------------------------------------------
// Ignore files and config file formats
// ---------------------------------------------------------------------------

/// The patterns an ignore file holds: its trimmed lines, without empty lines
/// and `#` comments.
pub open spec fn ignore_patterns(ls: Seq<Seq<char>>) -> Seq<Seq<char>>
    decreases ls.len(),
{
    if ls.len() == 0 {
        Seq::empty()
    } else {
        let prev = ignore_patterns(ls.drop_last());
        let t = trim(ls.last());
        if t.len() != 0 && !starts_with(t, "#"@) {
            prev.push(t)
        } else {
            prev
        }
    }
}

/// Reads the exclude patterns of an ignore file's content.
pub fn parse_ignore_patterns(content: &str) -> (r: Vec<String>)
    ensures
        texts(r@) == ignore_patterns(lines(content@)),
{
    let v = chars_of(content);
    let ls = split_lines(&v);
    let mut r: Vec<String> = Vec::new();
    let mut i: usize = 0;
    while i < ls.len()
        invariant
            i <= ls.len(),
            views(ls@) == lines(content@),
            texts(r@) == ignore_patterns(views(ls@).take(i as int)),
        decreases ls.len() - i,
    {
        proof {
            assert(views(ls@).take(i + 1).drop_last() == views(ls@).take(i as int));
            assert(views(ls@).take(i + 1).last() == ls@[i as int]@);
        }
        let t = trim_chars(&ls[i]);
        if t.len() != 0 && !crate::text::starts_with_str(&t, "#") {
            let ghost prev = texts(r@);
            let s = string_from_chars(&t);
            r.push(s);
            assert(texts(r@) =~= prev.push(t@));
        }
        i = i + 1;
    }
    assert(views(ls@).take(ls.len() as int) == views(ls@));
    r
}

/// The syntax of a config file.
#[derive(Clone, Copy, Debug, PartialEq, Eq)]
pub enum ConfigSyntax {
    Yaml,
    Json,
    Toml,
}

/// The syntax named by a file extension: `yaml`/`yml`, `json` or `toml`;
/// any other extension is not a config format.
pub open spec fn syntax_for_extension(ext: Seq<char>) -> Option<ConfigSyntax> {
    if ext == "yaml"@ || ext == "yml"@ {
        Some(ConfigSyntax::Yaml)
    } else if ext == "json"@ {
        Some(ConfigSyntax::Json)
    } else if ext == "toml"@ {
        Some(ConfigSyntax::Toml)
    } else {
        None
    }
}

/// The config syntax for a file extension.
pub fn config_syntax_for_extension(ext: &str) -> (r: Option<ConfigSyntax>)
    ensures
        r == syntax_for_extension(ext@),
{
    let e = chars_of(ext);
    if crate::text::chars_eq_str(&e, "yaml") || crate::text::chars_eq_str(&e, "yml") {
        Some(ConfigSyntax::Yaml)
    } else if crate::text::chars_eq_str(&e, "json") {
        Some(ConfigSyntax::Json)
    } else if crate::text::chars_eq_str(&e, "toml") {
        Some(ConfigSyntax::Toml)
    } else {
        None
    }
}

/// YAML files are `.yaml` or `.yml`, JSON files `.json`, TOML files
/// `.toml`, and no other extension names a config format; so every default
/// config file with an extension (`.infiniloom.` followed by it) is read
/// with the syntax its extension names.
pub proof fn law_config_extensions(ext: Seq<char>)
    ensures
        syntax_for_extension(ext) == Some(ConfigSyntax::Yaml) <==> (ext == "yaml"@ || ext == "yml"@),
        syntax_for_extension(ext) == Some(ConfigSyntax::Json) <==> ext == "json"@,
        syntax_for_extension(ext) == Some(ConfigSyntax::Toml) <==> ext == "toml"@,
        syntax_for_extension(ext) is None <==> (ext != "yaml"@ && ext != "yml"@ && ext != "json"@
            && ext != "toml"@),
        forall|i: int|
            1 <= i < config_file_names().len() ==> syntax_for_extension(
                #[trigger] config_file_names()[i].subrange(12, config_file_names()[i].len() as int),
            ) is Some,
{
    reveal_strlit("yaml");
    reveal_strlit("yml");
    reveal_strlit("json");
    reveal_strlit("toml");
    reveal_strlit(".infiniloom.yaml");
    reveal_strlit(".infiniloom.yml");
    reveal_strlit(".infiniloom.toml");
    reveal_strlit(".infiniloom.json");
    assert("json"@[0] != "yaml"@[0]);
    assert("toml"@[0] != "yaml"@[0]);
    assert("toml"@[0] != "json"@[0]);
    assert("yml"@.len() != "json"@.len());
    assert("yml"@.len() != "toml"@.len());
    let n = config_file_names();
    assert(n[1].subrange(12, n[1].len() as int) =~= "yaml"@);
    assert(n[2].subrange(12, n[2].len() as int) =~= "yml"@);
    assert(n[3].subrange(12, n[3].len() as int) =~= "toml"@);
    assert(n[4].subrange(12, n[4].len() as int) =~= "json"@);
}

/// A configuration file only fills gaps: every setting already present is
/// kept, and its patterns only add to those collected.
pub proof fn law_config_file_fills_gaps(before: LoadedConfig, after: LoadedConfig, p: PartialConfig)
    requires
        merged_config(before, after, p),
    ensures
        before.format is Some ==> opt_text(after.format) == opt_text(before.format),
        before.model is Some ==> opt_text(after.model) == opt_text(before.model),
        before.compression is Some ==> opt_text(after.compression) == opt_text(before.compression),
        before.token_budget is Some ==> after.token_budget == before.token_budget,
        before.include_tests is Some ==> after.include_tests == before.include_tests,
        before.security_check is Some ==> after.security_check == before.security_check,
        before.max_file_size is Some ==> after.max_file_size == before.max_file_size,
        texts(before.exclude_patterns@).is_prefix_of(texts(after.exclude_patterns@)),
        texts(before.include_patterns@).is_prefix_of(texts(after.include_patterns@)),
{
    assert(texts(before.exclude_patterns@).is_prefix_of(texts(after.exclude_patterns@))) by {
        let b = texts(before.exclude_patterns@);
        assert(texts(after.exclude_patterns@).subrange(0, b.len() as int) =~= b);
    }
    assert(texts(before.include_patterns@).is_prefix_of(texts(after.include_patterns@))) by {
        let b = texts(before.include_patterns@);
        assert(texts(after.include_patterns@).subrange(0, b.len() as int) =~= b);
    }
}

/// The config files looked for in a repository when none is named, in the
/// order they are tried; the first that can be read is used.
pub open spec fn config_file_names() -> Seq<Seq<char>> {
    seq![
        ".infiniloomrc"@,
        ".infiniloom.yaml"@,
        ".infiniloom.yml"@,
        ".infiniloom.toml"@,
        ".infiniloom.json"@,
    ]
}

/// The config files looked for in a repository; see `config_file_names`.
pub fn default_config_files() -> (r: Vec<&'static str>)
    ensures
        r@.map_values(|s: &'static str| s@) == config_file_names(),
{
    let r = vec![
        ".infiniloomrc",
        ".infiniloom.yaml",
        ".infiniloom.yml",
        ".infiniloom.toml",
        ".infiniloom.json",
    ];
    assert(r@.map_values(|s: &'static str| s@) =~= config_file_names());
    r
}

/// The file whose lines are more exclude patterns.
pub fn ignore_file_name() -> (r: &'static str)
    ensures
        r@ == ".infiniloomignore"@,
{
    ".infiniloomignore"
}

/// The syntax of an `.infiniloomrc` file, guessed from its content: JSON
/// when it starts (after leading whitespace) with `{`, YAML when it holds a
/// `:`, TOML otherwise.
pub open spec fn rc_syntax(content: Seq<char>) -> ConfigSyntax {
    if starts_with(trim_start(content), "{"@) {
        ConfigSyntax::Json
    } else if content.contains(':') {
        ConfigSyntax::Yaml
    } else {
        ConfigSyntax::Toml
    }
}

/// Guesses the syntax of an `.infiniloomrc` file from its content.
pub fn detect_rc_syntax(content: &str) -> (r: ConfigSyntax)
    ensures
        r == rc_syntax(content@),
{
    let v = chars_of(content);
    let t = trim_start_chars(&v);
    if crate::text::starts_with_str(&t, "{") {
        ConfigSyntax::Json
    } else if crate::text::contains_char(&v, ':') {
        ConfigSyntax::Yaml
    } else {
        ConfigSyntax::Toml
    }
}

} // verus!
