//! Configuration of the `pack` command: grouped option structs with their
//! defaults, and a builder that requires a repository path.

use vstd::prelude::*;
use std::path::PathBuf;
use crate::models::{format_named, parse_output_format, CompressionLevel, OutputFormat, TokenizerModel};
use crate::config::LoadedConfig;
use crate::text::lowercase;

verus! {

/// `std::path::PathBuf`, carried through as an opaque value.
#[verifier::external_type_specification]
#[verifier::external_body]
pub struct ExPathBuf(PathBuf);

/// Output formatting and generation options.
#[derive(Debug)]
pub struct OutputOptions {
    /// Output format (XML, Markdown, JSON, etc.)
    pub format: Option<OutputFormat>,
    /// Target LLM model for tokenization
    pub model: Option<TokenizerModel>,
    /// Compression level
    pub compression: Option<CompressionLevel>,
    /// Maximum tokens in output
    pub max_tokens: u32,
    /// Output file path (None = stdout)
    pub output_file: Option<PathBuf>,
    /// Custom header text
    pub header_text: Option<String>,
    /// Instruction file to prepend
    pub instruction_file: Option<PathBuf>,
    /// Show line numbers in output
    pub show_line_numbers: bool,
    /// Show directory structure
    pub show_directory_structure: bool,
    /// Show file summary statistics
    pub show_file_summary: bool,
    /// Show token tree breakdown
    pub token_tree: bool,
    /// Copy output to clipboard
    pub copy_to_clipboard: bool,
}

/// Scanning and filtering options.
#[derive(Debug, Clone)]
pub struct ScanOptions {
    /// Include hidden files
    pub include_hidden: bool,
    /// Respect .gitignore patterns
    pub respect_gitignore: bool,
    /// Enable symbol extraction
    pub enable_symbols: bool,
    /// Full mode (include all content)
    pub full_mode: bool,
    /// Exclude file content (structure only)
    pub exclude_content: bool,
    /// Include test files
    pub include_tests: bool,
    /// Include documentation files
    pub include_docs: bool,
    /// Use default ignore patterns
    pub use_default_ignores: bool,
    /// Include patterns (glob)
    pub include_patterns: Vec<String>,
    /// Exclude patterns (glob)
    pub exclude_patterns: Vec<String>,
    /// Read file paths from stdin
    pub stdin: bool,
    /// Remove empty lines from output
    pub remove_empty_lines: bool,
    /// Remove comments from output
    pub remove_comments: bool,
    /// Number of top files to include
    pub top_files: usize,
    /// Truncate base64 content
    pub truncate_base64: bool,
    /// Use incremental caching
    pub incremental_cache: bool,
}

/// Git-related options.
#[derive(Debug, Clone)]
pub struct GitOptions {
    /// Include git logs
    pub include_logs: bool,
    /// Number of log entries to include
    pub logs_count: usize,
    /// Include git diffs
    pub include_diffs: bool,
    /// Sort files by change frequency
    pub sort_by_changes: bool,
    /// Remote repository branch
    pub remote_branch: Option<String>,
    /// Sparse checkout paths
    pub sparse_paths: Vec<String>,
}

/// Security scanning options.
#[derive(Debug, Clone)]
pub struct SecurityOptions {
    /// Run security check for secrets
    pub security_check: bool,
    /// Redact detected secrets
    pub redact_secrets: bool,
}

/// Watch mode options.
#[derive(Debug, Clone)]
pub struct WatchOptions {
    /// Enable watch mode
    pub enabled: bool,
}

/// The default output options: nothing chosen, no limit, every flag off.
pub open spec fn output_options_default(o: OutputOptions) -> bool {
    &&& o.format is None
    &&& o.model is None
    &&& o.compression is None
    &&& o.max_tokens == 0
    &&& o.output_file is None
    &&& o.header_text is None
    &&& o.instruction_file is None
    &&& !o.show_line_numbers
    &&& !o.show_directory_structure
    &&& !o.show_file_summary
    &&& !o.token_tree
    &&& !o.copy_to_clipboard
}

/// The default scan options: respect `.gitignore`, extract symbols and use the
/// default ignores; everything else off, empty or zero.
pub open spec fn scan_options_default(s: ScanOptions) -> bool {
    &&& !s.include_hidden
    &&& s.respect_gitignore
    &&& s.enable_symbols
    &&& !s.full_mode
    &&& !s.exclude_content
    &&& !s.include_tests
    &&& !s.include_docs
    &&& s.use_default_ignores
    &&& s.include_patterns@.len() == 0
    &&& s.exclude_patterns@.len() == 0
    &&& !s.stdin
    &&& !s.remove_empty_lines
    &&& !s.remove_comments
    &&& s.top_files == 0
    &&& !s.truncate_base64
    &&& !s.incremental_cache
}

/// The default git options: no logs, diffs or sorting, 10 log entries, no
/// remote branch and no sparse paths.
pub open spec fn git_options_default(g: GitOptions) -> bool {
    &&& !g.include_logs
    &&& g.logs_count == 10
    &&& !g.include_diffs
    &&& !g.sort_by_changes
    &&& g.remote_branch is None
    &&& g.sparse_paths@.len() == 0
}

impl Default for OutputOptions {
    fn default() -> (r: Self)
        ensures
            output_options_default(r),
    {
        OutputOptions {
            format: None,
            model: None,
            compression: None,
            max_tokens: 0,
            output_file: None,
            header_text: None,
            instruction_file: None,
            show_line_numbers: false,
            show_directory_structure: false,
            show_file_summary: false,
            token_tree: false,
            copy_to_clipboard: false,
        }
    }
}

impl Default for ScanOptions {
    fn default() -> (r: Self)
        ensures
            scan_options_default(r),
    {
        ScanOptions {
            include_hidden: false,
            respect_gitignore: true,
            enable_symbols: true,
            full_mode: false,
            exclude_content: false,
            include_tests: false,
            include_docs: false,
            use_default_ignores: true,
            include_patterns: Vec::new(),
            exclude_patterns: Vec::new(),
            stdin: false,
            remove_empty_lines: false,
            remove_comments: false,
            top_files: 0,
            truncate_base64: false,
            incremental_cache: false,
        }
    }
}

impl Default for GitOptions {
    fn default() -> (r: Self)
        ensures
            git_options_default(r),
    {
        GitOptions {
            include_logs: false,
            logs_count: 10,
            include_diffs: false,
            sort_by_changes: false,
            remote_branch: None,
            sparse_paths: Vec::new(),
        }
    }
}

impl Default for SecurityOptions {
    fn default() -> (r: Self)
        ensures
            !r.security_check && !r.redact_secrets,
    {
        SecurityOptions { security_check: false, redact_secrets: false }
    }
}

impl Default for WatchOptions {
    fn default() -> (r: Self)
        ensures
            !r.enabled,
    {
        WatchOptions { enabled: false }
    }
}

/// Main configuration for the pack command.
#[derive(Debug)]
pub struct PackConfig {
    /// Path to the repository
    pub path: PathBuf,
    /// Output-related options
    pub output: OutputOptions,
    /// Scanning and filtering options
    pub scan: ScanOptions,
    /// Git-related options
    pub git: GitOptions,
    /// Security options
    pub security: SecurityOptions,
    /// Watch mode options
    pub watch: WatchOptions,
    /// Verbose output
    pub verbose: bool,
    /// Configuration file path
    pub config_path: Option<PathBuf>,
    /// Token budget for repository map
    pub map_budget: u32,
}

/// Builder for `PackConfig`: every option starts at its default and the
/// repository path must be given.
#[derive(Debug)]
pub struct PackConfigBuilder {
    pub path: Option<PathBuf>,
    pub output: OutputOptions,
    pub scan: ScanOptions,
    pub git: GitOptions,
    pub security: SecurityOptions,
    pub watch: WatchOptions,
    pub verbose: bool,
    pub config_path: Option<PathBuf>,
    pub map_budget: u32,
}

impl PackConfig {
    /// A new builder with every option at its default and no path.
    pub fn builder() -> (b: PackConfigBuilder)
        ensures
            b.path is None,
            output_options_default(b.output),
            scan_options_default(b.scan),
            git_options_default(b.git),
            !b.security.security_check && !b.security.redact_secrets,
            !b.watch.enabled,
            !b.verbose,
            b.config_path is None,
            b.map_budget == 0,
    {
        PackConfigBuilder {
            path: None,
            output: OutputOptions::default(),
            scan: ScanOptions::default(),
            git: GitOptions::default(),
            security: SecurityOptions::default(),
            watch: WatchOptions::default(),
            verbose: false,
            config_path: None,
            map_budget: 0,
        }
    }
}

/// The message of the error `build` reports when no path was set.
pub open spec fn missing_path_message() -> Seq<char> {
    "Repository path is required"@
}

impl PackConfigBuilder {
    /// Sets the repository path.
    pub fn path(self, path: PathBuf) -> (b: Self)
        ensures
            b == (PackConfigBuilder { path: Some(path), ..self }),
    {
        PackConfigBuilder { path: Some(path), ..self }
    }

    /// Sets the output options.
    pub fn output(self, output: OutputOptions) -> (b: Self)
        ensures
            b == (PackConfigBuilder { output, ..self }),
    {
        PackConfigBuilder { output, ..self }
    }

    /// Sets the scan options.
    pub fn scan(self, scan: ScanOptions) -> (b: Self)
        ensures
            b == (PackConfigBuilder { scan, ..self }),
    {
        PackConfigBuilder { scan, ..self }
    }

    /// Sets the git options.
    pub fn git(self, git: GitOptions) -> (b: Self)
        ensures
            b == (PackConfigBuilder { git, ..self }),
    {
        PackConfigBuilder { git, ..self }
    }

    /// Sets the security options.
    pub fn security(self, security: SecurityOptions) -> (b: Self)
        ensures
            b == (PackConfigBuilder { security, ..self }),
    {
        PackConfigBuilder { security, ..self }
    }

    /// Sets the watch options.
    pub fn watch(self, watch: WatchOptions) -> (b: Self)
        ensures
            b == (PackConfigBuilder { watch, ..self }),
    {
        PackConfigBuilder { watch, ..self }
    }

    /// Sets the verbose flag.
    pub fn verbose(self, verbose: bool) -> (b: Self)
        ensures
            b == (PackConfigBuilder { verbose, ..self }),
    {
        PackConfigBuilder { verbose, ..self }
    }

    /// Sets the config file path.
    pub fn config_path(self, config_path: Option<PathBuf>) -> (b: Self)
        ensures
            b == (PackConfigBuilder { config_path, ..self }),
    {
        PackConfigBuilder { config_path, ..self }
    }

    /// Sets the repository map token budget.
    pub fn map_budget(self, budget: u32) -> (b: Self)
        ensures
            b == (PackConfigBuilder { map_budget: budget, ..self }),
    {
        PackConfigBuilder { map_budget: budget, ..self }
    }

    /// Builds the configuration; fails exactly when no path was set.
    pub fn build(self) -> (r: Result<PackConfig, String>)
        ensures
            self.path is None <==> r is Err,
            r matches Err(e) ==> e@ == missing_path_message(),
            r matches Ok(c) ==> c == (PackConfig {
                path: self.path->0,
                output: self.output,
                scan: self.scan,
                git: self.git,
                security: self.security,
                watch: self.watch,
                verbose: self.verbose,
                config_path: self.config_path,
                map_budget: self.map_budget,
            }),
    {
        match self.path {
            Some(path) => Ok(
                PackConfig {
                    path,
                    output: self.output,
                    scan: self.scan,
                    git: self.git,
                    security: self.security,
                    watch: self.watch,
                    verbose: self.verbose,
                    config_path: self.config_path,
                    map_budget: self.map_budget,
                },
            ),
            None => Err(String::from_str("Repository path is required")),
        }
    }
}

} // verus!

verus! {

pub open spec fn flag_or_false(o: Option<bool>) -> bool {
    match o {
        Some(b) => b,
        None => false,
    }
}

/// Output options completed from a loaded configuration file: a flag the
/// command line left off takes the file's value; a token budget of 0 takes
/// the file's budget; a format, model or compression the command line left
/// open takes the file's (XML, the default model and balanced when the file has none or
/// one that is not recognised). `file_model` and `file_compression` are the
/// file's model and compression names as recognised, if they are.
pub open spec fn merged_output_options(
    o: OutputOptions,
    l: LoadedConfig,
    file_model: Option<TokenizerModel>,
    file_compression: Option<CompressionLevel>,
) -> OutputOptions {
    OutputOptions {
        format: match o.format {
            Some(f) => Some(f),
            None => Some(
                match l.format {
                    Some(name) => format_named(lowercase(name@)),
                    None => OutputFormat::Xml,
                },
            ),
        },
        model: match o.model {
            Some(m) => Some(m),
            None => Some(
                match file_model {
                    Some(m) => m,
                    None => TokenizerModel::Claude,
                },
            ),
        },
        compression: match o.compression {
            Some(k) => Some(k),
            None => Some(
                match file_compression {
                    Some(k) => k,
                    None => CompressionLevel::Balanced,
                },
            ),
        },
        max_tokens: if o.max_tokens == 0 {
            match l.token_budget {
                Some(b) => b,
                None => 0,
            }
        } else {
            o.max_tokens
        },
        show_line_numbers: o.show_line_numbers || flag_or_false(l.line_numbers),
        show_directory_structure: o.show_directory_structure || flag_or_false(
            l.show_directory_structure,
        ),
        show_file_summary: o.show_file_summary || flag_or_false(l.show_file_summary),
        ..o
    }
}

/// Scan options completed from a loaded configuration file: each flag the
/// command line left off takes the file's value.
pub open spec fn merged_scan_options(s: ScanOptions, l: LoadedConfig) -> ScanOptions {
    ScanOptions {
        include_tests: s.include_tests || flag_or_false(l.include_tests),
        include_docs: s.include_docs || flag_or_false(l.include_docs),
        include_hidden: s.include_hidden || flag_or_false(l.include_hidden),
        remove_empty_lines: s.remove_empty_lines || flag_or_false(l.remove_empty_lines),
        remove_comments: s.remove_comments || flag_or_false(l.remove_comments),
        ..s
    }
}

/// A pack configuration completed from a loaded configuration file; see
/// `merged_output_options` and `merged_scan_options` (the security check,
/// too, is on when either asks for it).
pub open spec fn merged_pack_config(
    c: PackConfig,
    l: LoadedConfig,
    file_model: Option<TokenizerModel>,
    file_compression: Option<CompressionLevel>,
) -> PackConfig {
    PackConfig {
        output: merged_output_options(c.output, l, file_model, file_compression),
        scan: merged_scan_options(c.scan, l),
        security: SecurityOptions {
            security_check: c.security.security_check || flag_or_false(l.security_check),
            ..c.security
        },
        ..c
    }
}

fn or_false(o: Option<bool>) -> (r: bool)
    ensures
        r == flag_or_false(o),
{
    match o {
        Some(b) => b,
        None => false,
    }
}

fn merge_output(
    o: OutputOptions,
    loaded: &LoadedConfig,
    file_model: Option<TokenizerModel>,
    file_compression: Option<CompressionLevel>,
) -> (r: OutputOptions)
    ensures
        r == merged_output_options(o, *loaded, file_model, file_compression),
{
    let mut o = o;
    o.show_line_numbers = o.show_line_numbers || or_false(loaded.line_numbers);
    o.show_directory_structure = o.show_directory_structure || or_false(
        loaded.show_directory_structure,
    );
    o.show_file_summary = o.show_file_summary || or_false(loaded.show_file_summary);
    if o.max_tokens == 0 {
        match loaded.token_budget {
            Some(b) => {
                o.max_tokens = b;
            },
            None => {},
        }
    }
    if o.format.is_none() {
        o.format = match &loaded.format {
            Some(name) => Some(parse_output_format(name.as_str())),
            None => Some(OutputFormat::Xml),
        };
    }
    if o.model.is_none() {
        o.model = match file_model {
            Some(m) => Some(m),
            None => Some(TokenizerModel::Claude),
        };
    }
    if o.compression.is_none() {
        o.compression = match file_compression {
            Some(k) => Some(k),
            None => Some(CompressionLevel::Balanced),
        };
    }
    o
}

fn merge_scan(s: ScanOptions, loaded: &LoadedConfig) -> (r: ScanOptions)
    ensures
        r == merged_scan_options(s, *loaded),
{
    let mut s = s;
    s.include_tests = s.include_tests || or_false(loaded.include_tests);
    s.include_docs = s.include_docs || or_false(loaded.include_docs);
    s.include_hidden = s.include_hidden || or_false(loaded.include_hidden);
    s.remove_empty_lines = s.remove_empty_lines || or_false(loaded.remove_empty_lines);
    s.remove_comments = s.remove_comments || or_false(loaded.remove_comments);
    s
}

/// Completes a pack configuration from the loaded configuration file; see
/// `merged_pack_config`.
pub fn merge_with_file_config(
    config: PackConfig,
    loaded: &LoadedConfig,
    file_model: Option<TokenizerModel>,
    file_compression: Option<CompressionLevel>,
) -> (r: PackConfig)
    ensures
        r == merged_pack_config(config, *loaded, file_model, file_compression),
{
    let PackConfig { path, output, scan, git, security, watch, verbose, config_path, map_budget } =
        config;
    let check = security.security_check || or_false(loaded.security_check);
    PackConfig {
        path,
        output: merge_output(output, loaded, file_model, file_compression),
        scan: merge_scan(scan, loaded),
        git,
        security: SecurityOptions { security_check: check, ..security },
        watch,
        verbose,
        config_path,
        map_budget,
    }
}

/// The command line wins over a configuration file: a format, model,
/// compression or token budget it gives is kept, and a flag it sets stays
/// set; and after merging, format, model and compression are all chosen.
pub proof fn law_command_line_wins(
    c: PackConfig,
    l: LoadedConfig,
    file_model: Option<TokenizerModel>,
    file_compression: Option<CompressionLevel>,
)
    ensures
        ({
            let m = merged_pack_config(c, l, file_model, file_compression);
            &&& c.output.format is Some ==> m.output.format == c.output.format
            &&& c.output.model is Some ==> m.output.model == c.output.model
            &&& c.output.compression is Some ==> m.output.compression == c.output.compression
            &&& c.output.max_tokens != 0 ==> m.output.max_tokens == c.output.max_tokens
            &&& c.output.show_line_numbers ==> m.output.show_line_numbers
            &&& c.scan.include_tests ==> m.scan.include_tests
            &&& c.security.security_check ==> m.security.security_check
            &&& m.output.format is Some && m.output.model is Some && m.output.compression is Some
        }),
{
}

/// The pack switches that follow from the command line's negative and
/// combined flags.
#[derive(Clone, Copy, Debug, PartialEq, Eq, Structural)]
pub struct PackSwitches {
    pub respect_gitignore: bool,
    pub symbols: bool,
    pub full: bool,
    pub use_default_ignores: bool,
    pub directory_structure: bool,
    pub file_summary: bool,
    pub line_numbers: bool,
}

/// Derives the pack switches from the flags: symbols are extracted with
/// `--symbols` or `--full` unless `--no-symbols`; full mode needs `--full`
/// without `--no-symbols`; line numbers are on when asked for or not turned
/// off; the other switches are the negations of their `--no-...` flags.
pub fn pack_switches(
    no_gitignore: bool,
    symbols: bool,
    full: bool,
    no_symbols: bool,
    no_default_ignores: bool,
    no_directory_structure: bool,
    no_file_summary: bool,
    line_numbers: bool,
    no_line_numbers: bool,
) -> (r: PackSwitches)
    ensures
        r == (PackSwitches {
            respect_gitignore: !no_gitignore,
            symbols: (symbols || full) && !no_symbols,
            full: full && !no_symbols,
            use_default_ignores: !no_default_ignores,
            directory_structure: !no_directory_structure,
            file_summary: !no_file_summary,
            line_numbers: line_numbers || !no_line_numbers,
        }),
{
    PackSwitches {
        respect_gitignore: !no_gitignore,
        symbols: (symbols || full) && !no_symbols,
        full: full && !no_symbols,
        use_default_ignores: !no_default_ignores,
        directory_structure: !no_directory_structure,
        file_summary: !no_file_summary,
        line_numbers: line_numbers || !no_line_numbers,
    }
}

} // verus!
