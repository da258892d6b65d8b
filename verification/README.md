# infiniloom_cli

The command-line side of infiniloom, a tool that turns a repository into
context for language models, with its logic written and proved in Verus.

## Layout

- `src/` — the verified library. Each module states its behaviour as
  `requires` / `ensures` over spec functions and proves it:
  - `text`, `escape` — character sequences, lines, decimals, XML escaping;
  - `compression`, `content_pipeline`, `symbol_compression`, `truncation` —
    what packing does to a file's content (empty lines, comments, signatures,
    key symbols, base64 runs, token-limit cut-offs);
  - `filters`, `ranking` — which files are packed, and in which order;
  - `config`, `options`, `models`, `init` — configuration files, command-line
    options and how the two are merged;
  - `git_output`, `snippets`, `snippet_selection`, `diff_budget`,
    `diff_output` — the `diff` command: git's output parsed, snippets cut and
    merged, a token budget applied, and the context rendered as XML,
    Markdown, YAML, TOON or plain text;
  - `pack_extras`, `pack_watch`, `repo_metadata`, `repo_map` — the `pack`
    and `map` commands' sections, totals and watch-mode decisions;
  - `chunks`, `embed_diff`, `impact_text`, `index`, `errors` — chunking,
    incremental embedding, impact listings, index freshness, and the error
    type with its exit codes.
- `tests/` — tests of the library, run against the real outside crates.
- `app/` — the program around the library: argument parsing with clap,
  reading configuration files with serde, and terminal output. The
  repository engine (scanner, tokenizer, parsers, output formatters) is a
  separate crate that this build does not link; the commands that need it
  say so.

## Laws

Besides each function's contract, the library proves properties that span
calls, as public proof functions named `law_*`: merged snippet ranges cover
exactly the lines of the ranges given; ranked files are sorted and none is
lost; chunks ordered by priority are sorted and renumbered; a token budget
keeps the context's tokens within it; the incremental diff sorts every chunk
into exactly one class; the directory listing is sorted; the command line
wins over a configuration file, which only fills gaps; watch mode debounces
rebuilds; the error classes are consistent.
