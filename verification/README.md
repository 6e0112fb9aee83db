# rustquty_core

The core of a local-first quality scanner for Rust workspaces, written in
Verus.  The library's functions carry contracts that Verus proves, except
for a few small trusted wrappers around outside calls (`serde_json`,
`syn`, `proc-macro2`, the system clock, `str::chars`, `PathBuf::from`),
whose contracts are stated, not proved.

A scan runs twelve collectors (fmt, clippy, tests, coverage, deny, audit,
hack, mutants, duplicates, loc, size, complexity), assembles what they
report into a metrics summary, and compares that summary against a baseline
of thresholds. The verdict passes when no metric regressed.

## Layout

- `src/` — the verified library.
  - `schema.rs`, `config.rs`, `context.rs` — the records a scan reads and
    writes, the configuration file's contents, the profile and the disabled
    collectors.
  - `collector/source.rs` — the tokens and the functions of a Rust text,
    lexed with `proc-macro2` and parsed with `syn`.
  - `collector/` — what each collector makes of its tool's output or of the
    workspace's source: line counts, file and function sizes, cyclomatic
    complexity and nesting, token-window duplicate detection; and the
    assembly of all reports into a summary.
  - `gate.rs` — the verdict, stated over the metrics as twelve checks.
  - `baseline.rs` — the thresholds a summary sets, and their changes.
  - `cli.rs`, `collectors.rs`, `display.rs` — which collectors a scan runs,
    which edition a workspace declares, and the lines the tool prints.
  - `json.rs`, `number.rs`, `text.rs`, `util.rs` — JSON values (read from
    text through `serde_json`), JSON number texts read as decimals to six
    places, character-level text and ISO-8601 timestamps.
- `tests/` — tests of the library on concrete values.
- `app/` — the command-line tool: argument handling, running the external
  tools, walking and reading the workspace, the expression trees of
  function bodies (built with an impl of `syn`'s `Visit` trait), and the
  JSON and TOML files.

## Laws

Besides each function's contract, the library proves laws that span
functions, among them: every check of the verdict is counted exactly once;
every report passes exactly when it lists no violation, each violation
has a message and the stamp is `YYYY-MM-DDTHH:MM:SSZ`;
a summary passes the baseline it sets; the verdict fails exactly when
some metric is past its threshold; a passing summary keeps passing when
no metric gets worse; the summary keeps what each collector reported;
duplicate lines never outnumber the lines read; listed duplicate blocks
occur twice, span enough lines, are capped and come in order; every size
or complexity violation breaks a limit the configuration sets; the long
lines are exactly those over the limit, listed up to a cap; merged duplicate intervals
neither overlap nor touch; the profiles nest; a collector's name parses back
to that collector.
