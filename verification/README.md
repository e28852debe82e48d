# paper-bencher

A small, sequential benchmark runner for comparing two `paper-muncher`
versions: it builds a checkout (or takes a given binary), generates a ledger,
runs Hyperfine, perf and heaptrack, stores each run under `.bench/<label>/`,
and writes comparison reports to `.bench/compare-<before>-<after>/`.

## Layout

- `src/` is the library, verified with Verus. It holds the command-line
  grammar (`args`, `cli`, `help`), the rules of a run (`runner`: labels,
  profiler selection, the ordered steps of collecting a run, its metadata,
  how a finished run replaces an old one), of a comparison (`compare`: which
  runs may be compared, reading heaptrack summaries, the text and Markdown
  reports), of Git comparisons (`refs`: generated labels, worktrees, the
  ordered steps and their cleanup), and the string, number and path
  operations these rest on (`text`, `number`, `path`, `process`).
- `app/` is the executable around it: argument reading, running processes,
  files, JSON, and the floating-point figures of the reports.
- `tests/` exercises the library on concrete values.

## Generator files

`run` writes the ledger generator `general-ledger.py` and its stylesheet
`general-ledger.css` into each run. The executable reads them from the
directory named by `PAPER_BENCHER_ASSETS`, or else from `assets/` beside the
executable.
