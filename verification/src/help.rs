//! The help texts of the command line.
use vstd::prelude::*;
use crate::args::Sub;

verus! {

/// The general help.
pub const LONG_HELP: &'static str = "Build, profile, and compare paper-muncher revisions.\n\nBy default, each run builds the current checkout with `./ck package --release`, then executes Hyperfine, perf, and heaptrack sequentially. Results are stored under the current repository's `.bench/` directory.\n\nUsage: paper-bencher <COMMAND>\n\nCommands:\n  run                   Generate a ledger and collect hyperfine, perf, and heaptrack profiles\n  compare               Compare two completed benchmark runs\n  compare-refs          Build and compare two Git branches, tags, commits, or other refs\n  compare-working-tree  Compare a clean Git ref with the current staged/unstaged working tree\n  help                  Print this message or the help of the given subcommand(s)\n\nOptions:\n  -h, --help\n          Print help (see a summary with '-h')\n\n  -V, --version\n          Print version\n\nCOMMAND GUIDE:
  run <LABEL>                         Benchmark the current checkout or --binary.
  compare <BEFORE> <AFTER>            Compare two runs already stored in .bench/.
  compare-refs <REF1> <REF2>           Build and compare two branches/tags/commits.
  compare-working-tree [BASE_REF]      Compare a clean ref with local changes.

BENCHMARK OPTIONS:
  -s, --ledger-size <N>                Number of ledger entries to generate.
                                        Default: 2000. Must be a multiple of 100.
  -r, --runs <N>                       Number of measured Hyperfine executions.
                                        Default: 5. Higher values improve confidence.
  -w, --warmup <N>                     Hyperfine executions discarded before measuring.
                                        Default: 1. Use 0 for a quick smoke test.
      --perf-frequency <HZ>            Sampling frequency used by `perf record`.
                                        Default: 997 samples/second.
      --perf-call-graph <MODE>         perf stack-unwinding mode: dwarf, fp, or lbr.
                                        Default: dwarf.
      --only <TOOLS>                   Run only selected tools. Comma-separated values:
                                        hyperfine, perf, heaptrack.
      --skip <TOOLS>                   Run all tools except the listed values.
                                        Cannot be combined with --only.
      --externs <MODE>                 Git comparisons only: dependency source.
                                        local (default) snapshots .cutekit/externs;
                                        fresh lets ck fetch refs from project.json.
  -b, --binary <PATH>                  `run` only: skip `ck package` and test PATH.
  -f, --force                          Replace an existing run/artifact label.

QUICK START:
  paper-bencher run before -s 2000 -w 1 -r 5
  # rebuild after making a change
  paper-bencher run after -s 2000 -w 1 -r 5
  paper-bencher compare before after

DIRECT GIT COMPARISONS:
  paper-bencher compare-refs main feature-branch --only hyperfine
  paper-bencher compare-refs v1.0.0 v1.1.0 -s 5000 --skip heaptrack
  paper-bencher compare-working-tree HEAD -r 10

COMMON RECIPES:
  # Fast smoke test: one timed execution, no warmup or profilers
  paper-bencher run smoke -s 100 -r 1 -w 0 --only hyperfine

  # CPU profiling only
  paper-bencher run cpu --only perf --perf-frequency 499

  # Benchmark an existing/custom executable without building
  paper-bencher run custom -b /path/to/paper-muncher --only hyperfine

OUTPUT:
  Runs:        .bench/<label>/
  Comparisons: .bench/compare-<before>-<after>/
  Includes metadata, logs, raw profiler data, summary.txt, and summary.md.

REQUIREMENTS:
  Always: git and python3.
  Default build: the checkout's ./ck and its build dependencies.
  Profilers: only the enabled commands among hyperfine, perf, heaptrack, and
  heaptrack_print need to be installed.

Options belong after the command, for example `paper-bencher run before -s 500`.
Use `paper-bencher <COMMAND> --help` for command-specific arguments and examples.\n";

/// The help of `run`.
pub const RUN_HELP: &'static str = "Generate a ledger and collect hyperfine, perf, and heaptrack profiles\n\nUsage: paper-bencher run [OPTIONS] <LABEL>\n\nArguments:\n  <LABEL>\n          Short artifact label, for example `before`, `after`, or a branch name\n\nOptions:\n  -s, --ledger-size <LEDGER_SIZE>\n          Number of ledger entries to generate (must be a multiple of 100)\n\n          [default: 2000]\n\n  -r, --runs <RUNS>\n          Number of timed Hyperfine executions included in the result\n\n          [default: 5]\n\n  -w, --warmup <WARMUP>\n          Number of untimed Hyperfine executions before measurement\n\n          [default: 1]\n\n      --perf-frequency <PERF_FREQUENCY>\n          perf record samples per second; only used when perf is enabled\n\n          [default: 997]\n\n      --perf-call-graph <PERF_CALL_GRAPH>\n          perf stack-unwinding mode: dwarf, fp (frame pointer), or lbr\n\n          [default: dwarf]\n          [possible values: dwarf, fp, lbr]\n\n      --only <ONLY>\n          Run only these tools: hyperfine, perf, and/or heaptrack\n\n          [possible values: hyperfine, perf, heaptrack]\n\n      --skip <SKIP>\n          Skip these tools; cannot be combined with --only\n\n          [possible values: hyperfine, perf, heaptrack]\n\n  -b, --binary <BINARY>\n          Skip `ck package` and benchmark this executable instead\n\n  -f, --force\n          Replace an existing run with the same label after the new run succeeds\n\n  -h, --help\n          Print help (see a summary with '-h')\n\nEXAMPLES:\n  # Build and run all profilers\n  paper-bencher run before\n\n  # Timing only, with custom sample counts\n  paper-bencher run timing -s 2000 -w 2 -r 10 --only hyperfine\n\n  # Skip heap profiling\n  paper-bencher run cpu-and-time --skip heaptrack\n\n  # Use an existing binary instead of running ck package\n  paper-bencher run custom -b /path/to/paper-muncher\n\nEnabled profilers fail the run on error. Partial artifacts remain in a staging directory for diagnosis. Existing labeled runs require --force to replace.\n";

/// The help of `compare`.
pub const COMPARE_HELP: &'static str = "Compare two completed benchmark runs\n\nUsage: paper-bencher compare <BEFORE> <AFTER>\n\nArguments:\n  <BEFORE>\n          Baseline run label\n\n  <AFTER>\n          Candidate run label\n\nOptions:\n  -h, --help\n          Print help (see a summary with '-h')\n\nEXAMPLE:\n  paper-bencher compare main feature\n\nBoth runs must have matching ledger size and matching enabled-profiler settings.\n";

/// The help of `compare-refs`.
pub const COMPARE_REFS_HELP: &'static str = "Build and compare two Git branches, tags, commits, or other refs\n\nUsage: paper-bencher compare-refs [OPTIONS] <BEFORE_REF> <AFTER_REF>\n\nArguments:\n  <BEFORE_REF>\n          Baseline branch, tag, commit, or Git revision\n\n  <AFTER_REF>\n          Candidate branch, tag, commit, or Git revision\n\nOptions:\n  -s, --ledger-size <LEDGER_SIZE>\n          Number of ledger entries to generate (must be a multiple of 100)\n\n          [default: 2000]\n\n  -r, --runs <RUNS>\n          Number of timed Hyperfine executions included in each result\n\n          [default: 5]\n\n  -w, --warmup <WARMUP>\n          Number of untimed Hyperfine executions before each measurement\n\n          [default: 1]\n\n      --perf-frequency <PERF_FREQUENCY>\n          perf record samples per second; only used when perf is enabled\n\n          [default: 997]\n\n      --perf-call-graph <PERF_CALL_GRAPH>\n          perf stack-unwinding mode: dwarf, fp (frame pointer), or lbr\n\n          [default: dwarf]\n          [possible values: dwarf, fp, lbr]\n\n      --only <ONLY>\n          Run only these tools: hyperfine, perf, and/or heaptrack\n\n          [possible values: hyperfine, perf, heaptrack]\n\n      --skip <SKIP>\n          Skip these tools; cannot be combined with --only\n\n          [possible values: hyperfine, perf, heaptrack]\n\n      --externs <EXTERNS>\n          Dependency source: snapshot local externs, or let ck fetch fresh ones\n\n          Possible values:\n          - local: Copy the current checkout's .cutekit/externs into temporary worktrees\n          - fresh: Let ck fetch dependencies declared by each ref's project.json\n\n          [default: local]\n\n  -f, --force\n          Replace existing generated run labels after new runs succeed\n\n  -h, --help\n          Print help (see a summary with '-h')\n\nEXAMPLES:\n  paper-bencher compare-refs main feature/remove-flags -s 2000 -r 5\n  paper-bencher compare-refs v1.0.0 v1.1.0 --externs fresh\n\nBoth refs are checked out in temporary detached worktrees. By default, the current checkout's .cutekit/externs is copied to both worktrees so coupled Karm changes stay fixed and comparable. Use --externs fresh to resolve each ref's project.json instead. The current checkout is not switched or modified.\n";

/// The help of `compare-working-tree`.
pub const COMPARE_WORKING_TREE_HELP: &'static str = "Compare a clean Git ref with the current staged/unstaged working tree\n\nUsage: paper-bencher compare-working-tree [OPTIONS] [BASE_REF]\n\nArguments:\n  [BASE_REF]\n          Clean baseline revision (defaults to HEAD)\n\n          [default: HEAD]\n\nOptions:\n  -s, --ledger-size <LEDGER_SIZE>\n          Number of ledger entries to generate (must be a multiple of 100)\n\n          [default: 2000]\n\n  -r, --runs <RUNS>\n          Number of timed Hyperfine executions included in each result\n\n          [default: 5]\n\n  -w, --warmup <WARMUP>\n          Number of untimed Hyperfine executions before each measurement\n\n          [default: 1]\n\n      --perf-frequency <PERF_FREQUENCY>\n          perf record samples per second; only used when perf is enabled\n\n          [default: 997]\n\n      --perf-call-graph <PERF_CALL_GRAPH>\n          perf stack-unwinding mode: dwarf, fp (frame pointer), or lbr\n\n          [default: dwarf]\n          [possible values: dwarf, fp, lbr]\n\n      --only <ONLY>\n          Run only these tools: hyperfine, perf, and/or heaptrack\n\n          [possible values: hyperfine, perf, heaptrack]\n\n      --skip <SKIP>\n          Skip these tools; cannot be combined with --only\n\n          [possible values: hyperfine, perf, heaptrack]\n\n      --externs <EXTERNS>\n          Dependency source: snapshot local externs, or let ck fetch fresh ones\n\n          Possible values:\n          - local: Copy the current checkout's .cutekit/externs into temporary worktrees\n          - fresh: Let ck fetch dependencies declared by each ref's project.json\n\n          [default: local]\n\n  -f, --force\n          Replace existing generated run labels after new runs succeed\n\n  -h, --help\n          Print help (see a summary with '-h')\n\nEXAMPLES:\n  paper-bencher compare-working-tree HEAD --only hyperfine -r 10\n  paper-bencher compare-working-tree main --externs fresh\n\nThe baseline ref is built in a temporary detached worktree. The candidate is built from the current checkout, including staged and unstaged tracked changes. By default, local .cutekit/externs is snapshotted into the clean worktree, so both builds use the Karm state you selected manually.\n";

/// The general help in brief, as `-h` shows it.
pub const SHORT_HELP: &'static str = "Build, profile, and compare paper-muncher revisions\n\nUsage: paper-bencher <COMMAND>\n\nCommands:\n  run                   Generate a ledger and collect hyperfine, perf, and heaptrack profiles\n  compare               Compare two completed benchmark runs\n  compare-refs          Build and compare two Git branches, tags, commits, or other refs\n  compare-working-tree  Compare a clean Git ref with the current staged/unstaged working tree\n  help                  Print this message or the help of the given subcommand(s)\n\nOptions:\n  -h, --help     Print help (see more with '--help')\n  -V, --version  Print version\n";

/// The help of `run` in brief.
pub const RUN_SHORT_HELP: &'static str = "Generate a ledger and collect hyperfine, perf, and heaptrack profiles\n\nUsage: paper-bencher run [OPTIONS] <LABEL>\n\nArguments:\n  <LABEL>  Short artifact label, for example `before`, `after`, or a branch name\n\nOptions:\n  -s, --ledger-size <LEDGER_SIZE>\n          Number of ledger entries to generate (must be a multiple of 100) [default: 2000]\n  -r, --runs <RUNS>\n          Number of timed Hyperfine executions included in the result [default: 5]\n  -w, --warmup <WARMUP>\n          Number of untimed Hyperfine executions before measurement [default: 1]\n      --perf-frequency <PERF_FREQUENCY>\n          perf record samples per second; only used when perf is enabled [default: 997]\n      --perf-call-graph <PERF_CALL_GRAPH>\n          perf stack-unwinding mode: dwarf, fp (frame pointer), or lbr [default: dwarf] [possible\n          values: dwarf, fp, lbr]\n      --only <ONLY>\n          Run only these tools: hyperfine, perf, and/or heaptrack [possible values: hyperfine, perf,\n          heaptrack]\n      --skip <SKIP>\n          Skip these tools; cannot be combined with --only [possible values: hyperfine, perf,\n          heaptrack]\n  -b, --binary <BINARY>\n          Skip `ck package` and benchmark this executable instead\n  -f, --force\n          Replace an existing run with the same label after the new run succeeds\n  -h, --help\n          Print help (see more with '--help')\n";

/// The help of `compare` in brief.
pub const COMPARE_SHORT_HELP: &'static str = "Compare two completed benchmark runs\n\nUsage: paper-bencher compare <BEFORE> <AFTER>\n\nArguments:\n  <BEFORE>  Baseline run label\n  <AFTER>   Candidate run label\n\nOptions:\n  -h, --help  Print help (see more with '--help')\n";

/// The help of `compare-refs` in brief.
pub const COMPARE_REFS_SHORT_HELP: &'static str = "Build and compare two Git branches, tags, commits, or other refs\n\nUsage: paper-bencher compare-refs [OPTIONS] <BEFORE_REF> <AFTER_REF>\n\nArguments:\n  <BEFORE_REF>  Baseline branch, tag, commit, or Git revision\n  <AFTER_REF>   Candidate branch, tag, commit, or Git revision\n\nOptions:\n  -s, --ledger-size <LEDGER_SIZE>\n          Number of ledger entries to generate (must be a multiple of 100) [default: 2000]\n  -r, --runs <RUNS>\n          Number of timed Hyperfine executions included in each result [default: 5]\n  -w, --warmup <WARMUP>\n          Number of untimed Hyperfine executions before each measurement [default: 1]\n      --perf-frequency <PERF_FREQUENCY>\n          perf record samples per second; only used when perf is enabled [default: 997]\n      --perf-call-graph <PERF_CALL_GRAPH>\n          perf stack-unwinding mode: dwarf, fp (frame pointer), or lbr [default: dwarf] [possible\n          values: dwarf, fp, lbr]\n      --only <ONLY>\n          Run only these tools: hyperfine, perf, and/or heaptrack [possible values: hyperfine, perf,\n          heaptrack]\n      --skip <SKIP>\n          Skip these tools; cannot be combined with --only [possible values: hyperfine, perf,\n          heaptrack]\n      --externs <EXTERNS>\n          Dependency source: snapshot local externs, or let ck fetch fresh ones [default: local]\n          [possible values: local, fresh]\n  -f, --force\n          Replace existing generated run labels after new runs succeed\n  -h, --help\n          Print help (see more with '--help')\n";

/// The help of `compare-working-tree` in brief.
pub const COMPARE_WORKING_TREE_SHORT_HELP: &'static str = "Compare a clean Git ref with the current staged/unstaged working tree\n\nUsage: paper-bencher compare-working-tree [OPTIONS] [BASE_REF]\n\nArguments:\n  [BASE_REF]  Clean baseline revision (defaults to HEAD) [default: HEAD]\n\nOptions:\n  -s, --ledger-size <LEDGER_SIZE>\n          Number of ledger entries to generate (must be a multiple of 100) [default: 2000]\n  -r, --runs <RUNS>\n          Number of timed Hyperfine executions included in each result [default: 5]\n  -w, --warmup <WARMUP>\n          Number of untimed Hyperfine executions before each measurement [default: 1]\n      --perf-frequency <PERF_FREQUENCY>\n          perf record samples per second; only used when perf is enabled [default: 997]\n      --perf-call-graph <PERF_CALL_GRAPH>\n          perf stack-unwinding mode: dwarf, fp (frame pointer), or lbr [default: dwarf] [possible\n          values: dwarf, fp, lbr]\n      --only <ONLY>\n          Run only these tools: hyperfine, perf, and/or heaptrack [possible values: hyperfine, perf,\n          heaptrack]\n      --skip <SKIP>\n          Skip these tools; cannot be combined with --only [possible values: hyperfine, perf,\n          heaptrack]\n      --externs <EXTERNS>\n          Dependency source: snapshot local externs, or let ck fetch fresh ones [default: local]\n          [possible values: local, fresh]\n  -f, --force\n          Replace existing generated run labels after new runs succeed\n  -h, --help\n          Print help (see more with '--help')\n";

/// The help of a subcommand, or the general help.
pub open spec fn help_text(sub: Option<Sub>) -> Seq<char> {
    match sub {
        None => LONG_HELP@,
        Some(Sub::Run) => RUN_HELP@,
        Some(Sub::Compare) => COMPARE_HELP@,
        Some(Sub::CompareRefs) => COMPARE_REFS_HELP@,
        Some(Sub::CompareWorkingTree) => COMPARE_WORKING_TREE_HELP@,
    }
}

/// The full help that `--help` (or `help`) shows for a subcommand, or the general help.
pub fn render_help(sub: Option<Sub>) -> (s: String)
    ensures
        s@ == help_text(sub),
{
    match sub {
        None => LONG_HELP.to_owned(),
        Some(Sub::Run) => RUN_HELP.to_owned(),
        Some(Sub::Compare) => COMPARE_HELP.to_owned(),
        Some(Sub::CompareRefs) => COMPARE_REFS_HELP.to_owned(),
        Some(Sub::CompareWorkingTree) => COMPARE_WORKING_TREE_HELP.to_owned(),
    }
}

/// The general help, with the guide to all subcommands and options.
pub fn render_long_help() -> (s: String)
    ensures
        s@ == LONG_HELP@,
{
    render_help(None)
}

/// The brief help of a subcommand, or the brief general help.
pub open spec fn short_help_text(sub: Option<Sub>) -> Seq<char> {
    match sub {
        None => SHORT_HELP@,
        Some(Sub::Run) => RUN_SHORT_HELP@,
        Some(Sub::Compare) => COMPARE_SHORT_HELP@,
        Some(Sub::CompareRefs) => COMPARE_REFS_SHORT_HELP@,
        Some(Sub::CompareWorkingTree) => COMPARE_WORKING_TREE_SHORT_HELP@,
    }
}

/// The brief help that `-h` shows for a subcommand, or the brief general help.
pub fn render_short_help(sub: Option<Sub>) -> (s: String)
    ensures
        s@ == short_help_text(sub),
{
    match sub {
        None => SHORT_HELP.to_owned(),
        Some(Sub::Run) => RUN_SHORT_HELP.to_owned(),
        Some(Sub::Compare) => COMPARE_SHORT_HELP.to_owned(),
        Some(Sub::CompareRefs) => COMPARE_REFS_SHORT_HELP.to_owned(),
        Some(Sub::CompareWorkingTree) => COMPARE_WORKING_TREE_SHORT_HELP.to_owned(),
    }
}

} // verus!
