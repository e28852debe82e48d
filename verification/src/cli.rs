//! The command-line interface: subcommands, their arguments, and the value
//! names that options accept.
use vstd::prelude::*;

verus! {

/// perf stack-unwinding mode.
#[derive(Clone, Copy, Debug, PartialEq, Eq, Structural)]
pub enum PerfCallGraph {
    Dwarf,
    Fp,
    Lbr,
}

/// A profiler that a run can enable.
///
/// The declaration order (`Hyperfine`, `Perf`, `Heaptrack`) is the order in
/// which enabled profilers are listed and run.
#[derive(Clone, Copy, Debug, PartialEq, Eq, PartialOrd, Ord, Hash, Structural)]
pub enum BenchTool {
    Hyperfine,
    Perf,
    Heaptrack,
}

/// Where Git comparisons take their dependencies from.
#[derive(Clone, Copy, Debug, PartialEq, Eq, Structural)]
pub enum ExternsMode {
    /// Copy the current checkout's .cutekit/externs into temporary worktrees.
    Local,
    /// Let ck fetch dependencies declared by each ref's project.json.
    Fresh,
}

/// The name of a profiler, as the command line and the metadata spell it.
pub open spec fn tool_name(tool: BenchTool) -> Seq<char> {
    match tool {
        BenchTool::Hyperfine => "hyperfine"@,
        BenchTool::Perf => "perf"@,
        BenchTool::Heaptrack => "heaptrack"@,
    }
}

/// The name of a call-graph mode, as perf and the command line spell it.
pub open spec fn call_graph_name(mode: PerfCallGraph) -> Seq<char> {
    match mode {
        PerfCallGraph::Dwarf => "dwarf"@,
        PerfCallGraph::Fp => "fp"@,
        PerfCallGraph::Lbr => "lbr"@,
    }
}

/// The name of an externs mode on the command line.
pub open spec fn externs_name(mode: ExternsMode) -> Seq<char> {
    match mode {
        ExternsMode::Local => "local"@,
        ExternsMode::Fresh => "fresh"@,
    }
}

/// All profilers, in their canonical order.
pub open spec fn all_tools() -> Seq<BenchTool> {
    seq![BenchTool::Hyperfine, BenchTool::Perf, BenchTool::Heaptrack]
}

impl BenchTool {
    /// The profiler's name.
    pub fn as_str(self) -> (s: &'static str)
        ensures
            s@ == tool_name(self),
    {
        match self {
            BenchTool::Hyperfine => "hyperfine",
            BenchTool::Perf => "perf",
            BenchTool::Heaptrack => "heaptrack",
        }
    }
}

impl PerfCallGraph {
    /// The mode's name, as passed to `perf record --call-graph`.
    pub fn as_str(self) -> (s: &'static str)
        ensures
            s@ == call_graph_name(self),
    {
        match self {
            PerfCallGraph::Dwarf => "dwarf",
            PerfCallGraph::Fp => "fp",
            PerfCallGraph::Lbr => "lbr",
        }
    }
}

/// Arguments of `run`: benchmark the current checkout or a given binary.
#[derive(Clone, Debug)]
pub struct RunArgs {
    /// Short artifact label, for example `before`, `after`, or a branch name.
    pub label: String,
    /// Number of ledger entries to generate (must be a multiple of 100).
    pub ledger_size: u64,
    /// Number of timed Hyperfine executions included in the result.
    pub runs: u64,
    /// Number of untimed Hyperfine executions before measurement.
    pub warmup: u64,
    /// perf record samples per second; only used when perf is enabled.
    pub perf_frequency: u64,
    /// perf stack-unwinding mode.
    pub perf_call_graph: PerfCallGraph,
    /// Run only these tools.
    pub only: Vec<BenchTool>,
    /// Skip these tools.
    pub skip: Vec<BenchTool>,
    /// Skip `ck package` and benchmark this executable instead.
    pub binary: Option<String>,
    /// Replace an existing run with the same label after the new run succeeds.
    pub force: bool,
}

/// Arguments of `compare`: two completed runs.
#[derive(Clone, Debug)]
pub struct CompareArgs {
    /// Baseline run label.
    pub before: String,
    /// Candidate run label.
    pub after: String,
}

/// Benchmark settings shared by the Git comparisons.
#[derive(Clone, Debug)]
pub struct RefOptions {
    pub ledger_size: u64,
    pub runs: u64,
    pub warmup: u64,
    pub perf_frequency: u64,
    pub perf_call_graph: PerfCallGraph,
    pub only: Vec<BenchTool>,
    pub skip: Vec<BenchTool>,
    /// Dependency source: snapshot local externs, or let ck fetch fresh ones.
    pub externs: ExternsMode,
    /// Replace existing generated run labels after new runs succeed.
    pub force: bool,
}

/// Arguments of `compare-refs`: two Git revisions.
#[derive(Clone, Debug)]
pub struct CompareRefsArgs {
    /// Baseline branch, tag, commit, or Git revision.
    pub before_ref: String,
    /// Candidate branch, tag, commit, or Git revision.
    pub after_ref: String,
    pub options: RefOptions,
}

/// Arguments of `compare-working-tree`: a clean revision against local changes.
#[derive(Clone, Debug)]
pub struct CompareWorkingTreeArgs {
    /// Clean baseline revision (`HEAD` when not given).
    pub base_ref: String,
    pub options: RefOptions,
}

/// A subcommand with its arguments.
#[derive(Clone, Debug)]
pub enum Command {
    /// Generate a ledger and collect hyperfine, perf, and heaptrack profiles.
    Run(RunArgs),
    /// Compare two completed benchmark runs.
    Compare(CompareArgs),
    /// Build and compare two Git branches, tags, commits, or other refs.
    CompareRefs(CompareRefsArgs),
    /// Compare a clean Git ref with the current staged/unstaged working tree.
    CompareWorkingTree(CompareWorkingTreeArgs),
}

/// A parsed command line.
#[derive(Clone, Debug)]
pub struct Cli {
    pub command: Command,
}

/// The text of an optional string.
pub open spec fn opt_view(s: Option<String>) -> Option<Seq<char>> {
    match s {
        Some(t) => Some(t@),
        None => None,
    }
}

/// [`RunArgs`] with its strings as character sequences.
#[verifier::ext_equal]
pub struct RunArgsView {
    pub label: Seq<char>,
    pub ledger_size: u64,
    pub runs: u64,
    pub warmup: u64,
    pub perf_frequency: u64,
    pub perf_call_graph: PerfCallGraph,
    pub only: Seq<BenchTool>,
    pub skip: Seq<BenchTool>,
    pub binary: Option<Seq<char>>,
    pub force: bool,
}

impl View for RunArgs {
    type V = RunArgsView;

    open spec fn view(&self) -> RunArgsView {
        RunArgsView {
            label: self.label@,
            ledger_size: self.ledger_size,
            runs: self.runs,
            warmup: self.warmup,
            perf_frequency: self.perf_frequency,
            perf_call_graph: self.perf_call_graph,
            only: self.only@,
            skip: self.skip@,
            binary: opt_view(self.binary),
            force: self.force,
        }
    }
}

/// [`CompareArgs`] with its strings as character sequences.
#[verifier::ext_equal]
pub struct CompareArgsView {
    pub before: Seq<char>,
    pub after: Seq<char>,
}

impl View for CompareArgs {
    type V = CompareArgsView;

    open spec fn view(&self) -> CompareArgsView {
        CompareArgsView { before: self.before@, after: self.after@ }
    }
}

/// [`RefOptions`] with its lists as sequences.
#[verifier::ext_equal]
pub struct RefOptionsView {
    pub ledger_size: u64,
    pub runs: u64,
    pub warmup: u64,
    pub perf_frequency: u64,
    pub perf_call_graph: PerfCallGraph,
    pub only: Seq<BenchTool>,
    pub skip: Seq<BenchTool>,
    pub externs: ExternsMode,
    pub force: bool,
}

impl View for RefOptions {
    type V = RefOptionsView;

    open spec fn view(&self) -> RefOptionsView {
        RefOptionsView {
            ledger_size: self.ledger_size,
            runs: self.runs,
            warmup: self.warmup,
            perf_frequency: self.perf_frequency,
            perf_call_graph: self.perf_call_graph,
            only: self.only@,
            skip: self.skip@,
            externs: self.externs,
            force: self.force,
        }
    }
}

/// [`CompareRefsArgs`] with its strings as character sequences.
#[verifier::ext_equal]
pub struct CompareRefsArgsView {
    pub before_ref: Seq<char>,
    pub after_ref: Seq<char>,
    pub options: RefOptionsView,
}

impl View for CompareRefsArgs {
    type V = CompareRefsArgsView;

    open spec fn view(&self) -> CompareRefsArgsView {
        CompareRefsArgsView {
            before_ref: self.before_ref@,
            after_ref: self.after_ref@,
            options: self.options@,
        }
    }
}

/// [`CompareWorkingTreeArgs`] with its strings as character sequences.
#[verifier::ext_equal]
pub struct CompareWorkingTreeArgsView {
    pub base_ref: Seq<char>,
    pub options: RefOptionsView,
}

impl View for CompareWorkingTreeArgs {
    type V = CompareWorkingTreeArgsView;

    open spec fn view(&self) -> CompareWorkingTreeArgsView {
        CompareWorkingTreeArgsView { base_ref: self.base_ref@, options: self.options@ }
    }
}

/// [`Command`] with its strings as character sequences.
#[verifier::ext_equal]
pub enum CommandView {
    Run(RunArgsView),
    Compare(CompareArgsView),
    CompareRefs(CompareRefsArgsView),
    CompareWorkingTree(CompareWorkingTreeArgsView),
}

impl View for Command {
    type V = CommandView;

    open spec fn view(&self) -> CommandView {
        match self {
            Command::Run(a) => CommandView::Run(a@),
            Command::Compare(a) => CommandView::Compare(a@),
            Command::CompareRefs(a) => CommandView::CompareRefs(a@),
            Command::CompareWorkingTree(a) => CommandView::CompareWorkingTree(a@),
        }
    }
}

/// [`Cli`] with its strings as character sequences.
#[verifier::ext_equal]
pub struct CliView {
    pub command: CommandView,
}

impl View for Cli {
    type V = CliView;

    open spec fn view(&self) -> CliView {
        CliView { command: self.command@ }
    }
}

/// A copy of a list of profilers.
pub fn copy_tools(v: &Vec<BenchTool>) -> (r: Vec<BenchTool>)
    ensures
        r@ == v@,
{
    let mut r: Vec<BenchTool> = Vec::new();
    let mut i: usize = 0;
    while i < v.len()
        invariant
            i <= v.len(),
            r@ == v@.take(i as int),
        decreases v.len() - i,
    {
        r.push(v[i]);
        i += 1;
        assert(r@ =~= v@.take(i as int));
    }
    assert(v@.take(v.len() as int) =~= v@);
    r
}

impl RefOptions {
    /// The arguments of one `run` with these settings under `label`: never
    /// with `--binary`, since a Git comparison builds each revision.
    pub fn run_args(&self, label: String) -> (r: RunArgs)
        ensures
            r@ == (RunArgsView {
                label: label@,
                ledger_size: self.ledger_size,
                runs: self.runs,
                warmup: self.warmup,
                perf_frequency: self.perf_frequency,
                perf_call_graph: self.perf_call_graph,
                only: self@.only,
                skip: self@.skip,
                binary: None,
                force: self.force,
            }),
    {
        RunArgs {
            label,
            ledger_size: self.ledger_size,
            runs: self.runs,
            warmup: self.warmup,
            perf_frequency: self.perf_frequency,
            perf_call_graph: self.perf_call_graph,
            only: copy_tools(&self.only),
            skip: copy_tools(&self.skip),
            binary: None,
            force: self.force,
        }
    }
}

} // verus!
