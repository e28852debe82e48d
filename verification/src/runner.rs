//! One benchmark run: its label, its profilers, and what it records.
use vstd::prelude::*;
use crate::args::arg_views;
use crate::cli::{all_tools, call_graph_name, opt_view, tool_name, BenchTool, RunArgs};
use crate::number::{dec, dec_string};
use crate::path::join_path;
use crate::process::{direct_command_string, quoted_words};
use crate::path::{ends_in_name, has_root, join, last_segment, named_parts, with_extension, with_extension_exec};
use crate::model::{Metadata, MetadataView, pair_views};
use crate::text::{
    boundary, boundary_exec, chars_eq_str, last_index_of, split_on, chars_of, has_prefix, is_ascii_alnum, lines, lines_of,
    starts_with_str, trim_by, trimmed_by, ascii_alnum, Strip, push_str, string_of,
};

verus! {

/// Why a run label is refused.
#[derive(Clone, Copy, Debug, PartialEq, Eq, Structural)]
pub enum LabelError {
    /// The label is empty.
    Empty,
    /// The label is `.` or `..`.
    Reserved,
    /// The label holds a character other than ASCII letters, digits, `.`, `-` and `_`.
    BadCharacter,
}

/// Whether `c` may appear in a run label.
pub open spec fn is_label_char(c: char) -> bool {
    is_ascii_alnum(c) || c == '-' || c == '_' || c == '.'
}

/// Executable form of [`is_label_char`].
pub fn label_char(c: char) -> (b: bool)
    ensures
        b == is_label_char(c),
{
    ascii_alnum(c) || c == '-' || c == '_' || c == '.'
}

/// Whether every character of `s` may appear in a run label.
pub open spec fn all_label_chars(s: Seq<char>) -> bool {
    forall|i: int| 0 <= i < s.len() ==> is_label_char(#[trigger] s[i])
}

/// What is wrong with a run label, checked in this order.
pub open spec fn label_error(l: Seq<char>) -> Option<LabelError> {
    if l.len() == 0 {
        Some(LabelError::Empty)
    } else if l == seq!['.'] || l == seq!['.', '.'] {
        Some(LabelError::Reserved)
    } else if !all_label_chars(l) {
        Some(LabelError::BadCharacter)
    } else {
        None
    }
}

/// Accepts a run label only when it names a directory of its own under
/// `.bench/`: not empty, not `.` or `..`, and made of ASCII letters, digits,
/// `.`, `-` and `_`.
pub fn validate_label(label: &str) -> (r: Result<(), LabelError>)
    ensures
        r == match label_error(label@) {
            Some(e) => Err(e),
            None => Ok(()),
        },
{
    let v = chars_of(label);
    if v.len() == 0 {
        return Err(LabelError::Empty);
    }
    if (v.len() == 1 && v[0] == '.') || (v.len() == 2 && v[0] == '.' && v[1] == '.') {
        assert(v@ =~= seq!['.'] || v@ =~= seq!['.', '.']);
        return Err(LabelError::Reserved);
    }
    assert(v@ != seq!['.'] && v@ != seq!['.', '.']) by {
        if v@ == seq!['.'] {
            assert(v@[0] == '.');
        }
        if v@ == seq!['.', '.'] {
            assert(v@[0] == '.' && v@[1] == '.');
        }
    }
    let mut i: usize = 0;
    while i < v.len()
        invariant
            i <= v.len(),
            v@ == label@,
            v@.len() > 0,
            v@ != seq!['.'] && v@ != seq!['.', '.'],
            forall|j: int| 0 <= j < i ==> is_label_char(#[trigger] v@[j]),
        decreases v.len() - i,
    {
        if !label_char(v[i]) {
            assert(!is_label_char(v@[i as int]));
            return Err(LabelError::BadCharacter);
        }
        i += 1;
    }
    Ok(())
}

/// The path that a `git status --porcelain` line names: the line after its
/// first three bytes (the whole line when byte 3 is no character boundary),
/// without surrounding quotes.
pub open spec fn status_path(line: Seq<char>) -> Seq<char> {
    let rest = match boundary(line, 3) {
        Some(k) => line.skip(k),
        None => line,
    };
    trim_by(rest, Strip::Quote)
}

/// Whether a path is the artifact directory `.bench` or lies inside it.
pub open spec fn is_artifact_path(p: Seq<char>) -> bool {
    p == ".bench"@ || has_prefix(p, ".bench/"@)
}

/// Whether a `git status --porcelain` listing names any path outside `.bench/`.
pub open spec fn dirty_ignoring_artifacts(status: Seq<char>) -> bool {
    exists|i: int| 0 <= i < lines(status).len() && !is_artifact_path(status_path(#[trigger] lines(status)[i]))
}

/// Whether the checkout has changes other than benchmark artifacts, judged
/// from its `git status --porcelain` listing.
pub fn is_dirty_ignoring_artifacts(status: &str) -> (b: bool)
    ensures
        b == dirty_ignoring_artifacts(status@),
{
    let text = chars_of(status);
    let ls = lines_of(text.as_slice());
    let ghost ln = lines(status@);
    let mut i: usize = 0;
    while i < ls.len()
        invariant
            i <= ls.len(),
            ln == lines(status@),
            ls.len() == ln.len(),
            forall|k: int| 0 <= k < ls.len() ==> #[trigger] ls@[k]@ == ln[k],
            forall|k: int| 0 <= k < i ==> is_artifact_path(status_path(#[trigger] ln[k])),
        decreases ls.len() - i,
    {
        let line = &ls[i];
        assert(line@ == ln[i as int]);
        let rest = match boundary_exec(line.as_slice(), 3) {
            Some(k) => crate::text::slice_from(line.as_slice(), k),
            None => crate::text::slice_from(line.as_slice(), 0),
        };
        assert(line@.skip(0) =~= line@);
        let path = trimmed_by(rest.as_slice(), Strip::Quote);
        assert(path@ == status_path(ln[i as int]));
        let inside = chars_eq_str(path.as_slice(), ".bench") || starts_with_str(
            path.as_slice(),
            ".bench/",
        );
        if !inside {
            return true;
        }
        i += 1;
    }
    false
}

/// Whether profiler `t` runs, given `--only` and `--skip`.
pub open spec fn tool_selected(only: Seq<BenchTool>, skip: Seq<BenchTool>, t: BenchTool) -> bool {
    (only.len() == 0 || only.contains(t)) && !skip.contains(t)
}

/// The profilers that run, in canonical order: those of `--only` (all when it
/// is empty) except those of `--skip`.
pub open spec fn selection(only: Seq<BenchTool>, skip: Seq<BenchTool>) -> Seq<BenchTool> {
    (if tool_selected(only, skip, BenchTool::Hyperfine) {
        seq![BenchTool::Hyperfine]
    } else {
        Seq::empty()
    }) + (if tool_selected(only, skip, BenchTool::Perf) {
        seq![BenchTool::Perf]
    } else {
        Seq::empty()
    }) + (if tool_selected(only, skip, BenchTool::Heaptrack) {
        seq![BenchTool::Heaptrack]
    } else {
        Seq::empty()
    })
}

/// A profiler's place in the canonical order.
pub open spec fn tool_rank(t: BenchTool) -> int {
    match t {
        BenchTool::Hyperfine => 0,
        BenchTool::Perf => 1,
        BenchTool::Heaptrack => 2,
    }
}

/// Whether a list of profilers is in canonical order, each at most once
/// (as a sorted set holds them).
pub open spec fn canonical_tools(s: Seq<BenchTool>) -> bool {
    forall|i: int, j: int| 0 <= i < j < s.len() ==> tool_rank(s[i]) < tool_rank(s[j])
}

/// Whether a list of profilers holds `t`.
pub fn contains_tool(v: &Vec<BenchTool>, t: BenchTool) -> (b: bool)
    ensures
        b == v@.contains(t),
{
    let mut i: usize = 0;
    while i < v.len()
        invariant
            i <= v.len(),
            forall|j: int| 0 <= j < i ==> v@[j] != t,
        decreases v.len() - i,
    {
        if v[i] == t {
            assert(v@[i as int] == t);
            return true;
        }
        i += 1;
    }
    false
}

/// Executable form of [`tool_selected`].
fn tool_selected_exec(only: &Vec<BenchTool>, skip: &Vec<BenchTool>, t: BenchTool) -> (b: bool)
    ensures
        b == tool_selected(only@, skip@, t),
{
    (only.len() == 0 || contains_tool(only, t)) && !contains_tool(skip, t)
}

/// The profilers that a run enables; an error when none is left.
pub fn selected_tools(args: &RunArgs) -> (r: Result<Vec<BenchTool>, RunError>)
    ensures
        match r {
            Ok(v) => v@ == selection(args.only@, args.skip@) && v@.len() > 0 && canonical_tools(v@),
            Err(e) => e == RunError::NoProfiler && selection(args.only@, args.skip@).len() == 0,
        },
{
    let mut v: Vec<BenchTool> = Vec::new();
    if tool_selected_exec(&args.only, &args.skip, BenchTool::Hyperfine) {
        v.push(BenchTool::Hyperfine);
    }
    if tool_selected_exec(&args.only, &args.skip, BenchTool::Perf) {
        v.push(BenchTool::Perf);
    }
    if tool_selected_exec(&args.only, &args.skip, BenchTool::Heaptrack) {
        v.push(BenchTool::Heaptrack);
    }
    assert(v@ =~= selection(args.only@, args.skip@));
    proof {
        law_selection_follows_only_and_skip(args.only@, args.skip@);
    }
    if v.len() == 0 {
        return Err(RunError::NoProfiler);
    }
    Ok(v)
}

/// Why a run cannot start.
#[derive(Clone, Copy, Debug, PartialEq, Eq, Structural)]
pub enum RunError {
    /// The label is refused.
    Label(LabelError),
    /// The ledger size is not a multiple of 100.
    LedgerSize,
    /// `--only` and `--skip` leave no profiler.
    NoProfiler,
}

/// Appending characters other than `c` leaves the last `c` where it was.
proof fn lemma_last_index_append(s: Seq<char>, l: Seq<char>, c: char)
    requires
        forall|i: int| 0 <= i < l.len() ==> l[i] != c,
    ensures
        last_index_of(s + l, c) == last_index_of(s, c),
    decreases l.len(),
{
    if l.len() > 0 {
        assert((s + l).drop_last() =~= s + l.drop_last());
        assert((s + l).last() == l.last());
        lemma_last_index_append(s, l.drop_last(), c);
    } else {
        assert(s + l =~= s);
    }
}

/// Text without separators is a single piece.
proof fn lemma_split_without_sep(l: Seq<char>, c: char)
    requires
        forall|i: int| 0 <= i < l.len() ==> l[i] != c,
    ensures
        split_on(l, c) == seq![l],
    decreases l.len(),
{
    if l.len() > 0 {
        assert forall|i: int| 0 <= i < l.drop_last().len() implies l.drop_last()[i] != c by {
            assert(l.drop_last()[i] == l[i]);
        }
        lemma_split_without_sep(l.drop_last(), c);
        assert(l.last() != c);
        assert(l.drop_last().push(l.last()) =~= l);
        assert(seq![l.drop_last()].update(0, l.drop_last().push(l.last())) =~= seq![l]);
    } else {
        assert(l =~= Seq::<char>::empty());
    }
}

/// An accepted run label is a single path component that names something,
/// and joined to any directory it is the last segment of the result: a run
/// label cannot escape the artifact directory.
pub proof fn law_label_is_single_name(base: Seq<char>, l: Seq<char>)
    requires
        label_error(l) is None,
    ensures
        !has_root(l),
        named_parts(split_on(l, '/')) == seq![l],
        last_segment(join(base, l)) == l,
        ends_in_name(join(base, l)),
{
    assert forall|i: int| 0 <= i < l.len() implies l[i] != '/' by {
        assert(is_label_char(l[i]));
    }
    lemma_split_without_sep(l, '/');
    assert(seq![l].drop_last() =~= Seq::<Seq<char>>::empty());
    assert(l != seq!['.']);
    assert(seq![l].last() == l);
    assert(l.len() > 0);
    assert(named_parts(Seq::<Seq<char>>::empty()) == Seq::<Seq<char>>::empty());
    assert(named_parts(seq![l]) == named_parts(seq![l].drop_last()).push(l));
    assert(named_parts(seq![l]) =~= Seq::<Seq<char>>::empty().push(l));
    let j = join(base, l);
    if base.len() == 0 {
        assert(j =~= Seq::<char>::empty() + l);
        lemma_last_index_append(Seq::<char>::empty(), l, '/');
        assert(j.skip(0) =~= l);
    } else if base.last() == '/' {
        lemma_last_index_append(base, l, '/');
        assert(last_index_of(base, '/') == base.len() - 1);
        assert(j.skip(base.len() as int) =~= l);
    } else {
        lemma_last_index_append(base + seq!['/'], l, '/');
        assert((base + seq!['/']).last() == '/');
        assert(j =~= (base + seq!['/']) + l);
        assert(j.skip(base.len() as int + 1) =~= l);
    }
}

/// Where a run keeps its files, and which profilers it runs.
#[derive(Clone, Debug)]
pub struct RunSetup {
    /// The artifact directory `.bench`.
    pub bench_root: String,
    /// The run's final directory, `.bench/<label>`.
    pub target: String,
    /// The directory the run fills before it is published.
    pub stage: String,
    /// The profilers that run, in canonical order.
    pub selected: Vec<BenchTool>,
    /// The programs the run needs, by name, in the order they are looked for.
    pub programs: Vec<String>,
}

/// What is wrong with the arguments of a run, checked in this order.
pub open spec fn run_error(args: RunArgs) -> Option<RunError> {
    match label_error(args.label@) {
        Some(e) => Some(RunError::Label(e)),
        None => if args.ledger_size % 100 != 0 {
            Some(RunError::LedgerSize)
        } else if selection(args.only@, args.skip@).len() == 0 {
            Some(RunError::NoProfiler)
        } else {
            None
        },
    }
}

/// The staging directory name of a run: `.<label>-<pid>-staging`.
pub open spec fn stage_name(label: Seq<char>, pid: u32) -> Seq<char> {
    "."@ + label + "-"@ + dec(pid as nat) + "-staging"@
}

/// The programs a run looks for: Python, each enabled profiler (heaptrack
/// with `heaptrack_print`), and Git.
pub open spec fn needed_programs(selected: Seq<BenchTool>) -> Seq<Seq<char>> {
    seq!["python3"@] + (if selected.contains(BenchTool::Hyperfine) {
        seq!["hyperfine"@]
    } else {
        Seq::empty()
    }) + (if selected.contains(BenchTool::Perf) {
        seq!["perf"@]
    } else {
        Seq::empty()
    }) + (if selected.contains(BenchTool::Heaptrack) {
        seq!["heaptrack"@, "heaptrack_print"@]
    } else {
        Seq::empty()
    }) + seq!["git"@]
}

/// Prepares a run of `args` whose artifacts go under `artifact_repo`: checks
/// the label, the ledger size and the profiler selection, and says where the
/// run's files go and which programs it needs (`pid` names the staging
/// directory).
pub fn run(args: &RunArgs, artifact_repo: &str, pid: u32) -> (r: Result<RunSetup, RunError>)
    ensures
        match r {
            Err(e) => run_error(*args) == Some(e),
            Ok(setup) => {
                &&& run_error(*args) is None
                &&& setup.bench_root@ == join(artifact_repo@, ".bench"@)
                &&& setup.target@ == join(setup.bench_root@, args.label@)
                &&& setup.stage@ == join(setup.bench_root@, stage_name(args.label@, pid))
                &&& setup.selected@ == selection(args.only@, args.skip@)
                &&& arg_views(setup.programs@) == needed_programs(setup.selected@)
            },
        },
{
    match validate_label(args.label.as_str()) {
        Err(e) => {
            return Err(RunError::Label(e));
        },
        Ok(()) => {},
    }
    if args.ledger_size % 100 != 0 {
        return Err(RunError::LedgerSize);
    }
    let bench_root = join_path(artifact_repo, ".bench");
    let target = join_path(bench_root.as_str(), args.label.as_str());
    let selected = match selected_tools(args) {
        Ok(v) => v,
        Err(e) => {
            return Err(e);
        },
    };
    let mut name = String::new();
    push_str(&mut name, ".");
    push_str(&mut name, args.label.as_str());
    push_str(&mut name, "-");
    push_str(&mut name, dec_string(pid as u64).as_str());
    push_str(&mut name, "-staging");
    assert(name@ =~= stage_name(args.label@, pid));
    let stage = join_path(bench_root.as_str(), name.as_str());
    let mut programs: Vec<String> = Vec::new();
    programs.push("python3".to_owned());
    if contains_tool(&selected, BenchTool::Hyperfine) {
        programs.push("hyperfine".to_owned());
    }
    if contains_tool(&selected, BenchTool::Perf) {
        programs.push("perf".to_owned());
    }
    if contains_tool(&selected, BenchTool::Heaptrack) {
        programs.push("heaptrack".to_owned());
        programs.push("heaptrack_print".to_owned());
    }
    programs.push("git".to_owned());
    assert(arg_views(programs@) =~= needed_programs(selected@));
    Ok(RunSetup { bench_root, target, stage, selected, programs })
}

/// A command to run: program, arguments, and working directory (the
/// caller's when `None`).
#[derive(Clone, Debug)]
pub struct CommandLine {
    pub program: String,
    pub args: Vec<String>,
    pub cwd: Option<String>,
}

/// [`CommandLine`] with its strings as character sequences.
#[verifier::ext_equal]
pub struct CommandLineView {
    pub program: Seq<char>,
    pub args: Seq<Seq<char>>,
    pub cwd: Option<Seq<char>>,
}

impl View for CommandLine {
    type V = CommandLineView;

    open spec fn view(&self) -> CommandLineView {
        CommandLineView { program: self.program@, args: arg_views(self.args@), cwd: opt_view(self.cwd) }
    }
}

/// What a command of a run is for.
#[derive(Clone, Copy, Debug, PartialEq, Eq, Structural)]
pub enum Purpose {
    /// `ck package` builds Paper Muncher.
    Build,
    /// The ledger generator writes the input document.
    Generate,
    /// Hyperfine times the benchmark command.
    Hyperfine,
    /// `perf record` samples the benchmark command.
    PerfRecord,
    /// `perf report` summarizes the samples.
    PerfReport,
    /// heaptrack records the benchmark command's allocations.
    HeaptrackRecord,
    /// `heaptrack_print` summarizes them.
    HeaptrackReport,
}

/// A file that must exist at some point of a run.
#[derive(Clone, Copy, Debug, PartialEq, Eq, Structural)]
pub enum FileCheck {
    /// The checkout's `ck` launcher, before a default build.
    Launcher,
    /// The binary that `ck package` should have produced.
    PackageBinary,
    /// The ledger that the generator should have written.
    LedgerInput,
    /// The data file that heaptrack should have written.
    HeaptrackData,
}

/// One step of collecting a run; a failing step ends the run.
#[derive(Clone, Debug)]
pub enum Step {
    /// Write the bundled ledger generator to this path.
    WriteGenerator(String),
    /// Write the bundled stylesheet to this path.
    WriteStylesheet(String),
    /// Print this progress line.
    Announce(String),
    /// Fail unless this path is a file.
    RequireFile(String, FileCheck),
    /// Run a command with its output logged to a file; on failure, the
    /// context (when there is one) is added to the error.
    RunLogged { purpose: Purpose, command: CommandLine, log: String, context: Option<String> },
    /// Run a command and save its combined output to a file.
    Capture { purpose: Purpose, command: CommandLine, output: String },
    /// Gather the run's metadata and write it to this path, recording the
    /// published binary, the published benchmark command, and the published
    /// build command, if any.
    WriteMetadata { path: String, binary: String, command: String, build_command: Option<String> },
}

/// [`Step`] with its strings as character sequences.
#[verifier::ext_equal]
pub enum StepView {
    WriteGenerator(Seq<char>),
    WriteStylesheet(Seq<char>),
    Announce(Seq<char>),
    RequireFile(Seq<char>, FileCheck),
    RunLogged {
        purpose: Purpose,
        command: CommandLineView,
        log: Seq<char>,
        context: Option<Seq<char>>,
    },
    Capture { purpose: Purpose, command: CommandLineView, output: Seq<char> },
    WriteMetadata {
        path: Seq<char>,
        binary: Seq<char>,
        command: Seq<char>,
        build_command: Option<Seq<char>>,
    },
}

impl View for Step {
    type V = StepView;

    open spec fn view(&self) -> StepView {
        match self {
            Step::WriteGenerator(p) => StepView::WriteGenerator(p@),
            Step::WriteStylesheet(p) => StepView::WriteStylesheet(p@),
            Step::Announce(l) => StepView::Announce(l@),
            Step::RequireFile(p, c) => StepView::RequireFile(p@, *c),
            Step::RunLogged { purpose, command, log, context } => StepView::RunLogged {
                purpose: *purpose,
                command: command@,
                log: log@,
                context: opt_view(*context),
            },
            Step::Capture { purpose, command, output } => StepView::Capture {
                purpose: *purpose,
                command: command@,
                output: output@,
            },
            Step::WriteMetadata { path, binary, command, build_command } => StepView::WriteMetadata {
                path: path@,
                binary: binary@,
                command: command@,
                build_command: opt_view(*build_command),
            },
        }
    }
}

/// The texts of a list of steps.
pub open spec fn step_views(v: Seq<Step>) -> Seq<StepView> {
    v.map_values(|s: Step| s@)
}

/// What collecting a run works with: the run's arguments and directories,
/// and the programs found for it (a profiler's program is present exactly
/// when the profiler is enabled).
#[derive(Clone, Debug)]
pub struct CollectConfig {
    pub args: RunArgs,
    /// The checkout that is built and benchmarked.
    pub repo: String,
    pub stage: String,
    pub target: String,
    /// The executable given with `--binary`, resolved.
    pub external_binary: Option<String>,
    pub python: String,
    pub hyperfine: Option<String>,
    pub perf: Option<String>,
    pub heaptrack: Option<String>,
    pub heaptrack_print: Option<String>,
}

/// A command line as a view.
pub open spec fn cmd(program: Seq<char>, args: Seq<Seq<char>>, cwd: Option<Seq<char>>) -> CommandLineView {
    CommandLineView { program, args, cwd }
}

/// The ledger's file name with extension `ext`: `ledger-<size>.<ext>`.
pub open spec fn ledger_file(size: u64, ext: Seq<char>) -> Seq<char> {
    "ledger-"@ + dec(size as nat) + "."@ + ext
}

/// The directory `ck package` installs into.
pub open spec fn package_dir(dir: Seq<char>) -> Seq<char> {
    join(dir, "package"@)
}

/// The arguments of `ck package` installing into `prefix`.
pub open spec fn package_args(prefix: Seq<char>) -> Seq<Seq<char>> {
    seq!["package"@, "--release"@, "--prefix="@ + prefix, "paper-muncher"@]
}

/// The binary a run benchmarks, as run from the staging directory.
pub open spec fn run_binary(c: CollectConfig) -> Seq<char> {
    match c.external_binary {
        Some(b) => b@,
        None => join(package_dir(c.stage@), "bin/paper-muncher"@),
    }
}

/// The binary a run benchmarks, as recorded once the run is published.
pub open spec fn published_binary(c: CollectConfig) -> Seq<char> {
    match c.external_binary {
        Some(b) => b@,
        None => join(package_dir(c.target@), "bin/paper-muncher"@),
    }
}

/// The arguments Paper Muncher gets: the ledger in `dir`, `-o`, the output in `dir`.
pub open spec fn muncher_args(dir: Seq<char>, size: u64) -> Seq<Seq<char>> {
    seq![join(dir, ledger_file(size, "html"@)), "-o"@, join(dir, ledger_file(size, "pdf"@))]
}

/// The steps that provide the binary: a note when `--binary` was given;
/// otherwise the launcher check, `ck package` into the staging directory, and
/// the test that its binary exists.
pub open spec fn build_steps(c: CollectConfig) -> Seq<StepView> {
    match c.external_binary {
        Some(b) => seq![StepView::Announce("[build] using "@ + b@ + " (--binary; skipped)"@)],
        None => {
            let ck = join(c.repo@, "ck"@);
            let package = package_dir(c.stage@);
            seq![
                StepView::RequireFile(ck, FileCheck::Launcher),
                StepView::Announce("[build] ck package --release"@),
                StepView::RunLogged {
                    purpose: Purpose::Build,
                    command: cmd(ck, package_args(package), Some(c.repo@)),
                    log: join(c.stage@, "build.log"@),
                    context: Some(
                        "build command was `"@ + quoted_words(seq![ck] + package_args(package))
                            + "`"@,
                    ),
                },
                StepView::RequireFile(join(package, "bin/paper-muncher"@), FileCheck::PackageBinary),
            ]
        },
    }
}

/// The build command recorded in the metadata: `ck package` into the
/// published directory, or none with `--binary`.
pub open spec fn published_build_command(c: CollectConfig) -> Option<Seq<char>> {
    match c.external_binary {
        Some(_) => None,
        None => Some(
            quoted_words(seq![join(c.repo@, "ck"@)] + package_args(package_dir(c.target@))),
        ),
    }
}

/// The steps that generate the ledger.
pub open spec fn generate_steps(c: CollectConfig) -> Seq<StepView> {
    let size = c.args.ledger_size;
    let input = join(c.stage@, ledger_file(size, "html"@));
    seq![
        StepView::Announce("[generator] "@ + dec(size as nat) + " entry ledger"@),
        StepView::RunLogged {
            purpose: Purpose::Generate,
            command: cmd(
                c.python@,
                seq![
                    join(c.stage@, "general-ledger.py"@),
                    "--size"@,
                    dec(size as nat),
                    "--output"@,
                    input,
                ],
                Some(c.stage@),
            ),
            log: join(c.stage@, "generator.log"@),
            context: None,
        },
        StepView::RequireFile(input, FileCheck::LedgerInput),
    ]
}

/// The benchmark command, as run from the staging directory.
pub open spec fn benchmark_command(c: CollectConfig) -> Seq<char> {
    quoted_words(seq![run_binary(c)] + muncher_args(c.stage@, c.args.ledger_size))
}

/// The benchmark command, as recorded once the run is published.
pub open spec fn published_command(c: CollectConfig) -> Seq<char> {
    quoted_words(seq![published_binary(c)] + muncher_args(c.target@, c.args.ledger_size))
}

/// The Hyperfine steps, when Hyperfine is enabled.
pub open spec fn hyperfine_steps(c: CollectConfig) -> Seq<StepView> {
    match c.hyperfine {
        Some(h) => seq![
            StepView::Announce(
                "[hyperfine] "@ + dec(c.args.warmup as nat) + " warmup, "@ + dec(c.args.runs as nat)
                    + " runs"@,
            ),
            StepView::RunLogged {
                purpose: Purpose::Hyperfine,
                command: cmd(
                    h@,
                    seq![
                        "--shell=none"@,
                        "--warmup"@,
                        dec(c.args.warmup as nat),
                        "--runs"@,
                        dec(c.args.runs as nat),
                        "--export-json"@,
                        join(c.stage@, "hyperfine.json"@),
                        benchmark_command(c),
                    ],
                    Some(c.repo@),
                ),
                log: join(c.stage@, "hyperfine.log"@),
                context: None,
            },
        ],
        None => Seq::empty(),
    }
}

/// The perf steps, when perf is enabled.
pub open spec fn perf_steps(c: CollectConfig) -> Seq<StepView> {
    match c.perf {
        Some(p) => seq![
            StepView::Announce("[perf] record + report"@),
            StepView::RunLogged {
                purpose: Purpose::PerfRecord,
                command: cmd(
                    p@,
                    seq![
                        "record"@,
                        "--freq="@ + dec(c.args.perf_frequency as nat),
                        "--call-graph"@,
                        call_graph_name(c.args.perf_call_graph),
                        "-q"@,
                        "-o"@,
                        join(c.stage@, "perf.data"@),
                        "--"@,
                        run_binary(c),
                    ] + muncher_args(c.stage@, c.args.ledger_size),
                    Some(c.repo@),
                ),
                log: join(c.stage@, "perf.log"@),
                context: None,
            },
            StepView::Capture {
                purpose: Purpose::PerfReport,
                command: cmd(
                    p@,
                    seq!["report"@, "--stdio"@, "--input"@, join(c.stage@, "perf.data"@)],
                    Some(c.repo@),
                ),
                output: join(c.stage@, "perf-report.txt"@),
            },
        ],
        None => Seq::empty(),
    }
}

/// The heaptrack steps, when heaptrack and `heaptrack_print` are both there.
pub open spec fn heaptrack_steps(c: CollectConfig) -> Seq<StepView> {
    match (c.heaptrack, c.heaptrack_print) {
        (Some(h), Some(hp)) => seq![
            StepView::Announce("[heaptrack] record + report"@),
            StepView::RunLogged {
                purpose: Purpose::HeaptrackRecord,
                command: cmd(
                    h@,
                    seq!["-o"@, join(c.stage@, "heaptrack"@), run_binary(c)] + muncher_args(
                        c.stage@,
                        c.args.ledger_size,
                    ),
                    Some(c.repo@),
                ),
                log: join(c.stage@, "heaptrack.log"@),
                context: None,
            },
            StepView::RequireFile(join(c.stage@, "heaptrack.zst"@), FileCheck::HeaptrackData),
            StepView::Capture {
                purpose: Purpose::HeaptrackReport,
                command: cmd(hp@, seq!["-f"@, join(c.stage@, "heaptrack.zst"@)], None),
                output: join(c.stage@, "heaptrack.txt"@),
            },
        ],
        _ => Seq::empty(),
    }
}

/// All steps of collecting a run, in order: the bundled files, the binary,
/// the ledger, the metadata, then Hyperfine, perf and heaptrack.
pub open spec fn collect_steps(c: CollectConfig) -> Seq<StepView> {
    seq![
        StepView::WriteGenerator(join(c.stage@, "general-ledger.py"@)),
        StepView::WriteStylesheet(join(c.stage@, "templates/general-ledger.css"@)),
    ] + build_steps(c) + generate_steps(c) + seq![
        StepView::WriteMetadata {
            path: join(c.stage@, "metadata.json"@),
            binary: published_binary(c),
            command: published_command(c),
            build_command: published_build_command(c),
        },
    ] + hyperfine_steps(c) + perf_steps(c) + heaptrack_steps(c)
}

/// Executable form of [`ledger_file`].
fn ledger_file_exec(size: u64, ext: &str) -> (s: String)
    ensures
        s@ == ledger_file(size, ext@),
{
    let mut s = String::new();
    push_str(&mut s, "ledger-");
    push_str(&mut s, dec_string(size).as_str());
    push_str(&mut s, ".");
    push_str(&mut s, ext);
    assert(s@ =~= ledger_file(size, ext@));
    s
}

/// Executable form of [`muncher_args`].
fn muncher_args_exec(dir: &str, size: u64) -> (v: Vec<String>)
    ensures
        arg_views(v@) == muncher_args(dir@, size),
{
    let mut v: Vec<String> = Vec::new();
    v.push(join_path(dir, ledger_file_exec(size, "html").as_str()));
    v.push("-o".to_owned());
    v.push(join_path(dir, ledger_file_exec(size, "pdf").as_str()));
    assert(arg_views(v@) =~= muncher_args(dir@, size));
    v
}

/// Executable form of [`package_args`].
fn package_args_exec(prefix: &str) -> (v: Vec<String>)
    ensures
        arg_views(v@) == package_args(prefix@),
{
    let mut p = String::new();
    push_str(&mut p, "--prefix=");
    push_str(&mut p, prefix);
    let mut v: Vec<String> = Vec::new();
    v.push("package".to_owned());
    v.push("--release".to_owned());
    v.push(p);
    v.push("paper-muncher".to_owned());
    assert(arg_views(v@) =~= package_args(prefix@));
    v
}

/// A copy of a list of strings.
fn copy_strings(v: &Vec<String>) -> (r: Vec<String>)
    ensures
        arg_views(r@) == arg_views(v@),
        r.len() == v.len(),
{
    let mut r: Vec<String> = Vec::new();
    let mut i: usize = 0;
    while i < v.len()
        invariant
            i <= v.len(),
            arg_views(r@) == arg_views(v@).take(i as int),
        decreases v.len() - i,
    {
        let t = v[i].clone();
        assert(t@ == v@[i as int]@);
        let ghost before = arg_views(r@);
        r.push(t);
        assert(arg_views(r@) =~= before.push(v@[i as int]@));
        i += 1;
        assert(arg_views(r@) =~= arg_views(v@).take(i as int));
    }
    assert(arg_views(v@).take(v.len() as int) =~= arg_views(v@));
    r
}

/// `a` followed by `b`.
fn concat_strings(a: Vec<String>, b: &Vec<String>) -> (r: Vec<String>)
    ensures
        arg_views(r@) == arg_views(a@) + arg_views(b@),
        r.len() == a.len() + b.len(),
{
    let mut r = a;
    let mut extra = copy_strings(b);
    let ghost ra = arg_views(r@);
    let ghost eb = arg_views(extra@);
    r.append(&mut extra);
    assert(arg_views(r@) =~= ra + eb);
    r
}

/// Appends a step.
fn push_step(steps: &mut Vec<Step>, s: Step)
    ensures
        step_views(final(steps)@) == step_views(old(steps)@).push(s@),
{
    steps.push(s);
    assert(step_views(steps@) =~= step_views(old(steps)@).push(s@));
}

/// The binary that is benchmarked from the staging directory, the one that
/// is recorded, and the recorded build command.
fn binaries(c: &CollectConfig) -> (r: (String, String, Option<String>))
    ensures
        r.0@ == run_binary(*c),
        r.1@ == published_binary(*c),
        opt_view(r.2) == published_build_command(*c),
{
    match &c.external_binary {
        Some(b) => (b.clone(), b.clone(), None),
        None => {
            let ck = join_path(c.repo.as_str(), "ck");
            let published_package = join_path(c.target.as_str(), "package");
            let mut words: Vec<String> = Vec::new();
            words.push(ck);
            let words = concat_strings(words, &package_args_exec(published_package.as_str()));
            assert(arg_views(words@) =~= seq![join(c.repo@, "ck"@)] + package_args(
                package_dir(c.target@),
            ));
            let program = words[0].clone();
            let rest = crate::runner::tail_strings(&words);
            assert(arg_views(rest@) =~= arg_views(words@).skip(1));
            let cmdline = direct_command_string(program.as_str(), &rest);
            assert(seq![program@] + arg_views(rest@) =~= arg_views(words@));
            let package = join_path(c.stage.as_str(), "package");
            (
                join_path(package.as_str(), "bin/paper-muncher"),
                join_path(published_package.as_str(), "bin/paper-muncher"),
                Some(cmdline),
            )
        },
    }
}

/// All but the first of a non-empty list of strings.
fn tail_strings(v: &Vec<String>) -> (r: Vec<String>)
    requires
        v.len() > 0,
    ensures
        arg_views(r@) == arg_views(v@).skip(1),
{
    let mut r: Vec<String> = Vec::new();
    let mut i: usize = 1;
    while i < v.len()
        invariant
            1 <= i <= v.len(),
            arg_views(r@) == arg_views(v@).subrange(1, i as int),
        decreases v.len() - i,
    {
        let t = v[i].clone();
        assert(t@ == v@[i as int]@);
        let ghost before = arg_views(r@);
        r.push(t);
        assert(arg_views(r@) =~= before.push(v@[i as int]@));
        i += 1;
        assert(arg_views(r@) =~= arg_views(v@).subrange(1, i as int));
    }
    assert(arg_views(v@).subrange(1, v.len() as int) =~= arg_views(v@).skip(1));
    r
}

/// The shown form of a command given as its words (program first).
fn show_words(words: &Vec<String>) -> (s: String)
    requires
        words.len() > 0,
    ensures
        s@ == quoted_words(arg_views(words@)),
{
    let rest = tail_strings(words);
    let s = direct_command_string(words[0].as_str(), &rest);
    assert(seq![words@[0]@] + arg_views(rest@) =~= arg_views(words@));
    s
}

/// Appends the steps that provide the binary.
fn push_build_steps(c: &CollectConfig, steps: &mut Vec<Step>)
    ensures
        step_views(final(steps)@) == step_views(old(steps)@) + build_steps(*c),
{
    let stage = c.stage.as_str();
    let repo = c.repo.as_str();
    let ghost s0 = step_views(steps@);
    match &c.external_binary {
        Some(b) => {
            let mut line = String::new();
            push_str(&mut line, "[build] using ");
            push_str(&mut line, b.as_str());
            push_str(&mut line, " (--binary; skipped)");
            assert(line@ =~= "[build] using "@ + b@ + " (--binary; skipped)"@);
            push_step(steps, Step::Announce(line));
        },
        None => {
            let ck = join_path(repo, "ck");
            let package = join_path(stage, "package");
            push_step(steps, Step::RequireFile(ck.clone(), FileCheck::Launcher));
            push_step(steps, Step::Announce("[build] ck package --release".to_owned()));
            let pargs = package_args_exec(package.as_str());
            let mut words: Vec<String> = Vec::new();
            words.push(ck.clone());
            let words = concat_strings(words, &pargs);
            assert(arg_views(words@) =~= seq![ck@] + package_args(package@));
            let mut context = String::new();
            push_str(&mut context, "build command was `");
            push_str(&mut context, show_words(&words).as_str());
            push_str(&mut context, "`");
            assert(context@ =~= "build command was `"@ + quoted_words(
                seq![ck@] + package_args(package@),
            ) + "`"@);
            push_step(
                steps,
                Step::RunLogged {
                    purpose: Purpose::Build,
                    command: CommandLine { program: ck, args: pargs, cwd: Some(c.repo.clone()) },
                    log: join_path(stage, "build.log"),
                    context: Some(context),
                },
            );
            assert(step_views(steps@).last() == (StepView::RunLogged {
                purpose: Purpose::Build,
                command: cmd(ck@, package_args(package@), Some(c.repo@)),
                log: join(c.stage@, "build.log"@),
                context: Some(
                    "build command was `"@ + quoted_words(seq![ck@] + package_args(package@))
                        + "`"@,
                ),
            }));
            push_step(
                steps,
                Step::RequireFile(
                    join_path(package.as_str(), "bin/paper-muncher"),
                    FileCheck::PackageBinary,
                ),
            );
        },
    }
    assert(step_views(steps@) =~= s0 + build_steps(*c));
}

/// Appends the steps that generate the ledger.
fn push_generate_steps(c: &CollectConfig, steps: &mut Vec<Step>)
    ensures
        step_views(final(steps)@) == step_views(old(steps)@) + generate_steps(*c),
{
    let stage = c.stage.as_str();
    let size = c.args.ledger_size;
    let ghost s1 = step_views(steps@);
    let size_text = dec_string(size);
    let input = join_path(stage, ledger_file_exec(size, "html").as_str());
    let mut line = String::new();
    push_str(&mut line, "[generator] ");
    push_str(&mut line, size_text.as_str());
    push_str(&mut line, " entry ledger");
    assert(line@ =~= "[generator] "@ + dec(size as nat) + " entry ledger"@);
    push_step(steps, Step::Announce(line));
    let mut gargs: Vec<String> = Vec::new();
    gargs.push(join_path(stage, "general-ledger.py"));
    gargs.push("--size".to_owned());
    gargs.push(size_text.clone());
    gargs.push("--output".to_owned());
    gargs.push(input.clone());
    assert(arg_views(gargs@) =~= seq![
        join(c.stage@, "general-ledger.py"@),
        "--size"@,
        dec(size as nat),
        "--output"@,
        join(c.stage@, ledger_file(size, "html"@)),
    ]);
    push_step(
        steps,
        Step::RunLogged {
            purpose: Purpose::Generate,
            command: CommandLine {
                program: c.python.clone(),
                args: gargs,
                cwd: Some(c.stage.clone()),
            },
            log: join_path(stage, "generator.log"),
            context: None,
        },
    );
    push_step(steps, Step::RequireFile(input, FileCheck::LedgerInput));
    assert(step_views(steps@) =~= s1 + generate_steps(*c));
}

/// Appends the Hyperfine steps, given the benchmark command.
fn push_hyperfine_steps(c: &CollectConfig, bench: String, steps: &mut Vec<Step>)
    requires
        bench@ == benchmark_command(*c),
    ensures
        step_views(final(steps)@) == step_views(old(steps)@) + hyperfine_steps(*c),
{
    let stage = c.stage.as_str();
    let ghost s3 = step_views(steps@);
    match &c.hyperfine {
        Some(h) => {
            let mut line = String::new();
            push_str(&mut line, "[hyperfine] ");
            push_str(&mut line, dec_string(c.args.warmup).as_str());
            push_str(&mut line, " warmup, ");
            push_str(&mut line, dec_string(c.args.runs).as_str());
            push_str(&mut line, " runs");
            assert(line@ =~= "[hyperfine] "@ + dec(c.args.warmup as nat) + " warmup, "@ + dec(
                c.args.runs as nat,
            ) + " runs"@);
            push_step(steps, Step::Announce(line));
            let mut hargs: Vec<String> = Vec::new();
            hargs.push("--shell=none".to_owned());
            hargs.push("--warmup".to_owned());
            hargs.push(dec_string(c.args.warmup));
            hargs.push("--runs".to_owned());
            hargs.push(dec_string(c.args.runs));
            hargs.push("--export-json".to_owned());
            hargs.push(join_path(stage, "hyperfine.json"));
            hargs.push(bench);
            assert(arg_views(hargs@) =~= seq![
                "--shell=none"@,
                "--warmup"@,
                dec(c.args.warmup as nat),
                "--runs"@,
                dec(c.args.runs as nat),
                "--export-json"@,
                join(c.stage@, "hyperfine.json"@),
                benchmark_command(*c),
            ]);
            push_step(
                steps,
                Step::RunLogged {
                    purpose: Purpose::Hyperfine,
                    command: CommandLine {
                        program: h.clone(),
                        args: hargs,
                        cwd: Some(c.repo.clone()),
                    },
                    log: join_path(stage, "hyperfine.log"),
                    context: None,
                },
            );
        },
        None => {},
    }
    assert(step_views(steps@) =~= s3 + hyperfine_steps(*c));
}

/// Appends the perf steps, given the binary and Paper Muncher's arguments.
fn push_perf_steps(c: &CollectConfig, binary: &String, margs: &Vec<String>, steps: &mut Vec<Step>)
    requires
        binary@ == run_binary(*c),
        arg_views(margs@) == muncher_args(c.stage@, c.args.ledger_size),
    ensures
        step_views(final(steps)@) == step_views(old(steps)@) + perf_steps(*c),
{
    let stage = c.stage.as_str();
    let ghost s4 = step_views(steps@);
    match &c.perf {
        Some(p) => {
            push_step(steps, Step::Announce("[perf] record + report".to_owned()));
            let mut freq = String::new();
            push_str(&mut freq, "--freq=");
            push_str(&mut freq, dec_string(c.args.perf_frequency).as_str());
            assert(freq@ =~= "--freq="@ + dec(c.args.perf_frequency as nat));
            let mut rargs: Vec<String> = Vec::new();
            rargs.push("record".to_owned());
            rargs.push(freq);
            rargs.push("--call-graph".to_owned());
            rargs.push(c.args.perf_call_graph.as_str().to_owned());
            rargs.push("-q".to_owned());
            rargs.push("-o".to_owned());
            rargs.push(join_path(stage, "perf.data"));
            rargs.push("--".to_owned());
            rargs.push(binary.clone());
            assert(arg_views(rargs@) =~= seq![
                "record"@,
                "--freq="@ + dec(c.args.perf_frequency as nat),
                "--call-graph"@,
                call_graph_name(c.args.perf_call_graph),
                "-q"@,
                "-o"@,
                join(c.stage@, "perf.data"@),
                "--"@,
                run_binary(*c),
            ]);
            let rargs = concat_strings(rargs, &margs);
            push_step(
                steps,
                Step::RunLogged {
                    purpose: Purpose::PerfRecord,
                    command: CommandLine {
                        program: p.clone(),
                        args: rargs,
                        cwd: Some(c.repo.clone()),
                    },
                    log: join_path(stage, "perf.log"),
                    context: None,
                },
            );
            let mut qargs: Vec<String> = Vec::new();
            qargs.push("report".to_owned());
            qargs.push("--stdio".to_owned());
            qargs.push("--input".to_owned());
            qargs.push(join_path(stage, "perf.data"));
            assert(arg_views(qargs@) =~= seq![
                "report"@,
                "--stdio"@,
                "--input"@,
                join(c.stage@, "perf.data"@),
            ]);
            push_step(
                steps,
                Step::Capture {
                    purpose: Purpose::PerfReport,
                    command: CommandLine {
                        program: p.clone(),
                        args: qargs,
                        cwd: Some(c.repo.clone()),
                    },
                    output: join_path(stage, "perf-report.txt"),
                },
            );
        },
        None => {},
    }
    assert(step_views(steps@) =~= s4 + perf_steps(*c));
}

/// Appends the heaptrack steps, given the binary and Paper Muncher's arguments.
fn push_heaptrack_steps(
    c: &CollectConfig,
    binary: &String,
    margs: &Vec<String>,
    steps: &mut Vec<Step>,
)
    requires
        binary@ == run_binary(*c),
        arg_views(margs@) == muncher_args(c.stage@, c.args.ledger_size),
    ensures
        step_views(final(steps)@) == step_views(old(steps)@) + heaptrack_steps(*c),
{
    let stage = c.stage.as_str();
    let ghost s5 = step_views(steps@);
    match (&c.heaptrack, &c.heaptrack_print) {
        (Some(h), Some(hp)) => {
            push_step(steps, Step::Announce("[heaptrack] record + report".to_owned()));
            let mut targs: Vec<String> = Vec::new();
            targs.push("-o".to_owned());
            targs.push(join_path(stage, "heaptrack"));
            targs.push(binary.clone());
            assert(arg_views(targs@) =~= seq!["-o"@, join(c.stage@, "heaptrack"@), run_binary(*c)]);
            let targs = concat_strings(targs, &margs);
            push_step(
                steps,
                Step::RunLogged {
                    purpose: Purpose::HeaptrackRecord,
                    command: CommandLine {
                        program: h.clone(),
                        args: targs,
                        cwd: Some(c.repo.clone()),
                    },
                    log: join_path(stage, "heaptrack.log"),
                    context: None,
                },
            );
            let data = join_path(stage, "heaptrack.zst");
            push_step(steps, Step::RequireFile(data.clone(), FileCheck::HeaptrackData));
            let mut pargs: Vec<String> = Vec::new();
            pargs.push("-f".to_owned());
            pargs.push(data);
            assert(arg_views(pargs@) =~= seq!["-f"@, join(c.stage@, "heaptrack.zst"@)]);
            push_step(
                steps,
                Step::Capture {
                    purpose: Purpose::HeaptrackReport,
                    command: CommandLine { program: hp.clone(), args: pargs, cwd: None },
                    output: join_path(stage, "heaptrack.txt"),
                },
            );
        },
        _ => {},
    }
    assert(step_views(steps@) =~= s5 + heaptrack_steps(*c));
}

/// The steps of collecting a run, in the order they are carried out.
pub fn collect(c: &CollectConfig) -> (steps: Vec<Step>)
    ensures
        step_views(steps@) == collect_steps(*c),
{
    let stage = c.stage.as_str();
    let size = c.args.ledger_size;
    let mut steps: Vec<Step> = Vec::new();
    push_step(&mut steps, Step::WriteGenerator(join_path(stage, "general-ledger.py")));
    push_step(&mut steps, Step::WriteStylesheet(join_path(stage, "templates/general-ledger.css")));
    let (binary, published, build_command) = binaries(c);
    push_build_steps(c, &mut steps);
    push_generate_steps(c, &mut steps);
    let margs = muncher_args_exec(stage, size);
    let mut bwords: Vec<String> = Vec::new();
    bwords.push(binary.clone());
    let bwords = concat_strings(bwords, &margs);
    assert(arg_views(bwords@) =~= seq![run_binary(*c)] + muncher_args(c.stage@, size));
    let bench = show_words(&bwords);
    let mut pwords: Vec<String> = Vec::new();
    pwords.push(published.clone());
    let pwords = concat_strings(pwords, &muncher_args_exec(c.target.as_str(), size));
    assert(arg_views(pwords@) =~= seq![published_binary(*c)] + muncher_args(c.target@, size));
    let published_cmd = show_words(&pwords);
    push_step(
        &mut steps,
        Step::WriteMetadata {
            path: join_path(stage, "metadata.json"),
            binary: published,
            command: published_cmd,
            build_command,
        },
    );
    push_hyperfine_steps(c, bench, &mut steps);
    push_perf_steps(c, &binary, &margs, &mut steps);
    push_heaptrack_steps(c, &binary, &margs, &mut steps);
    assert(step_views(steps@) =~= collect_steps(*c));
    steps
}
/// What a run learns from Git and from its programs for its metadata.
#[derive(Clone, Debug)]
pub struct MetadataInputs {
    /// `git rev-parse HEAD`, trimmed.
    pub git_commit: String,
    /// `git branch --show-current`, trimmed (empty on a detached head).
    pub git_branch: String,
    /// `git status --porcelain --untracked-files=all`, trimmed.
    pub git_status: String,
    /// The first line of each program's `--version` output.
    pub python_version: String,
    pub hyperfine_version: Option<String>,
    pub perf_version: Option<String>,
    pub heaptrack_version: Option<String>,
    pub heaptrack_print_version: Option<String>,
    pub timestamp_unix_seconds: u64,
}

/// A name/version pair when the version is known.
pub open spec fn version_entry(name: Seq<char>, v: Option<String>) -> Seq<(Seq<char>, Seq<char>)> {
    match v {
        Some(t) => seq![(name, t@)],
        None => Seq::empty(),
    }
}

/// The program versions of the metadata, in name order (as a sorted map
/// lists them).
pub open spec fn tool_versions(i: MetadataInputs) -> Seq<(Seq<char>, Seq<char>)> {
    version_entry("heaptrack"@, i.heaptrack_version) + version_entry(
        "heaptrack_print"@,
        i.heaptrack_print_version,
    ) + version_entry("hyperfine"@, i.hyperfine_version) + version_entry("perf"@, i.perf_version)
        + seq![("python"@, i.python_version@)]
}

/// The metadata of a run.
pub open spec fn run_metadata(
    args: RunArgs,
    binary: Seq<char>,
    command: Seq<char>,
    build_command: Option<Seq<char>>,
    selected: Seq<BenchTool>,
    i: MetadataInputs,
) -> MetadataView {
    MetadataView {
        git_commit: i.git_commit@,
        git_branch: if i.git_branch@.len() == 0 {
            "detached"@
        } else {
            i.git_branch@
        },
        dirty: dirty_ignoring_artifacts(i.git_status@),
        ledger_size: args.ledger_size,
        runs: args.runs,
        warmup: args.warmup,
        perf_frequency: args.perf_frequency,
        perf_call_graph: call_graph_name(args.perf_call_graph),
        enabled_tools: selected.map_values(|t: BenchTool| tool_name(t)),
        command,
        binary,
        build_command,
        timestamp_unix_seconds: i.timestamp_unix_seconds,
        tools: tool_versions(i),
    }
}

/// Appends a name/version pair when the version is known.
fn push_version(tools: &mut Vec<(String, String)>, name: &str, v: &Option<String>)
    ensures
        pair_views(final(tools)@) == pair_views(old(tools)@) + version_entry(name@, *v),
{
    match v {
        Some(t) => {
            let ghost before = pair_views(tools@);
            tools.push((name.to_owned(), t.clone()));
            assert(pair_views(tools@) =~= before + version_entry(name@, *v));
        },
        None => {
            assert(pair_views(tools@) =~= pair_views(tools@) + Seq::<(Seq<char>, Seq<char>)>::empty());
        },
    }
}

/// The metadata of a run: its settings, the Git state of the checkout (a
/// detached head recorded as `detached`; dirty only for changes outside
/// `.bench/`), the enabled profilers by name, the published binary and
/// commands, and the program versions.
pub fn metadata(
    args: &RunArgs,
    binary: &str,
    command: &str,
    build_command: Option<String>,
    selected: &Vec<BenchTool>,
    inputs: &MetadataInputs,
) -> (m: Metadata)
    requires
        canonical_tools(selected@),
    ensures
        m@ == run_metadata(*args, binary@, command@, opt_view(build_command), selected@, *inputs),
{
    let git_branch = if inputs.git_branch.as_str().unicode_len() == 0 {
        "detached".to_owned()
    } else {
        inputs.git_branch.clone()
    };
    let mut enabled: Vec<String> = Vec::new();
    let mut i: usize = 0;
    while i < selected.len()
        invariant
            i <= selected.len(),
            arg_views(enabled@) == selected@.take(i as int).map_values(|t: BenchTool| tool_name(t)),
        decreases selected.len() - i,
    {
        let ghost before = arg_views(enabled@);
        enabled.push(selected[i].as_str().to_owned());
        assert(arg_views(enabled@) =~= before.push(tool_name(selected@[i as int])));
        i += 1;
        assert(selected@.take(i as int).map_values(|t: BenchTool| tool_name(t)) =~= selected@.take(
            i - 1,
        ).map_values(|t: BenchTool| tool_name(t)).push(tool_name(selected@[i - 1])));
    }
    assert(selected@.take(selected.len() as int) =~= selected@);
    let mut tools: Vec<(String, String)> = Vec::new();
    assert(pair_views(tools@) =~= Seq::<(Seq<char>, Seq<char>)>::empty());
    push_version(&mut tools, "heaptrack", &inputs.heaptrack_version);
    push_version(&mut tools, "heaptrack_print", &inputs.heaptrack_print_version);
    push_version(&mut tools, "hyperfine", &inputs.hyperfine_version);
    push_version(&mut tools, "perf", &inputs.perf_version);
    let ghost before = pair_views(tools@);
    tools.push(("python".to_owned(), inputs.python_version.clone()));
    assert(pair_views(tools@) =~= before + seq![("python"@, inputs.python_version@)]);
    let m = Metadata {
        git_commit: inputs.git_commit.clone(),
        git_branch,
        dirty: is_dirty_ignoring_artifacts(inputs.git_status.as_str()),
        ledger_size: args.ledger_size,
        runs: args.runs,
        warmup: args.warmup,
        perf_frequency: args.perf_frequency,
        perf_call_graph: args.perf_call_graph.as_str().to_owned(),
        enabled_tools: enabled,
        command: command.to_owned(),
        binary: binary.to_owned(),
        build_command,
        timestamp_unix_seconds: inputs.timestamp_unix_seconds,
        tools,
    };
    assert(m@ =~= run_metadata(*args, binary@, command@, opt_view(build_command), selected@, *inputs));
    m
}

/// The version a program reports: the first line of its standard output, or
/// of its error output when the standard output is empty, trimmed; `unknown`
/// when there is no line.
pub open spec fn version_text(stdout: Seq<char>, stderr: Seq<char>) -> Seq<char> {
    let text = if stdout.len() == 0 {
        stderr
    } else {
        stdout
    };
    if lines(text).len() == 0 {
        "unknown"@
    } else {
        crate::text::trim(lines(text)[0])
    }
}

/// The version line of a program's `--version` output.
pub fn version_line(stdout: &str, stderr: &str) -> (s: String)
    ensures
        s@ == version_text(stdout@, stderr@),
{
    let out = chars_of(stdout);
    let text = if out.len() == 0 {
        chars_of(stderr)
    } else {
        out
    };
    let ls = lines_of(text.as_slice());
    if ls.len() == 0 {
        return "unknown".to_owned();
    }
    string_of(crate::text::trimmed(ls[0].as_slice()).as_slice())
}

/// The backup name of an existing run or report while it is replaced:
/// the path with extension `backup-<pid>` (`Path::with_extension`).
pub open spec fn backup_of(target: Seq<char>, pid: u32) -> Seq<char> {
    with_extension(target, "backup-"@ + dec(pid as nat))
}

/// Executable form of [`backup_of`].
pub fn backup_path(target: &str, pid: u32) -> (s: String)
    requires
        ends_in_name(target@),
    ensures
        s@ == backup_of(target@, pid),
{
    let mut ext = String::new();
    push_str(&mut ext, "backup-");
    push_str(&mut ext, dec_string(pid as u64).as_str());
    with_extension_exec(target, ext.as_str())
}

/// How a finished run takes its place.
#[derive(Clone, Debug)]
pub enum PublishPlan {
    /// Rename the staging directory to the target.
    Move,
    /// Rename the target to the backup, the staging directory to the target
    /// (restoring the backup if that fails), then remove the backup.
    Replace { backup: String },
}

/// Why a finished run cannot take its place.
#[derive(Clone, Copy, Debug, PartialEq, Eq, Structural)]
pub enum PublishError {
    /// The target exists and `--force` was not given.
    AlreadyExists,
}

/// Whether a run may start: when a run with its label already exists, only
/// with `--force`. Checked before anything is built, so that a refused run
/// leaves the existing one untouched and runs nothing.
pub fn check_target(target_exists: bool, force: bool) -> (r: Result<(), PublishError>)
    ensures
        r == if target_exists && !force {
            Err::<(), PublishError>(PublishError::AlreadyExists)
        } else {
            Ok::<(), PublishError>(())
        },
{
    if target_exists && !force {
        Err(PublishError::AlreadyExists)
    } else {
        Ok(())
    }
}

/// Decides how a finished run replaces `target` (a path ending in a name):
/// moved into place when there is nothing there; replaced through a backup
/// only with `--force`.
pub fn publish(target: &str, target_exists: bool, force: bool, pid: u32) -> (r: Result<
    PublishPlan,
    PublishError,
>)
    requires
        ends_in_name(target@),
    ensures
        !target_exists ==> r matches Ok(PublishPlan::Move),
        target_exists && !force ==> r == Err::<PublishPlan, PublishError>(PublishError::AlreadyExists),
        target_exists && force ==> (r matches Ok(PublishPlan::Replace { backup }) && backup@
            == backup_of(target@, pid)),
{
    if !target_exists {
        return Ok(PublishPlan::Move);
    }
    if !force {
        return Err(PublishError::AlreadyExists);
    }
    Ok(PublishPlan::Replace { backup: backup_path(target, pid) })
}

/// The profilers that run are exactly those that `--only` and `--skip`
/// leave, each once and in canonical order; with neither, all three run.
pub proof fn law_selection_follows_only_and_skip(only: Seq<BenchTool>, skip: Seq<BenchTool>)
    ensures
        forall|t: BenchTool| selection(only, skip).contains(t) <==> tool_selected(only, skip, t),
        selection(only, skip).no_duplicates(),
        selection(Seq::empty(), Seq::empty()) == all_tools(),
        canonical_tools(selection(only, skip)),
{
    assert(selection(Seq::empty(), Seq::empty()) =~= all_tools());
    let s = selection(only, skip);
    assert forall|t: BenchTool| s.contains(t) <==> tool_selected(only, skip, t) by {
        if tool_selected(only, skip, t) {
            match t {
                BenchTool::Hyperfine => assert(s[0] == t),
                BenchTool::Perf => {
                    let k: int = if tool_selected(only, skip, BenchTool::Hyperfine) { 1 } else { 0 };
                    assert(s[k] == t);
                },
                BenchTool::Heaptrack => assert(s[s.len() - 1] == t),
            }
        }
    }
}

/// What a step runs a command for, if it runs one.
pub open spec fn step_purpose(s: StepView) -> Option<Purpose> {
    match s {
        StepView::RunLogged { purpose, .. } => Some(purpose),
        StepView::Capture { purpose, .. } => Some(purpose),
        _ => None,
    }
}

/// Whether some step runs a command for `p`.
pub open spec fn has_purpose(steps: Seq<StepView>, p: Purpose) -> bool {
    exists|i: int| 0 <= i < steps.len() && #[trigger] step_purpose(steps[i]) == Some(p)
}

/// A command of two lists put together is a command of one of them.
proof fn lemma_has_purpose_concat(a: Seq<StepView>, b: Seq<StepView>, p: Purpose)
    ensures
        has_purpose(a + b, p) <==> has_purpose(a, p) || has_purpose(b, p),
{
    if has_purpose(a + b, p) {
        let i = choose|i: int| 0 <= i < (a + b).len() && #[trigger] step_purpose((a + b)[i]) == Some(p);
        if i < a.len() {
            assert(step_purpose(a[i]) == Some(p));
        } else {
            assert((a + b)[i] == b[i - a.len()]);
            assert(step_purpose(b[i - a.len()]) == Some(p));
        }
    }
    if has_purpose(a, p) {
        let i = choose|i: int| 0 <= i < a.len() && #[trigger] step_purpose(a[i]) == Some(p);
        assert(step_purpose((a + b)[i]) == Some(p));
    }
    if has_purpose(b, p) {
        let i = choose|i: int| 0 <= i < b.len() && #[trigger] step_purpose(b[i]) == Some(p);
        assert((a + b)[i + a.len()] == b[i]);
        assert(step_purpose((a + b)[i + a.len()]) == Some(p));
    }
}

/// The commands of each part of a run.
proof fn lemma_part_purposes(c: CollectConfig, p: Purpose)
    ensures
        has_purpose(
            seq![
                StepView::WriteGenerator(join(c.stage@, "general-ledger.py"@)),
                StepView::WriteStylesheet(join(c.stage@, "templates/general-ledger.css"@)),
            ],
            p,
        ) == false,
        has_purpose(build_steps(c), p) == (c.external_binary is None && p == Purpose::Build),
        has_purpose(generate_steps(c), p) == (p == Purpose::Generate),
        has_purpose(
            seq![
                StepView::WriteMetadata {
                    path: join(c.stage@, "metadata.json"@),
                    binary: published_binary(c),
                    command: published_command(c),
                    build_command: published_build_command(c),
                },
            ],
            p,
        ) == false,
        has_purpose(hyperfine_steps(c), p) == (c.hyperfine is Some && p == Purpose::Hyperfine),
        has_purpose(perf_steps(c), p) == (c.perf is Some && (p == Purpose::PerfRecord || p
            == Purpose::PerfReport)),
        has_purpose(heaptrack_steps(c), p) == (c.heaptrack is Some && c.heaptrack_print is Some && (
        p == Purpose::HeaptrackRecord || p == Purpose::HeaptrackReport)),
{
    let b = build_steps(c);
    if c.external_binary is None {
        assert(step_purpose(b[2]) == Some(Purpose::Build));
    }
    if has_purpose(b, p) {
        let i = choose|i: int| 0 <= i < b.len() && #[trigger] step_purpose(b[i]) == Some(p);
        assert(i == 2 || step_purpose(b[i]) != Some(p));
    }
    let g = generate_steps(c);
    assert(step_purpose(g[1]) == Some(Purpose::Generate));
    if has_purpose(g, p) {
        let i = choose|i: int| 0 <= i < g.len() && #[trigger] step_purpose(g[i]) == Some(p);
        assert(i == 1 || step_purpose(g[i]) != Some(p));
    }
    let h = hyperfine_steps(c);
    if c.hyperfine is Some {
        assert(step_purpose(h[1]) == Some(Purpose::Hyperfine));
    }
    if has_purpose(h, p) {
        let i = choose|i: int| 0 <= i < h.len() && #[trigger] step_purpose(h[i]) == Some(p);
        assert(i == 1 || step_purpose(h[i]) != Some(p));
    }
    let f = perf_steps(c);
    if c.perf is Some {
        assert(step_purpose(f[1]) == Some(Purpose::PerfRecord));
        assert(step_purpose(f[2]) == Some(Purpose::PerfReport));
    }
    if has_purpose(f, p) {
        let i = choose|i: int| 0 <= i < f.len() && #[trigger] step_purpose(f[i]) == Some(p);
        assert(i == 1 || i == 2 || step_purpose(f[i]) != Some(p));
    }
    let t = heaptrack_steps(c);
    if c.heaptrack is Some && c.heaptrack_print is Some {
        assert(step_purpose(t[1]) == Some(Purpose::HeaptrackRecord));
        assert(step_purpose(t[3]) == Some(Purpose::HeaptrackReport));
    }
    if has_purpose(t, p) {
        let i = choose|i: int| 0 <= i < t.len() && #[trigger] step_purpose(t[i]) == Some(p);
        assert(i == 1 || i == 3 || step_purpose(t[i]) != Some(p));
    }
    let w = seq![
        StepView::WriteGenerator(join(c.stage@, "general-ledger.py"@)),
        StepView::WriteStylesheet(join(c.stage@, "templates/general-ledger.css"@)),
    ];
    if has_purpose(w, p) {
        let i = choose|i: int| 0 <= i < w.len() && #[trigger] step_purpose(w[i]) == Some(p);
        assert(step_purpose(w[i]) != Some(p));
    }
    let m = seq![
        StepView::WriteMetadata {
            path: join(c.stage@, "metadata.json"@),
            binary: published_binary(c),
            command: published_command(c),
            build_command: published_build_command(c),
        },
    ];
    if has_purpose(m, p) {
        let i = choose|i: int| 0 <= i < m.len() && #[trigger] step_purpose(m[i]) == Some(p);
        assert(step_purpose(m[i]) != Some(p));
    }
}

/// Collecting a run builds with `ck package` exactly when no `--binary` is
/// given, always generates the ledger, and runs a profiler's commands
/// exactly when that profiler's program is part of the run (heaptrack
/// needs `heaptrack_print` too).
pub proof fn law_collect_runs_what_is_enabled(c: CollectConfig, p: Purpose)
    ensures
        has_purpose(collect_steps(c), p) <==> match p {
            Purpose::Build => c.external_binary is None,
            Purpose::Generate => true,
            Purpose::Hyperfine => c.hyperfine is Some,
            Purpose::PerfRecord | Purpose::PerfReport => c.perf is Some,
            Purpose::HeaptrackRecord | Purpose::HeaptrackReport => c.heaptrack is Some
                && c.heaptrack_print is Some,
        },
{
    lemma_part_purposes(c, p);
    let w = seq![
        StepView::WriteGenerator(join(c.stage@, "general-ledger.py"@)),
        StepView::WriteStylesheet(join(c.stage@, "templates/general-ledger.css"@)),
    ];
    let m = seq![
        StepView::WriteMetadata {
            path: join(c.stage@, "metadata.json"@),
            binary: published_binary(c),
            command: published_command(c),
            build_command: published_build_command(c),
        },
    ];
    let s1 = w + build_steps(c);
    let s2 = s1 + generate_steps(c);
    let s3 = s2 + m;
    let s4 = s3 + hyperfine_steps(c);
    let s5 = s4 + perf_steps(c);
    lemma_has_purpose_concat(w, build_steps(c), p);
    lemma_has_purpose_concat(s1, generate_steps(c), p);
    lemma_has_purpose_concat(s2, m, p);
    lemma_has_purpose_concat(s3, hyperfine_steps(c), p);
    lemma_has_purpose_concat(s4, perf_steps(c), p);
    lemma_has_purpose_concat(s5, heaptrack_steps(c), p);
    assert(collect_steps(c) == s5 + heaptrack_steps(c));
}

/// Whether `p` names something inside the directory `dir`: `dir` joined to
/// a relative path.
pub open spec fn inside(p: Seq<char>, dir: Seq<char>) -> bool {
    exists|r: Seq<char>| r.len() > 0 && r[0] != '/' && p == #[trigger] join(dir, r)
}

/// Whether the file a step writes (if any) lies inside `dir`.
pub open spec fn writes_inside(s: StepView, dir: Seq<char>) -> bool {
    match s {
        StepView::WriteGenerator(p) => inside(p, dir),
        StepView::WriteStylesheet(p) => inside(p, dir),
        StepView::RunLogged { log, .. } => inside(log, dir),
        StepView::Capture { output, .. } => inside(output, dir),
        StepView::WriteMetadata { path, .. } => inside(path, dir),
        _ => true,
    }
}

/// Whether every file that the steps write lies inside `dir`.
pub open spec fn all_write_inside(steps: Seq<StepView>, dir: Seq<char>) -> bool {
    forall|i: int| 0 <= i < steps.len() ==> writes_inside(#[trigger] steps[i], dir)
}

proof fn lemma_inside(dir: Seq<char>, r: Seq<char>)
    requires
        r.len() > 0,
        r[0] != '/',
    ensures
        inside(join(dir, r), dir),
{
}

proof fn lemma_all_inside_concat(a: Seq<StepView>, b: Seq<StepView>, dir: Seq<char>)
    requires
        all_write_inside(a, dir),
        all_write_inside(b, dir),
    ensures
        all_write_inside(a + b, dir),
{
    assert forall|i: int| 0 <= i < (a + b).len() implies writes_inside(#[trigger] (a + b)[i], dir) by {
        if i < a.len() {
            assert((a + b)[i] == a[i]);
        } else {
            assert((a + b)[i] == b[i - a.len()]);
        }
    }
}

/// Everything that collecting a run writes (the bundled files, every log,
/// every saved output and the metadata) lies inside the staging directory,
/// so a run that fails leaves its partial artifacts there and nowhere else.
pub proof fn law_collect_writes_inside_stage(c: CollectConfig)
    ensures
        all_write_inside(collect_steps(c), c.stage@),
{
    reveal_strlit("general-ledger.py");
    reveal_strlit("templates/general-ledger.css");
    reveal_strlit("build.log");
    reveal_strlit("generator.log");
    reveal_strlit("metadata.json");
    reveal_strlit("hyperfine.log");
    reveal_strlit("perf.log");
    reveal_strlit("perf-report.txt");
    reveal_strlit("heaptrack.log");
    reveal_strlit("heaptrack.txt");
    let d = c.stage@;
    lemma_inside(d, "general-ledger.py"@);
    lemma_inside(d, "templates/general-ledger.css"@);
    lemma_inside(d, "build.log"@);
    lemma_inside(d, "generator.log"@);
    lemma_inside(d, "metadata.json"@);
    lemma_inside(d, "hyperfine.log"@);
    lemma_inside(d, "perf.log"@);
    lemma_inside(d, "perf-report.txt"@);
    lemma_inside(d, "heaptrack.log"@);
    lemma_inside(d, "heaptrack.txt"@);
    let w = seq![
        StepView::WriteGenerator(join(c.stage@, "general-ledger.py"@)),
        StepView::WriteStylesheet(join(c.stage@, "templates/general-ledger.css"@)),
    ];
    let m = seq![
        StepView::WriteMetadata {
            path: join(c.stage@, "metadata.json"@),
            binary: published_binary(c),
            command: published_command(c),
            build_command: published_build_command(c),
        },
    ];
    assert(all_write_inside(w, d));
    assert(all_write_inside(build_steps(c), d));
    assert(all_write_inside(generate_steps(c), d));
    assert(all_write_inside(m, d));
    assert(all_write_inside(hyperfine_steps(c), d));
    assert(all_write_inside(perf_steps(c), d));
    assert(all_write_inside(heaptrack_steps(c), d));
    let s1 = w + build_steps(c);
    let s2 = s1 + generate_steps(c);
    let s3 = s2 + m;
    let s4 = s3 + hyperfine_steps(c);
    let s5 = s4 + perf_steps(c);
    lemma_all_inside_concat(w, build_steps(c), d);
    lemma_all_inside_concat(s1, generate_steps(c), d);
    lemma_all_inside_concat(s2, m, d);
    lemma_all_inside_concat(s3, hyperfine_steps(c), d);
    lemma_all_inside_concat(s4, perf_steps(c), d);
    lemma_all_inside_concat(s5, heaptrack_steps(c), d);
    assert(collect_steps(c) == s5 + heaptrack_steps(c));
}

/// Whether `flag` appears among `args` followed by `value`, and is followed
/// by `value` wherever it appears.
pub open spec fn passes_value(args: Seq<Seq<char>>, flag: Seq<char>, value: Seq<char>) -> bool {
    &&& exists|k: int| 0 <= k && k + 1 < args.len() && #[trigger] args[k] == flag && args[k + 1] == value
    &&& forall|k: int| 0 <= k && k + 1 < args.len() && #[trigger] args[k] == flag ==> args[k + 1] == value
}

/// Whether a step, if it runs Hyperfine, passes it `warmup` as the warmup
/// count and `runs` as the run count.
pub open spec fn hyperfine_counts(s: StepView, warmup: u64, runs: u64) -> bool {
    step_purpose(s) == Some(Purpose::Hyperfine) ==> (s matches StepView::RunLogged { command, .. }
        && passes_value(command.args, "--warmup"@, dec(warmup as nat)) && passes_value(
        command.args,
        "--runs"@,
        dec(runs as nat),
    ))
}

/// Whether every step of a list passes Hyperfine the given counts.
pub open spec fn all_hyperfine_counts(steps: Seq<StepView>, warmup: u64, runs: u64) -> bool {
    forall|i: int| 0 <= i < steps.len() ==> #[trigger] hyperfine_counts(steps[i], warmup, runs)
}

/// Steps that do not run Hyperfine pass it nothing wrong.
proof fn lemma_no_hyperfine_counts(steps: Seq<StepView>, warmup: u64, runs: u64)
    requires
        !has_purpose(steps, Purpose::Hyperfine),
    ensures
        all_hyperfine_counts(steps, warmup, runs),
{
    assert forall|i: int| 0 <= i < steps.len() implies #[trigger] hyperfine_counts(steps[i], warmup, runs) by {
        if step_purpose(steps[i]) == Some(Purpose::Hyperfine) {
            assert(has_purpose(steps, Purpose::Hyperfine));
        }
    }
}

/// The counts of two lists put together.
proof fn lemma_hyperfine_counts_concat(a: Seq<StepView>, b: Seq<StepView>, warmup: u64, runs: u64)
    requires
        all_hyperfine_counts(a, warmup, runs),
        all_hyperfine_counts(b, warmup, runs),
    ensures
        all_hyperfine_counts(a + b, warmup, runs),
{
    assert forall|i: int| 0 <= i < (a + b).len() implies #[trigger] hyperfine_counts((a + b)[i], warmup, runs) by {
        if i < a.len() {
            assert((a + b)[i] == a[i]);
        } else {
            assert((a + b)[i] == b[i - a.len()]);
        }
    }
}

/// A path joined to a relative name is at least as long as the name.
proof fn lemma_join_len(base: Seq<char>, rel: Seq<char>)
    ensures
        join(base, rel).len() >= rel.len(),
{
}

/// The Hyperfine steps pass the run's own counts.
proof fn lemma_hyperfine_steps_counts(c: CollectConfig)
    ensures
        all_hyperfine_counts(hyperfine_steps(c), c.args.warmup, c.args.runs),
{
    match c.hyperfine {
        None => {
            lemma_no_hyperfine_counts(hyperfine_steps(c), c.args.warmup, c.args.runs);
        },
        Some(h) => {
            let steps = hyperfine_steps(c);
            let dw = dec(c.args.warmup as nat);
            let dr = dec(c.args.runs as nat);
            let j = join(c.stage@, "hyperfine.json"@);
            let args = seq![
                "--shell=none"@,
                "--warmup"@,
                dw,
                "--runs"@,
                dr,
                "--export-json"@,
                j,
                benchmark_command(c),
            ];
            reveal_strlit("--shell=none");
            reveal_strlit("--warmup");
            reveal_strlit("--runs");
            reveal_strlit("--export-json");
            reveal_strlit("hyperfine.json");
            crate::number::lemma_dec_digits(c.args.warmup as nat);
            crate::number::lemma_dec_digits(c.args.runs as nat);
            lemma_join_len(c.stage@, "hyperfine.json"@);
            assert(!crate::text::is_digit('-'));
            assert(dw != "--warmup"@ && dw != "--runs"@) by {
                assert(crate::text::is_digit(dw[0]));
            }
            assert(dr != "--warmup"@ && dr != "--runs"@) by {
                assert(crate::text::is_digit(dr[0]));
            }
            assert(j != "--warmup"@ && j != "--runs"@);
            assert("--shell=none"@.len() == 12 && "--export-json"@.len() == 13);
            assert("--warmup"@.len() == 8 && "--runs"@.len() == 6);
            assert("--shell=none"@ != "--warmup"@ && "--shell=none"@ != "--runs"@);
            assert("--export-json"@ != "--warmup"@ && "--export-json"@ != "--runs"@);
            assert("--warmup"@ != "--runs"@);
            assert(steps[1] matches StepView::RunLogged { command, .. } && command.args == args);
            assert(args[1] == "--warmup"@ && args[2] == dw);
            assert(args[3] == "--runs"@ && args[4] == dr);
            assert(passes_value(args, "--warmup"@, dw));
            assert(passes_value(args, "--runs"@, dr));
            assert forall|i: int| 0 <= i < steps.len() implies #[trigger] hyperfine_counts(
                steps[i],
                c.args.warmup,
                c.args.runs,
            ) by {
                if i == 0 {
                    assert(step_purpose(steps[0]) is None);
                }
            }
        },
    }
}

/// Hyperfine gets the run's warmup count after `--warmup` and its run count
/// after `--runs`, in every step that runs it; and it runs when enabled.
pub proof fn law_hyperfine_gets_the_run_counts(c: CollectConfig)
    ensures
        forall|i: int|
            0 <= i < collect_steps(c).len() ==> #[trigger] hyperfine_counts(
                collect_steps(c)[i],
                c.args.warmup,
                c.args.runs,
            ),
        c.hyperfine is Some ==> has_purpose(collect_steps(c), Purpose::Hyperfine),
{
    let (w, r) = (c.args.warmup, c.args.runs);
    let p = Purpose::Hyperfine;
    lemma_part_purposes(c, p);
    law_collect_runs_what_is_enabled(c, p);
    let a = seq![
        StepView::WriteGenerator(join(c.stage@, "general-ledger.py"@)),
        StepView::WriteStylesheet(join(c.stage@, "templates/general-ledger.css"@)),
    ];
    let m = seq![
        StepView::WriteMetadata {
            path: join(c.stage@, "metadata.json"@),
            binary: published_binary(c),
            command: published_command(c),
            build_command: published_build_command(c),
        },
    ];
    lemma_no_hyperfine_counts(a, w, r);
    lemma_no_hyperfine_counts(build_steps(c), w, r);
    lemma_no_hyperfine_counts(generate_steps(c), w, r);
    lemma_no_hyperfine_counts(m, w, r);
    lemma_hyperfine_steps_counts(c);
    lemma_no_hyperfine_counts(perf_steps(c), w, r);
    lemma_no_hyperfine_counts(heaptrack_steps(c), w, r);
    let s1 = a + build_steps(c);
    let s2 = s1 + generate_steps(c);
    let s3 = s2 + m;
    let s4 = s3 + hyperfine_steps(c);
    let s5 = s4 + perf_steps(c);
    lemma_hyperfine_counts_concat(a, build_steps(c), w, r);
    lemma_hyperfine_counts_concat(s1, generate_steps(c), w, r);
    lemma_hyperfine_counts_concat(s2, m, w, r);
    lemma_hyperfine_counts_concat(s3, hyperfine_steps(c), w, r);
    lemma_hyperfine_counts_concat(s4, perf_steps(c), w, r);
    lemma_hyperfine_counts_concat(s5, heaptrack_steps(c), w, r);
    assert(collect_steps(c) == s5 + heaptrack_steps(c));
}

} // verus!
