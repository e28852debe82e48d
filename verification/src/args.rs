//! Reading a command line into a [`Cli`].
//!
//! The grammar: the first token names the program, the second the subcommand;
//! after it come options and positional arguments in any order. A long option
//! is `--name value` or `--name=value`; short options may be clustered
//! (`-fs500`, `-s 500`, `-s=500`); `--` makes every later token positional.
//! A value is taken from the next token only when that token does not start
//! with `-` (a lone `-` is a value). Single-valued options and flags may be
//! given once; `--only` and `--skip` accumulate comma-separated profiler
//! names and cannot be combined.
use vstd::prelude::*;
use crate::cli::{
    copy_tools, BenchTool, Cli, CliView, Command, CommandView, CompareArgs, CompareArgsView, CompareRefsArgs,
    CompareRefsArgsView, CompareWorkingTreeArgs, CompareWorkingTreeArgsView, ExternsMode,
    PerfCallGraph, RefOptions, RefOptionsView, RunArgs, RunArgsView,
};
use crate::number::{parse_u64, parse_u64_chars};
use crate::text::{chars_eq_str, chars_of, piece_views, split_on, split_on_exec, string_of};

verus! {

/// A subcommand.
#[derive(Clone, Copy, Debug, PartialEq, Eq, Structural)]
pub enum Sub {
    Run,
    Compare,
    CompareRefs,
    CompareWorkingTree,
}

/// An option of some subcommand.
#[derive(Clone, Copy, Debug, PartialEq, Eq, Structural)]
pub enum Opt {
    LedgerSize,
    Runs,
    Warmup,
    PerfFrequency,
    CallGraph,
    Only,
    Skip,
    Binary,
    Externs,
    Force,
    Help,
}

/// Why a command line was not accepted, or that it asks for help or the version.
#[derive(Clone, Debug)]
pub enum CliError {
    /// `--help` or `help`: show the full help of the subcommand, or the general help.
    DisplayHelp(Option<Sub>),
    /// `-h`: show the brief help of the subcommand, or the general help in brief.
    DisplayShortHelp(Option<Sub>),
    /// `--version` or `-V` before any subcommand.
    DisplayVersion,
    /// No subcommand was given.
    MissingSubcommand,
    /// The subcommand is not one of the four.
    UnknownSubcommand(String),
    /// An option that the subcommand does not have.
    UnknownArgument(String),
    /// An option that needs a value came without one.
    MissingValue(Opt),
    /// A flag came with a value.
    UnexpectedValue(Opt),
    /// A value that the option does not accept.
    InvalidValue(Opt, String),
    /// A single-valued option or a flag given twice.
    RepeatedArgument(Opt),
    /// `--only` together with `--skip`.
    ArgumentConflict,
    /// More positional arguments than the subcommand takes.
    UnexpectedPositional(String),
    /// The positional argument at this index is missing.
    MissingPositional(Sub, usize),
}

/// [`CliError`] with its strings as character sequences.
#[verifier::ext_equal]
pub enum CliErrorView {
    DisplayHelp(Option<Sub>),
    DisplayShortHelp(Option<Sub>),
    DisplayVersion,
    MissingSubcommand,
    UnknownSubcommand(Seq<char>),
    UnknownArgument(Seq<char>),
    MissingValue(Opt),
    UnexpectedValue(Opt),
    InvalidValue(Opt, Seq<char>),
    RepeatedArgument(Opt),
    ArgumentConflict,
    UnexpectedPositional(Seq<char>),
    MissingPositional(Sub, usize),
}

impl View for CliError {
    type V = CliErrorView;

    open spec fn view(&self) -> CliErrorView {
        match self {
            CliError::DisplayHelp(s) => CliErrorView::DisplayHelp(*s),
            CliError::DisplayShortHelp(s) => CliErrorView::DisplayShortHelp(*s),
            CliError::DisplayVersion => CliErrorView::DisplayVersion,
            CliError::MissingSubcommand => CliErrorView::MissingSubcommand,
            CliError::UnknownSubcommand(t) => CliErrorView::UnknownSubcommand(t@),
            CliError::UnknownArgument(t) => CliErrorView::UnknownArgument(t@),
            CliError::MissingValue(o) => CliErrorView::MissingValue(*o),
            CliError::UnexpectedValue(o) => CliErrorView::UnexpectedValue(*o),
            CliError::InvalidValue(o, v) => CliErrorView::InvalidValue(*o, v@),
            CliError::RepeatedArgument(o) => CliErrorView::RepeatedArgument(*o),
            CliError::ArgumentConflict => CliErrorView::ArgumentConflict,
            CliError::UnexpectedPositional(t) => CliErrorView::UnexpectedPositional(t@),
            CliError::MissingPositional(s, i) => CliErrorView::MissingPositional(*s, *i),
        }
    }
}

/// The subcommand that a token names.
pub open spec fn sub_named(t: Seq<char>) -> Option<Sub> {
    if t == "run"@ {
        Some(Sub::Run)
    } else if t == "compare"@ {
        Some(Sub::Compare)
    } else if t == "compare-refs"@ {
        Some(Sub::CompareRefs)
    } else if t == "compare-working-tree"@ {
        Some(Sub::CompareWorkingTree)
    } else {
        None
    }
}

/// The long name of an option, without its `--`.
pub open spec fn long_name(o: Opt) -> Seq<char> {
    match o {
        Opt::LedgerSize => "ledger-size"@,
        Opt::Runs => "runs"@,
        Opt::Warmup => "warmup"@,
        Opt::PerfFrequency => "perf-frequency"@,
        Opt::CallGraph => "perf-call-graph"@,
        Opt::Only => "only"@,
        Opt::Skip => "skip"@,
        Opt::Binary => "binary"@,
        Opt::Externs => "externs"@,
        Opt::Force => "force"@,
        Opt::Help => "help"@,
    }
}

/// The short name of an option, where it has one.
pub open spec fn short_name(o: Opt) -> Option<char> {
    match o {
        Opt::LedgerSize => Some('s'),
        Opt::Runs => Some('r'),
        Opt::Warmup => Some('w'),
        Opt::Binary => Some('b'),
        Opt::Force => Some('f'),
        Opt::Help => Some('h'),
        _ => None,
    }
}

/// Whether an option takes a value (the others are flags).
pub open spec fn takes_value(o: Opt) -> bool {
    !(o is Force || o is Help)
}

/// Whether a subcommand has an option.
pub open spec fn accepts(sub: Sub, o: Opt) -> bool {
    match sub {
        Sub::Run => !(o is Externs),
        Sub::Compare => o is Help,
        _ => !(o is Binary),
    }
}

/// How many positional arguments a subcommand takes.
pub open spec fn max_positionals(sub: Sub) -> nat {
    match sub {
        Sub::Run => 1,
        Sub::Compare => 2,
        Sub::CompareRefs => 2,
        Sub::CompareWorkingTree => 1,
    }
}

/// The options in the order in which names are looked up.
pub open spec fn all_opts() -> Seq<Opt> {
    seq![
        Opt::LedgerSize,
        Opt::Runs,
        Opt::Warmup,
        Opt::PerfFrequency,
        Opt::CallGraph,
        Opt::Only,
        Opt::Skip,
        Opt::Binary,
        Opt::Externs,
        Opt::Force,
        Opt::Help,
    ]
}

/// The first option from position `k` of [`all_opts`] that `sub` has and that is called `name`.
pub open spec fn find_long_from(sub: Sub, name: Seq<char>, k: int) -> Option<Opt>
    decreases 11 - k,
{
    if k < 0 || k >= 11 {
        None
    } else if accepts(sub, all_opts()[k]) && long_name(all_opts()[k]) == name {
        Some(all_opts()[k])
    } else {
        find_long_from(sub, name, k + 1)
    }
}

/// The option of `sub` whose long name is `name`.
pub open spec fn find_long(sub: Sub, name: Seq<char>) -> Option<Opt> {
    find_long_from(sub, name, 0)
}

/// The first option from position `k` of [`all_opts`] that `sub` has and whose short name is `c`.
pub open spec fn find_short_from(sub: Sub, c: char, k: int) -> Option<Opt>
    decreases 11 - k,
{
    if k < 0 || k >= 11 {
        None
    } else if accepts(sub, all_opts()[k]) && short_name(all_opts()[k]) == Some(c) {
        Some(all_opts()[k])
    } else {
        find_short_from(sub, c, k + 1)
    }
}

/// The option of `sub` whose short name is `c`.
pub open spec fn find_short(sub: Sub, c: char) -> Option<Opt> {
    find_short_from(sub, c, 0)
}

/// The call-graph mode that a value names.
pub open spec fn parse_call_graph(v: Seq<char>) -> Option<PerfCallGraph> {
    if v == "dwarf"@ {
        Some(PerfCallGraph::Dwarf)
    } else if v == "fp"@ {
        Some(PerfCallGraph::Fp)
    } else if v == "lbr"@ {
        Some(PerfCallGraph::Lbr)
    } else {
        None
    }
}

/// The profiler that a value names.
pub open spec fn parse_tool(v: Seq<char>) -> Option<BenchTool> {
    if v == "hyperfine"@ {
        Some(BenchTool::Hyperfine)
    } else if v == "perf"@ {
        Some(BenchTool::Perf)
    } else if v == "heaptrack"@ {
        Some(BenchTool::Heaptrack)
    } else {
        None
    }
}

/// The externs mode that a value names.
pub open spec fn parse_externs(v: Seq<char>) -> Option<ExternsMode> {
    if v == "local"@ {
        Some(ExternsMode::Local)
    } else if v == "fresh"@ {
        Some(ExternsMode::Fresh)
    } else {
        None
    }
}

/// The profilers that the pieces name, if each piece names one.
pub open spec fn parse_tool_list(parts: Seq<Seq<char>>) -> Option<Seq<BenchTool>>
    decreases parts.len(),
{
    if parts.len() == 0 {
        Some(Seq::<BenchTool>::empty())
    } else {
        match (parse_tool_list(parts.drop_last()), parse_tool(parts.last())) {
            (Some(ts), Some(t)) => Some(ts.push(t)),
            _ => None,
        }
    }
}

/// The profilers that a comma-separated value names.
pub open spec fn parse_tools(v: Seq<char>) -> Option<Seq<BenchTool>> {
    parse_tool_list(split_on(v, ','))
}

/// The least value that a numeric option accepts.
pub open spec fn min_value(o: Opt) -> u64 {
    match o {
        Opt::LedgerSize => 100,
        Opt::Runs => 1,
        Opt::PerfFrequency => 1,
        _ => 0,
    }
}

/// A numeric option's value, if it is a number no less than the option's minimum.
pub open spec fn parse_count(o: Opt, v: Seq<char>) -> Option<u64> {
    match parse_u64(v) {
        Some(n) => if n >= min_value(o) {
            Some(n)
        } else {
            None
        },
        None => None,
    }
}

/// What the options and positional arguments read so far have set.
#[verifier::ext_equal]
pub struct SeenView {
    pub ledger_size: Option<u64>,
    pub runs: Option<u64>,
    pub warmup: Option<u64>,
    pub perf_frequency: Option<u64>,
    pub perf_call_graph: Option<PerfCallGraph>,
    pub only: Option<Seq<BenchTool>>,
    pub skip: Option<Seq<BenchTool>>,
    pub binary: Option<Seq<char>>,
    pub externs: Option<ExternsMode>,
    pub force: bool,
    pub positionals: Seq<Seq<char>>,
}

/// Nothing read yet.
pub open spec fn seen_empty() -> SeenView {
    SeenView {
        ledger_size: None,
        runs: None,
        warmup: None,
        perf_frequency: None,
        perf_call_graph: None,
        only: None,
        skip: None,
        binary: None,
        externs: None,
        force: false,
        positionals: Seq::empty(),
    }
}

/// The value already read for a numeric option.
pub open spec fn count_slot(seen: SeenView, o: Opt) -> Option<u64> {
    match o {
        Opt::LedgerSize => seen.ledger_size,
        Opt::Runs => seen.runs,
        Opt::Warmup => seen.warmup,
        _ => seen.perf_frequency,
    }
}

/// `seen` with a numeric option set to `n`.
pub open spec fn with_count(seen: SeenView, o: Opt, n: u64) -> SeenView {
    match o {
        Opt::LedgerSize => SeenView { ledger_size: Some(n), ..seen },
        Opt::Runs => SeenView { runs: Some(n), ..seen },
        Opt::Warmup => SeenView { warmup: Some(n), ..seen },
        _ => SeenView { perf_frequency: Some(n), ..seen },
    }
}

/// A list read so far, empty when the option was not given.
pub open spec fn list_or_empty(l: Option<Seq<BenchTool>>) -> Seq<BenchTool> {
    match l {
        Some(t) => t,
        None => Seq::empty(),
    }
}

/// Reading the value `v` of option `o`.
pub open spec fn record_value(seen: SeenView, o: Opt, v: Seq<char>) -> Result<SeenView, CliErrorView> {
    match o {
        Opt::LedgerSize | Opt::Runs | Opt::Warmup | Opt::PerfFrequency => {
            if count_slot(seen, o) is Some {
                Err(CliErrorView::RepeatedArgument(o))
            } else {
                match parse_count(o, v) {
                    Some(n) => Ok(with_count(seen, o, n)),
                    None => Err(CliErrorView::InvalidValue(o, v)),
                }
            }
        },
        Opt::CallGraph => {
            if seen.perf_call_graph is Some {
                Err(CliErrorView::RepeatedArgument(o))
            } else {
                match parse_call_graph(v) {
                    Some(m) => Ok(SeenView { perf_call_graph: Some(m), ..seen }),
                    None => Err(CliErrorView::InvalidValue(o, v)),
                }
            }
        },
        Opt::Only => match parse_tools(v) {
            Some(ts) => Ok(SeenView { only: Some(list_or_empty(seen.only) + ts), ..seen }),
            None => Err(CliErrorView::InvalidValue(o, v)),
        },
        Opt::Skip => match parse_tools(v) {
            Some(ts) => Ok(SeenView { skip: Some(list_or_empty(seen.skip) + ts), ..seen }),
            None => Err(CliErrorView::InvalidValue(o, v)),
        },
        Opt::Binary => {
            if seen.binary is Some {
                Err(CliErrorView::RepeatedArgument(o))
            } else if v.len() == 0 {
                Err(CliErrorView::InvalidValue(o, v))
            } else {
                Ok(SeenView { binary: Some(v), ..seen })
            }
        },
        Opt::Externs => {
            if seen.externs is Some {
                Err(CliErrorView::RepeatedArgument(o))
            } else {
                match parse_externs(v) {
                    Some(m) => Ok(SeenView { externs: Some(m), ..seen }),
                    None => Err(CliErrorView::InvalidValue(o, v)),
                }
            }
        },
        _ => Err(CliErrorView::UnexpectedValue(o)),
    }
}

/// Reading the flag `o` (only `--force` is an ordinary flag).
pub open spec fn record_flag(seen: SeenView, o: Opt) -> Result<SeenView, CliErrorView> {
    if seen.force {
        Err(CliErrorView::RepeatedArgument(o))
    } else {
        Ok(SeenView { force: true, ..seen })
    }
}

/// Reading the positional argument `t`.
pub open spec fn add_positional(sub: Sub, seen: SeenView, t: Seq<char>) -> Result<SeenView, CliErrorView> {
    if seen.positionals.len() >= max_positionals(sub) {
        Err(CliErrorView::UnexpectedPositional(t))
    } else {
        Ok(SeenView { positionals: seen.positionals.push(t), ..seen })
    }
}

/// Whether a token is an option or a cluster of short options.
pub open spec fn is_option_like(t: Seq<char>) -> bool {
    t.len() >= 2 && t[0] == '-'
}

/// Whether a token may serve as the value of the option before it.
pub open spec fn can_be_value(t: Seq<char>) -> bool {
    t.len() == 0 || t[0] != '-' || t.len() == 1
}

/// Reading option `o` found in token `i`, with the value attached to it, if any;
/// also says whether the next token was taken as the value.
pub open spec fn take_option(
    sub: Sub,
    toks: Seq<Seq<char>>,
    i: int,
    seen: SeenView,
    o: Opt,
    inline: Option<Seq<char>>,
) -> Result<(SeenView, bool), CliErrorView> {
    if o is Help {
        Err(CliErrorView::DisplayHelp(Some(sub)))
    } else if !takes_value(o) {
        match inline {
            Some(_) => Err(CliErrorView::UnexpectedValue(o)),
            None => match record_flag(seen, o) {
                Ok(s) => Ok((s, false)),
                Err(e) => Err(e),
            },
        }
    } else {
        match inline {
            Some(v) => match record_value(seen, o, v) {
                Ok(s) => Ok((s, false)),
                Err(e) => Err(e),
            },
            None => if i + 1 < toks.len() && can_be_value(toks[i + 1]) {
                match record_value(seen, o, toks[i + 1]) {
                    Ok(s) => Ok((s, true)),
                    Err(e) => Err(e),
                }
            } else {
                Err(CliErrorView::MissingValue(o))
            },
        }
    }
}

/// A value attached to a short option, without a leading `=`.
pub open spec fn strip_eq(rest: Seq<char>) -> Seq<char> {
    if rest.len() > 0 && rest[0] == '=' {
        rest.drop_first()
    } else {
        rest
    }
}

/// Reading the short options of token `i` from its character `j` on.
pub open spec fn short_cluster(
    sub: Sub,
    toks: Seq<Seq<char>>,
    i: int,
    j: int,
    seen: SeenView,
) -> Result<(SeenView, bool), CliErrorView>
    decreases toks[i].len() - j,
{
    let t = toks[i];
    if j < 1 || j >= t.len() {
        Ok((seen, false))
    } else {
        match find_short(sub, t[j]) {
            None => Err(CliErrorView::UnknownArgument(seq!['-', t[j]])),
            Some(o) => if o is Help {
                Err(CliErrorView::DisplayShortHelp(Some(sub)))
            } else if !takes_value(o) {
                match record_flag(seen, o) {
                    Ok(s) => short_cluster(sub, toks, i, j + 1, s),
                    Err(e) => Err(e),
                }
            } else {
                let rest = t.skip(j + 1);
                take_option(
                    sub,
                    toks,
                    i,
                    seen,
                    o,
                    if rest.len() > 0 {
                        Some(strip_eq(rest))
                    } else {
                        None
                    },
                )
            },
        }
    }
}

/// Whether `k` is the position of the first `=` in `s`.
pub open spec fn first_eq_at(s: Seq<char>, k: int) -> bool {
    0 <= k < s.len() && s[k] == '=' && forall|j: int| 0 <= j < k ==> s[j] != '='
}

/// The position of the first `=` in `s`, or its length when there is none.
pub open spec fn eq_pos(s: Seq<char>) -> int {
    if exists|k: int| first_eq_at(s, k) {
        choose|k: int| first_eq_at(s, k)
    } else {
        s.len() as int
    }
}

/// Reading the option token `i` (a long option or a cluster of short ones).
pub open spec fn step_option(sub: Sub, toks: Seq<Seq<char>>, i: int, seen: SeenView) -> Result<
    (SeenView, bool),
    CliErrorView,
> {
    let t = toks[i];
    if t[1] == '-' {
        let body = t.skip(2);
        let p = eq_pos(body);
        let inline = if p < body.len() {
            Some(body.skip(p + 1))
        } else {
            None
        };
        match find_long(sub, body.take(p)) {
            None => Err(CliErrorView::UnknownArgument(t.take(p + 2))),
            Some(o) => take_option(sub, toks, i, seen, o, inline),
        }
    } else {
        short_cluster(sub, toks, i, 1, seen)
    }
}

/// Reading the tokens of a subcommand from token `i` on; `raw` once `--` was seen.
pub open spec fn scan(sub: Sub, toks: Seq<Seq<char>>, i: int, seen: SeenView, raw: bool) -> Result<
    SeenView,
    CliErrorView,
>
    decreases toks.len() - i,
{
    if i < 0 || i >= toks.len() {
        Ok(seen)
    } else if raw || !is_option_like(toks[i]) {
        match add_positional(sub, seen, toks[i]) {
            Ok(s) => scan(sub, toks, i + 1, s, raw),
            Err(e) => Err(e),
        }
    } else if toks[i] == seq!['-', '-'] {
        scan(sub, toks, i + 1, seen, true)
    } else {
        match step_option(sub, toks, i, seen) {
            Ok((s, took)) => scan(
                sub,
                toks,
                if took && i + 2 <= toks.len() {
                    i + 2
                } else {
                    i + 1
                },
                s,
                false,
            ),
            Err(e) => Err(e),
        }
    }
}

/// A numeric option's value, or its default.
pub open spec fn or_default(v: Option<u64>, d: u64) -> u64 {
    match v {
        Some(n) => n,
        None => d,
    }
}

/// The shared benchmark settings of the Git comparisons.
pub open spec fn ref_options(seen: SeenView) -> RefOptionsView {
    RefOptionsView {
        ledger_size: or_default(seen.ledger_size, 2000),
        runs: or_default(seen.runs, 5),
        warmup: or_default(seen.warmup, 1),
        perf_frequency: or_default(seen.perf_frequency, 997),
        perf_call_graph: match seen.perf_call_graph {
            Some(m) => m,
            None => PerfCallGraph::Dwarf,
        },
        only: list_or_empty(seen.only),
        skip: list_or_empty(seen.skip),
        externs: match seen.externs {
            Some(m) => m,
            None => ExternsMode::Local,
        },
        force: seen.force,
    }
}

/// The arguments of a subcommand once all its tokens are read: `--only`
/// conflicts with `--skip`, required positional arguments must be there, and
/// options that were not given take their defaults.
pub open spec fn finish(sub: Sub, seen: SeenView) -> Result<CliView, CliErrorView> {
    let opts = ref_options(seen);
    let pos = seen.positionals;
    if seen.only is Some && seen.skip is Some {
        Err(CliErrorView::ArgumentConflict)
    } else {
        match sub {
            Sub::Run => if pos.len() < 1 {
                Err(CliErrorView::MissingPositional(sub, 0))
            } else {
                Ok(
                    CliView {
                        command: CommandView::Run(
                            RunArgsView {
                                label: pos[0],
                                ledger_size: opts.ledger_size,
                                runs: opts.runs,
                                warmup: opts.warmup,
                                perf_frequency: opts.perf_frequency,
                                perf_call_graph: opts.perf_call_graph,
                                only: opts.only,
                                skip: opts.skip,
                                binary: seen.binary,
                                force: seen.force,
                            },
                        ),
                    },
                )
            },
            Sub::Compare => if pos.len() < 2 {
                Err(CliErrorView::MissingPositional(sub, pos.len() as usize))
            } else {
                Ok(
                    CliView {
                        command: CommandView::Compare(
                            CompareArgsView { before: pos[0], after: pos[1] },
                        ),
                    },
                )
            },
            Sub::CompareRefs => if pos.len() < 2 {
                Err(CliErrorView::MissingPositional(sub, pos.len() as usize))
            } else {
                Ok(
                    CliView {
                        command: CommandView::CompareRefs(
                            CompareRefsArgsView {
                                before_ref: pos[0],
                                after_ref: pos[1],
                                options: opts,
                            },
                        ),
                    },
                )
            },
            Sub::CompareWorkingTree => Ok(
                CliView {
                    command: CommandView::CompareWorkingTree(
                        CompareWorkingTreeArgsView {
                            base_ref: if pos.len() > 0 {
                                pos[0]
                            } else {
                                "HEAD"@
                            },
                            options: opts,
                        },
                    ),
                },
            ),
        }
    }
}

/// What a whole command line (program name first) reads as.
pub open spec fn parse_cli(args: Seq<Seq<char>>) -> Result<CliView, CliErrorView> {
    if args.len() < 2 {
        Err(CliErrorView::MissingSubcommand)
    } else {
        let t = args[1];
        if t == "-h"@ {
            Err(CliErrorView::DisplayShortHelp(None))
        } else if t == "--help"@ {
            Err(CliErrorView::DisplayHelp(None))
        } else if t == "-V"@ || t == "--version"@ {
            Err(CliErrorView::DisplayVersion)
        } else if t == "help"@ {
            if args.len() > 2 {
                match sub_named(args[2]) {
                    Some(s) => Err(CliErrorView::DisplayHelp(Some(s))),
                    None => Err(CliErrorView::UnknownSubcommand(args[2])),
                }
            } else {
                Err(CliErrorView::DisplayHelp(None))
            }
        } else {
            match sub_named(t) {
                None => if is_option_like(t) {
                    Err(CliErrorView::UnknownArgument(t))
                } else {
                    Err(CliErrorView::UnknownSubcommand(t))
                },
                Some(sub) => match scan(sub, args.skip(2), 0, seen_empty(), false) {
                    Ok(seen) => finish(sub, seen),
                    Err(e) => Err(e),
                },
            }
        }
    }
}

/// The texts of the command-line arguments.
pub open spec fn arg_views(args: Seq<String>) -> Seq<Seq<char>> {
    args.map_values(|a: String| a@)
}

/// The texts of tokens held as characters.
pub open spec fn token_views(toks: Seq<Vec<char>>) -> Seq<Seq<char>> {
    toks.map_values(|t: Vec<char>| t@)
}

/// The subcommand that a token names.
fn sub_of(t: &[char]) -> (r: Option<Sub>)
    ensures
        r == sub_named(t@),
{
    if chars_eq_str(t, "run") {
        Some(Sub::Run)
    } else if chars_eq_str(t, "compare") {
        Some(Sub::Compare)
    } else if chars_eq_str(t, "compare-refs") {
        Some(Sub::CompareRefs)
    } else if chars_eq_str(t, "compare-working-tree") {
        Some(Sub::CompareWorkingTree)
    } else {
        None
    }
}

/// The option at position `k` of [`all_opts`].
fn opt_at(k: usize) -> (o: Opt)
    requires
        k < 11,
    ensures
        o == all_opts()[k as int],
{
    if k == 0 {
        Opt::LedgerSize
    } else if k == 1 {
        Opt::Runs
    } else if k == 2 {
        Opt::Warmup
    } else if k == 3 {
        Opt::PerfFrequency
    } else if k == 4 {
        Opt::CallGraph
    } else if k == 5 {
        Opt::Only
    } else if k == 6 {
        Opt::Skip
    } else if k == 7 {
        Opt::Binary
    } else if k == 8 {
        Opt::Externs
    } else if k == 9 {
        Opt::Force
    } else {
        Opt::Help
    }
}

/// Executable form of [`accepts`].
fn accepts_exec(sub: Sub, o: Opt) -> (b: bool)
    ensures
        b == accepts(sub, o),
{
    match sub {
        Sub::Run => !matches!(o, Opt::Externs),
        Sub::Compare => matches!(o, Opt::Help),
        _ => !matches!(o, Opt::Binary),
    }
}

/// Executable form of [`takes_value`].
fn takes_value_exec(o: Opt) -> (b: bool)
    ensures
        b == takes_value(o),
{
    !matches!(o, Opt::Force | Opt::Help)
}

impl Opt {
    /// The option's long name, without its `--`.
    pub fn long_name(self) -> (s: &'static str)
        ensures
            s@ == long_name(self),
    {
        match self {
            Opt::LedgerSize => "ledger-size",
            Opt::Runs => "runs",
            Opt::Warmup => "warmup",
            Opt::PerfFrequency => "perf-frequency",
            Opt::CallGraph => "perf-call-graph",
            Opt::Only => "only",
            Opt::Skip => "skip",
            Opt::Binary => "binary",
            Opt::Externs => "externs",
            Opt::Force => "force",
            Opt::Help => "help",
        }
    }

    /// The option's short name, where it has one.
    pub fn short_name(self) -> (c: Option<char>)
        ensures
            c == short_name(self),
    {
        match self {
            Opt::LedgerSize => Some('s'),
            Opt::Runs => Some('r'),
            Opt::Warmup => Some('w'),
            Opt::Binary => Some('b'),
            Opt::Force => Some('f'),
            Opt::Help => Some('h'),
            _ => None,
        }
    }
}

/// Executable form of [`find_long`].
fn find_long_exec(sub: Sub, name: &[char]) -> (r: Option<Opt>)
    ensures
        r == find_long(sub, name@),
{
    let mut k: usize = 0;
    while k < 11
        invariant
            k <= 11,
            find_long(sub, name@) == find_long_from(sub, name@, k as int),
        decreases 11 - k,
    {
        let o = opt_at(k);
        if accepts_exec(sub, o) && chars_eq_str(name, o.long_name()) {
            return Some(o);
        }
        k += 1;
    }
    None
}

/// Executable form of [`find_short`].
fn find_short_exec(sub: Sub, c: char) -> (r: Option<Opt>)
    ensures
        r == find_short(sub, c),
{
    let mut k: usize = 0;
    while k < 11
        invariant
            k <= 11,
            find_short(sub, c) == find_short_from(sub, c, k as int),
        decreases 11 - k,
    {
        let o = opt_at(k);
        if accepts_exec(sub, o) && o.short_name() == Some(c) {
            return Some(o);
        }
        k += 1;
    }
    None
}

/// Executable form of [`parse_call_graph`].
fn parse_call_graph_exec(v: &[char]) -> (r: Option<PerfCallGraph>)
    ensures
        r == parse_call_graph(v@),
{
    if chars_eq_str(v, "dwarf") {
        Some(PerfCallGraph::Dwarf)
    } else if chars_eq_str(v, "fp") {
        Some(PerfCallGraph::Fp)
    } else if chars_eq_str(v, "lbr") {
        Some(PerfCallGraph::Lbr)
    } else {
        None
    }
}

/// Executable form of [`parse_tool`].
fn parse_tool_exec(v: &[char]) -> (r: Option<BenchTool>)
    ensures
        r == parse_tool(v@),
{
    if chars_eq_str(v, "hyperfine") {
        Some(BenchTool::Hyperfine)
    } else if chars_eq_str(v, "perf") {
        Some(BenchTool::Perf)
    } else if chars_eq_str(v, "heaptrack") {
        Some(BenchTool::Heaptrack)
    } else {
        None
    }
}

/// Executable form of [`parse_externs`].
fn parse_externs_exec(v: &[char]) -> (r: Option<ExternsMode>)
    ensures
        r == parse_externs(v@),
{
    if chars_eq_str(v, "local") {
        Some(ExternsMode::Local)
    } else if chars_eq_str(v, "fresh") {
        Some(ExternsMode::Fresh)
    } else {
        None
    }
}

/// Each prefix of a list of valid profiler names is itself valid.
proof fn lemma_tool_list_prefix(parts: Seq<Seq<char>>, k: int)
    requires
        parse_tool_list(parts) is Some,
        0 <= k <= parts.len(),
    ensures
        parse_tool_list(parts.take(k)) is Some,
    decreases parts.len(),
{
    if k == parts.len() {
        assert(parts.take(k) =~= parts);
    } else {
        assert(parts.drop_last().take(k) =~= parts.take(k));
        lemma_tool_list_prefix(parts.drop_last(), k);
    }
}

/// Executable form of [`parse_tools`].
fn parse_tools_exec(v: &[char]) -> (r: Option<Vec<BenchTool>>)
    ensures
        match r {
            Some(ts) => parse_tools(v@) == Some(ts@),
            None => parse_tools(v@) is None,
        },
{
    let parts = split_on_exec(v, ',');
    let ghost pv = token_views(parts@);
    assert(pv =~= piece_views(parts@));
    let mut acc: Vec<BenchTool> = Vec::new();
    let mut k: usize = 0;
    assert(pv.take(0) =~= Seq::<Seq<char>>::empty());
    while k < parts.len()
        invariant
            k <= parts.len(),
            pv == token_views(parts@),
            pv == split_on(v@, ','),
            parse_tool_list(pv.take(k as int)) == Some(acc@),
        decreases parts.len() - k,
    {
        assert(pv.take(k + 1).drop_last() =~= pv.take(k as int));
        assert(pv.take(k + 1).last() == parts@[k as int]@);
        match parse_tool_exec(parts[k].as_slice()) {
            Some(t) => {
                acc.push(t);
            },
            None => {
                proof {
                    if parse_tool_list(pv) is Some {
                        lemma_tool_list_prefix(pv, k + 1);
                    }
                }
                return None;
            },
        }
        k += 1;
    }
    assert(pv.take(parts.len() as int) =~= pv);
    Some(acc)
}

/// Executable form of [`parse_count`].
fn parse_count_exec(o: Opt, v: &[char]) -> (r: Option<u64>)
    ensures
        r == parse_count(o, v@),
{
    let least: u64 = match o {
        Opt::LedgerSize => 100,
        Opt::Runs => 1,
        Opt::PerfFrequency => 1,
        _ => 0,
    };
    match parse_u64_chars(v) {
        Some(n) => if n >= least {
            Some(n)
        } else {
            None
        },
        None => None,
    }
}

/// A copy of some characters.
fn copy_chars(v: &[char]) -> (r: Vec<char>)
    ensures
        r@ == v@,
{
    let r = crate::text::slice_from(v, 0);
    assert(v@.skip(0) =~= v@);
    r
}

/// What the options and positional arguments read so far have set.
struct Seen {
    ledger_size: Option<u64>,
    runs: Option<u64>,
    warmup: Option<u64>,
    perf_frequency: Option<u64>,
    perf_call_graph: Option<PerfCallGraph>,
    only: Option<Vec<BenchTool>>,
    skip: Option<Vec<BenchTool>>,
    binary: Option<Vec<char>>,
    externs: Option<ExternsMode>,
    force: bool,
    positionals: Vec<Vec<char>>,
}

/// The contents of an optional list.
spec fn opt_tools(l: Option<Vec<BenchTool>>) -> Option<Seq<BenchTool>> {
    match l {
        Some(v) => Some(v@),
        None => None,
    }
}

/// The contents of optional characters.
pub open spec fn opt_chars(l: Option<Vec<char>>) -> Option<Seq<char>> {
    match l {
        Some(v) => Some(v@),
        None => None,
    }
}

impl View for Seen {
    type V = SeenView;

    closed spec fn view(&self) -> SeenView {
        SeenView {
            ledger_size: self.ledger_size,
            runs: self.runs,
            warmup: self.warmup,
            perf_frequency: self.perf_frequency,
            perf_call_graph: self.perf_call_graph,
            only: opt_tools(self.only),
            skip: opt_tools(self.skip),
            binary: opt_chars(self.binary),
            externs: self.externs,
            force: self.force,
            positionals: token_views(self.positionals@),
        }
    }
}

impl Seen {
    /// Nothing read yet.
    fn new() -> (s: Seen)
        ensures
            s@ == seen_empty(),
    {
        let s = Seen {
            ledger_size: None,
            runs: None,
            warmup: None,
            perf_frequency: None,
            perf_call_graph: None,
            only: None,
            skip: None,
            binary: None,
            externs: None,
            force: false,
            positionals: Vec::new(),
        };
        assert(token_views(s.positionals@) =~= Seq::<Seq<char>>::empty());
        s
    }
}

/// `current` followed by `more`.
fn extend_tools(current: &Option<Vec<BenchTool>>, more: Vec<BenchTool>) -> (r: Vec<BenchTool>)
    ensures
        r@ == list_or_empty(opt_tools(*current)) + more@,
{
    let mut r = match current {
        Some(c) => copy_tools(c),
        None => Vec::new(),
    };
    let mut more = more;
    r.append(&mut more);
    r
}

/// Executable form of [`record_value`].
fn record_value_exec(seen: &mut Seen, o: Opt, v: &[char]) -> (r: Result<(), CliError>)
    ensures
        match r {
            Ok(_) => record_value(old(seen)@, o, v@) == Ok::<SeenView, CliErrorView>(final(seen)@),
            Err(e) => record_value(old(seen)@, o, v@) == Err::<SeenView, CliErrorView>(e@),
        },
{
    match o {
        Opt::LedgerSize | Opt::Runs | Opt::Warmup | Opt::PerfFrequency => {
            let slot = match o {
                Opt::LedgerSize => seen.ledger_size,
                Opt::Runs => seen.runs,
                Opt::Warmup => seen.warmup,
                _ => seen.perf_frequency,
            };
            if slot.is_some() {
                return Err(CliError::RepeatedArgument(o));
            }
            match parse_count_exec(o, v) {
                Some(n) => {
                    match o {
                        Opt::LedgerSize => seen.ledger_size = Some(n),
                        Opt::Runs => seen.runs = Some(n),
                        Opt::Warmup => seen.warmup = Some(n),
                        _ => seen.perf_frequency = Some(n),
                    }
                    Ok(())
                },
                None => Err(CliError::InvalidValue(o, string_of(v))),
            }
        },
        Opt::CallGraph => {
            if seen.perf_call_graph.is_some() {
                return Err(CliError::RepeatedArgument(o));
            }
            match parse_call_graph_exec(v) {
                Some(m) => {
                    seen.perf_call_graph = Some(m);
                    Ok(())
                },
                None => Err(CliError::InvalidValue(o, string_of(v))),
            }
        },
        Opt::Only => match parse_tools_exec(v) {
            Some(ts) => {
                let all = extend_tools(&seen.only, ts);
                seen.only = Some(all);
                Ok(())
            },
            None => Err(CliError::InvalidValue(o, string_of(v))),
        },
        Opt::Skip => match parse_tools_exec(v) {
            Some(ts) => {
                let all = extend_tools(&seen.skip, ts);
                seen.skip = Some(all);
                Ok(())
            },
            None => Err(CliError::InvalidValue(o, string_of(v))),
        },
        Opt::Binary => {
            if seen.binary.is_some() {
                return Err(CliError::RepeatedArgument(o));
            }
            if v.len() == 0 {
                return Err(CliError::InvalidValue(o, string_of(v)));
            }
            seen.binary = Some(copy_chars(v));
            Ok(())
        },
        Opt::Externs => {
            if seen.externs.is_some() {
                return Err(CliError::RepeatedArgument(o));
            }
            match parse_externs_exec(v) {
                Some(m) => {
                    seen.externs = Some(m);
                    Ok(())
                },
                None => Err(CliError::InvalidValue(o, string_of(v))),
            }
        },
        _ => Err(CliError::UnexpectedValue(o)),
    }
}

/// Executable form of [`record_flag`].
fn record_flag_exec(seen: &mut Seen, o: Opt) -> (r: Result<(), CliError>)
    ensures
        match r {
            Ok(_) => record_flag(old(seen)@, o) == Ok::<SeenView, CliErrorView>(final(seen)@),
            Err(e) => record_flag(old(seen)@, o) == Err::<SeenView, CliErrorView>(e@),
        },
{
    if seen.force {
        return Err(CliError::RepeatedArgument(o));
    }
    seen.force = true;
    Ok(())
}

/// Executable form of [`add_positional`].
fn add_positional_exec(sub: Sub, seen: &mut Seen, t: &[char]) -> (r: Result<(), CliError>)
    ensures
        match r {
            Ok(_) => add_positional(sub, old(seen)@, t@) == Ok::<SeenView, CliErrorView>(final(seen)@),
            Err(e) => add_positional(sub, old(seen)@, t@) == Err::<SeenView, CliErrorView>(e@),
        },
{
    let most: usize = match sub {
        Sub::Run => 1,
        Sub::Compare => 2,
        Sub::CompareRefs => 2,
        Sub::CompareWorkingTree => 1,
    };
    if seen.positionals.len() >= most {
        return Err(CliError::UnexpectedPositional(string_of(t)));
    }
    let ghost before = seen@;
    seen.positionals.push(copy_chars(t));
    assert(seen@.positionals =~= before.positionals.push(t@));
    Ok(())
}

/// Executable form of [`take_option`].
fn take_option_exec(
    sub: Sub,
    toks: &Vec<Vec<char>>,
    i: usize,
    seen: &mut Seen,
    o: Opt,
    inline: Option<Vec<char>>,
) -> (r: Result<bool, CliError>)
    requires
        i < toks.len(),
    ensures
        match r {
            Ok(took) => {
                &&& take_option(sub, token_views(toks@), i as int, old(seen)@, o, opt_chars(inline))
                    == Ok::<(SeenView, bool), CliErrorView>((final(seen)@, took))
                &&& took ==> i + 1 < toks.len()
            },
            Err(e) => take_option(sub, token_views(toks@), i as int, old(seen)@, o, opt_chars(inline))
                == Err::<(SeenView, bool), CliErrorView>(e@),
        },
{
    if matches!(o, Opt::Help) {
        return Err(CliError::DisplayHelp(Some(sub)));
    }
    if !takes_value_exec(o) {
        if inline.is_some() {
            return Err(CliError::UnexpectedValue(o));
        }
        return match record_flag_exec(seen, o) {
            Ok(()) => Ok(false),
            Err(e) => Err(e),
        };
    }
    match inline {
        Some(v) => match record_value_exec(seen, o, v.as_slice()) {
            Ok(()) => Ok(false),
            Err(e) => Err(e),
        },
        None => {
            if i + 1 < toks.len() {
                let next = &toks[i + 1];
                assert(token_views(toks@)[i + 1] == next@);
                if next.len() == 0 || next[0] != '-' || next.len() == 1 {
                    return match record_value_exec(seen, o, next.as_slice()) {
                        Ok(()) => Ok(true),
                        Err(e) => Err(e),
                    };
                }
            }
            Err(CliError::MissingValue(o))
        },
    }
}

/// A value attached to a short option, without a leading `=`.
fn strip_eq_exec(rest: Vec<char>) -> (r: Vec<char>)
    ensures
        r@ == strip_eq(rest@),
{
    if rest.len() > 0 && rest[0] == '=' {
        let r = crate::text::slice_from(rest.as_slice(), 1);
        assert(r@ =~= rest@.drop_first());
        r
    } else {
        rest
    }
}

/// Executable form of [`short_cluster`] from the first character after the `-`.
fn short_cluster_exec(sub: Sub, toks: &Vec<Vec<char>>, i: usize, seen: &mut Seen) -> (r: Result<
    bool,
    CliError,
>)
    requires
        i < toks.len(),
    ensures
        match r {
            Ok(took) => {
                &&& short_cluster(sub, token_views(toks@), i as int, 1, old(seen)@) == Ok::<
                    (SeenView, bool),
                    CliErrorView,
                >((final(seen)@, took))
                &&& took ==> i + 1 < toks.len()
            },
            Err(e) => short_cluster(sub, token_views(toks@), i as int, 1, old(seen)@) == Err::<
                (SeenView, bool),
                CliErrorView,
            >(e@),
        },
{
    let ghost tv = token_views(toks@);
    let t = &toks[i];
    assert(tv[i as int] == t@);
    let mut j: usize = 1;
    if t.len() <= 1 {
        return Ok(false);
    }
    while j < t.len()
        invariant
            1 <= j <= t.len(),
            i < toks.len(),
            tv == token_views(toks@),
            tv[i as int] == t@,
            short_cluster(sub, tv, i as int, 1, old(seen)@) == short_cluster(
                sub,
                tv,
                i as int,
                j as int,
                seen@,
            ),
        decreases t.len() - j,
    {
        let c = t[j];
        match find_short_exec(sub, c) {
            None => {
                let mut name = String::new();
                crate::text::push_char(&mut name, '-');
                crate::text::push_char(&mut name, c);
                assert(name@ =~= seq!['-', c]);
                return Err(CliError::UnknownArgument(name));
            },
            Some(o) => {
                if matches!(o, Opt::Help) {
                    return Err(CliError::DisplayShortHelp(Some(sub)));
                }
                if takes_value_exec(o) {
                    let rest = crate::text::slice_from(t.as_slice(), j + 1);
                    let inline = if rest.len() > 0 {
                        Some(strip_eq_exec(rest))
                    } else {
                        None
                    };
                    return take_option_exec(sub, toks, i, seen, o, inline);
                }
                match record_flag_exec(seen, o) {
                    Ok(()) => {},
                    Err(e) => {
                        return Err(e);
                    },
                }
            },
        }
        j += 1;
    }
    Ok(false)
}

/// Executable form of [`step_option`].
fn step_option_exec(sub: Sub, toks: &Vec<Vec<char>>, i: usize, seen: &mut Seen) -> (r: Result<
    bool,
    CliError,
>)
    requires
        i < toks.len(),
        toks@[i as int]@.len() >= 2,
    ensures
        match r {
            Ok(took) => {
                &&& step_option(sub, token_views(toks@), i as int, old(seen)@) == Ok::<
                    (SeenView, bool),
                    CliErrorView,
                >((final(seen)@, took))
                &&& took ==> i + 1 < toks.len()
            },
            Err(e) => step_option(sub, token_views(toks@), i as int, old(seen)@) == Err::<
                (SeenView, bool),
                CliErrorView,
            >(e@),
        },
{
    let ghost tv = token_views(toks@);
    let t = &toks[i];
    assert(tv[i as int] == t@);
    if t[1] == '-' {
        let body = crate::text::slice_from(t.as_slice(), 2);
        let mut p: usize = 0;
        while p < body.len() && body[p] != '='
            invariant
                p <= body.len(),
                forall|j: int| 0 <= j < p ==> body@[j] != '=',
            decreases body.len() - p,
        {
            p += 1;
        }
        proof {
            if p < body.len() {
                assert(first_eq_at(body@, p as int));
                let k = choose|k: int| first_eq_at(body@, k);
                if k < p {
                    assert(body@[k] != '=');
                }
                if k > p {
                    assert(body@[p as int] != '=');
                }
                assert(eq_pos(body@) == p);
            } else {
                assert(!exists|k: int| first_eq_at(body@, k));
                assert(eq_pos(body@) == p);
            }
        }
        let name = crate::text::slice_to(body.as_slice(), p);
        let inline = if p < body.len() {
            Some(crate::text::slice_from(body.as_slice(), p + 1))
        } else {
            None
        };
        match find_long_exec(sub, name.as_slice()) {
            None => {
                assert(body.len() + 2 == t.len());
                let shown = crate::text::slice_to(t.as_slice(), p + 2);
                assert(shown@ =~= tv[i as int].take(p + 2));
                Err(CliError::UnknownArgument(string_of(shown.as_slice())))
            },
            Some(o) => take_option_exec(sub, toks, i, seen, o, inline),
        }
    } else {
        short_cluster_exec(sub, toks, i, seen)
    }
}

/// Executable form of [`scan`] over all the tokens of a subcommand.
fn scan_exec(sub: Sub, toks: &Vec<Vec<char>>) -> (r: Result<Seen, CliError>)
    ensures
        match r {
            Ok(s) => scan(sub, token_views(toks@), 0, seen_empty(), false) == Ok::<
                SeenView,
                CliErrorView,
            >(s@),
            Err(e) => scan(sub, token_views(toks@), 0, seen_empty(), false) == Err::<
                SeenView,
                CliErrorView,
            >(e@),
        },
{
    let ghost tv = token_views(toks@);
    let mut seen = Seen::new();
    let mut i: usize = 0;
    let mut raw = false;
    while i < toks.len()
        invariant
            i <= toks.len(),
            tv == token_views(toks@),
            scan(sub, tv, 0, seen_empty(), false) == scan(sub, tv, i as int, seen@, raw),
        decreases toks.len() - i,
    {
        let t = &toks[i];
        assert(tv[i as int] == t@);
        if raw || !(t.len() >= 2 && t[0] == '-') {
            match add_positional_exec(sub, &mut seen, t.as_slice()) {
                Ok(()) => {},
                Err(e) => {
                    return Err(e);
                },
            }
            i += 1;
        } else if t.len() == 2 && t[1] == '-' {
            assert(t@ =~= seq!['-', '-']);
            raw = true;
            i += 1;
        } else {
            assert(t@ != seq!['-', '-']) by {
                if t@.len() == 2 {
                    assert(t@[1] != seq!['-', '-'][1]);
                }
            }
            match step_option_exec(sub, toks, i, &mut seen) {
                Ok(took) => {
                    i = if took {
                        i + 2
                    } else {
                        i + 1
                    };
                },
                Err(e) => {
                    return Err(e);
                },
            }
        }
    }
    Ok(seen)
}

/// Executable form of [`finish`].
fn finish_exec(sub: Sub, seen: Seen) -> (r: Result<Cli, CliError>)
    ensures
        match r {
            Ok(c) => finish(sub, seen@) == Ok::<CliView, CliErrorView>(c@),
            Err(e) => finish(sub, seen@) == Err::<CliView, CliErrorView>(e@),
        },
{
    let ghost sv = seen@;
    if seen.only.is_some() && seen.skip.is_some() {
        return Err(CliError::ArgumentConflict);
    }
    let Seen {
        ledger_size,
        runs,
        warmup,
        perf_frequency,
        perf_call_graph,
        only,
        skip,
        binary,
        externs,
        force,
        positionals,
    } = seen;
    let options = RefOptions {
        ledger_size: match ledger_size {
            Some(n) => n,
            None => 2000,
        },
        runs: match runs {
            Some(n) => n,
            None => 5,
        },
        warmup: match warmup {
            Some(n) => n,
            None => 1,
        },
        perf_frequency: match perf_frequency {
            Some(n) => n,
            None => 997,
        },
        perf_call_graph: match perf_call_graph {
            Some(m) => m,
            None => PerfCallGraph::Dwarf,
        },
        only: match only {
            Some(v) => v,
            None => Vec::new(),
        },
        skip: match skip {
            Some(v) => v,
            None => Vec::new(),
        },
        externs: match externs {
            Some(m) => m,
            None => ExternsMode::Local,
        },
        force,
    };
    assert(options@ =~= ref_options(sv));
    let n = positionals.len();
    assert(sv.positionals.len() == n);
    match sub {
        Sub::Run => {
            if n < 1 {
                return Err(CliError::MissingPositional(sub, 0));
            }
            assert(sv.positionals[0] == positionals@[0]@);
            let args = RunArgs {
                label: string_of(positionals[0].as_slice()),
                ledger_size: options.ledger_size,
                runs: options.runs,
                warmup: options.warmup,
                perf_frequency: options.perf_frequency,
                perf_call_graph: options.perf_call_graph,
                only: options.only,
                skip: options.skip,
                binary: match binary {
                    Some(b) => Some(string_of(b.as_slice())),
                    None => None,
                },
                force: options.force,
            };
            Ok(Cli { command: Command::Run(args) })
        },
        Sub::Compare => {
            if n < 2 {
                return Err(CliError::MissingPositional(sub, n));
            }
            assert(sv.positionals[0] == positionals@[0]@);
            assert(sv.positionals[1] == positionals@[1]@);
            Ok(
                Cli {
                    command: Command::Compare(
                        CompareArgs {
                            before: string_of(positionals[0].as_slice()),
                            after: string_of(positionals[1].as_slice()),
                        },
                    ),
                },
            )
        },
        Sub::CompareRefs => {
            if n < 2 {
                return Err(CliError::MissingPositional(sub, n));
            }
            assert(sv.positionals[0] == positionals@[0]@);
            assert(sv.positionals[1] == positionals@[1]@);
            Ok(
                Cli {
                    command: Command::CompareRefs(
                        CompareRefsArgs {
                            before_ref: string_of(positionals[0].as_slice()),
                            after_ref: string_of(positionals[1].as_slice()),
                            options,
                        },
                    ),
                },
            )
        },
        Sub::CompareWorkingTree => {
            let base_ref = if n > 0 {
                assert(sv.positionals[0] == positionals@[0]@);
                string_of(positionals[0].as_slice())
            } else {
                "HEAD".to_owned()
            };
            Ok(
                Cli {
                    command: Command::CompareWorkingTree(
                        CompareWorkingTreeArgs { base_ref, options },
                    ),
                },
            )
        },
    }
}

/// The arguments from position `start` on, as characters.
fn tokens_from(args: &Vec<String>, start: usize) -> (toks: Vec<Vec<char>>)
    requires
        start <= args.len(),
    ensures
        token_views(toks@) == arg_views(args@).skip(start as int),
{
    let mut toks: Vec<Vec<char>> = Vec::new();
    let mut k: usize = start;
    while k < args.len()
        invariant
            start <= k <= args.len(),
            token_views(toks@) == arg_views(args@).subrange(start as int, k as int),
        decreases args.len() - k,
    {
        let ghost before = token_views(toks@);
        toks.push(chars_of(args[k].as_str()));
        assert(token_views(toks@) =~= before.push(args@[k as int]@));
        k += 1;
        assert(arg_views(args@).subrange(start as int, k as int) =~= arg_views(args@).subrange(
            start as int,
            k - 1,
        ).push(args@[k - 1]@));
    }
    assert(arg_views(args@).subrange(start as int, args.len() as int) =~= arg_views(args@).skip(
        start as int,
    ));
    toks
}

impl Cli {
    /// Reads a command line, program name first, as the `paper-bencher`
    /// command does: exactly what [`parse_cli`] says of it.
    pub fn try_parse_from(args: &Vec<String>) -> (r: Result<Cli, CliError>)
        ensures
            match r {
                Ok(c) => parse_cli(arg_views(args@)) == Ok::<CliView, CliErrorView>(c@),
                Err(e) => parse_cli(arg_views(args@)) == Err::<CliView, CliErrorView>(e@),
            },
    {
        let ghost av = arg_views(args@);
        if args.len() < 2 {
            return Err(CliError::MissingSubcommand);
        }
        let t = chars_of(args[1].as_str());
        assert(av[1] == t@);
        if chars_eq_str(t.as_slice(), "-h") {
            return Err(CliError::DisplayShortHelp(None));
        }
        if chars_eq_str(t.as_slice(), "--help") {
            return Err(CliError::DisplayHelp(None));
        }
        if chars_eq_str(t.as_slice(), "-V") || chars_eq_str(t.as_slice(), "--version") {
            return Err(CliError::DisplayVersion);
        }
        if chars_eq_str(t.as_slice(), "help") {
            if args.len() > 2 {
                let u = chars_of(args[2].as_str());
                assert(av[2] == u@);
                return match sub_of(u.as_slice()) {
                    Some(s) => Err(CliError::DisplayHelp(Some(s))),
                    None => Err(CliError::UnknownSubcommand(args[2].clone())),
                };
            }
            return Err(CliError::DisplayHelp(None));
        }
        match sub_of(t.as_slice()) {
            None => {
                if t.len() >= 2 && t[0] == '-' {
                    Err(CliError::UnknownArgument(args[1].clone()))
                } else {
                    Err(CliError::UnknownSubcommand(args[1].clone()))
                }
            },
            Some(sub) => {
                let toks = tokens_from(args, 2);
                match scan_exec(sub, &toks) {
                    Ok(seen) => finish_exec(sub, seen),
                    Err(e) => Err(e),
                }
            },
        }
    }
}

/// A command line that is accepted never both restricts the profilers with
/// `--only` and removes some with `--skip`: the two cannot be combined.
pub proof fn law_only_and_skip_exclude_each_other(args: Seq<Seq<char>>)
    ensures
        parse_cli(args) matches Ok(c) ==> match c.command {
            CommandView::Run(a) => a.only.len() == 0 || a.skip.len() == 0,
            CommandView::CompareRefs(a) => a.options.only.len() == 0 || a.options.skip.len() == 0,
            CommandView::CompareWorkingTree(a) => a.options.only.len() == 0
                || a.options.skip.len() == 0,
            CommandView::Compare(_) => true,
        },
{
}

/// Every value name that the library writes out is read back by the
/// command line as the same value.
pub proof fn law_value_names_read_back(t: BenchTool, m: PerfCallGraph, e: ExternsMode)
    ensures
        parse_tool(crate::cli::tool_name(t)) == Some(t),
        parse_call_graph(crate::cli::call_graph_name(m)) == Some(m),
        parse_externs(crate::cli::externs_name(e)) == Some(e),
        parse_tools(crate::cli::tool_name(t)) == Some(seq![t]),
{
    reveal_strlit("hyperfine");
    reveal_strlit("perf");
    reveal_strlit("heaptrack");
    reveal_strlit("dwarf");
    reveal_strlit("fp");
    reveal_strlit("lbr");
    reveal_strlit("local");
    reveal_strlit("fresh");
    assert("dwarf"@.len() == 5 && "fp"@.len() == 2 && "lbr"@.len() == 3);
    assert("local"@.len() == 5 && "fresh"@.len() == 5 && "local"@[0] != "fresh"@[0]);
    let n = crate::cli::tool_name(t);
    assert forall|i: int| 0 <= i < n.len() implies n[i] != ',' by {
        match t {
            BenchTool::Hyperfine => assert(n[i] == "hyperfine"@[i]),
            BenchTool::Perf => assert(n[i] == "perf"@[i]),
            BenchTool::Heaptrack => assert(n[i] == "heaptrack"@[i]),
        }
    }
    lemma_split_without_comma(n);
    assert(seq![n].drop_last() =~= Seq::<Seq<char>>::empty());
    assert(seq![n].last() == n);
    assert(parse_tool_list(Seq::<Seq<char>>::empty()) == Some(Seq::<BenchTool>::empty()));
    assert(parse_tool_list(seq![n]) == Some(Seq::<BenchTool>::empty().push(t)));
    assert(Seq::<BenchTool>::empty().push(t) =~= seq![t]);
}

/// A value without commas is a single piece.
proof fn lemma_split_without_comma(v: Seq<char>)
    requires
        forall|i: int| 0 <= i < v.len() ==> v[i] != ',',
    ensures
        split_on(v, ',') == seq![v],
    decreases v.len(),
{
    if v.len() > 0 {
        assert forall|i: int| 0 <= i < v.drop_last().len() implies v.drop_last()[i] != ',' by {
            assert(v.drop_last()[i] == v[i]);
        }
        lemma_split_without_comma(v.drop_last());
        assert(v.drop_last().push(v.last()) =~= v);
        assert(seq![v.drop_last()].update(0, v.drop_last().push(v.last())) =~= seq![v]);
    } else {
        assert(v =~= Seq::<char>::empty());
    }
}

/// Reading two positional arguments, neither of them option-like, from the start.
proof fn lemma_scan_two_positionals(sub: Sub, a: Seq<char>, b: Seq<char>)
    requires
        !is_option_like(a),
        !is_option_like(b),
        max_positionals(sub) == 2,
    ensures
        scan(sub, seq![a, b], 0, seen_empty(), false) == Ok::<SeenView, CliErrorView>(
            SeenView { positionals: seq![a, b], ..seen_empty() },
        ),
{
    let toks = seq![a, b];
    let s1 = SeenView { positionals: seq![a], ..seen_empty() };
    let s2 = SeenView { positionals: seq![a, b], ..seen_empty() };
    assert(seen_empty().positionals.push(a) =~= seq![a]);
    assert(seq![a].push(b) =~= seq![a, b]);
    assert(add_positional(sub, seen_empty(), a) == Ok::<SeenView, CliErrorView>(s1));
    assert(add_positional(sub, s1, b) == Ok::<SeenView, CliErrorView>(s2));
    assert(scan(sub, toks, 2, s2, false) == Ok::<SeenView, CliErrorView>(s2));
    assert(scan(sub, toks, 1, s1, false) == Ok::<SeenView, CliErrorView>(s2));
}

/// Reading one positional argument, not option-like, from the start.
proof fn lemma_scan_one_positional(sub: Sub, a: Seq<char>)
    requires
        !is_option_like(a),
        max_positionals(sub) >= 1,
    ensures
        scan(sub, seq![a], 0, seen_empty(), false) == Ok::<SeenView, CliErrorView>(
            SeenView { positionals: seq![a], ..seen_empty() },
        ),
{
    let s1 = SeenView { positionals: seq![a], ..seen_empty() };
    assert(seen_empty().positionals.push(a) =~= seq![a]);
    assert(add_positional(sub, seen_empty(), a) == Ok::<SeenView, CliErrorView>(s1));
    assert(scan(sub, seq![a], 1, s1, false) == Ok::<SeenView, CliErrorView>(s1));
}

/// Positional arguments keep their order and their meaning: `compare A B`
/// and `compare-refs A B` take `A` as the baseline and `B` as the candidate,
/// `compare-working-tree A` takes `A` as the baseline revision, and
/// `run A` labels the run `A`.
pub proof fn law_positionals_keep_their_order(p: Seq<char>, a: Seq<char>, b: Seq<char>)
    requires
        !is_option_like(a),
        !is_option_like(b),
    ensures
        parse_cli(seq![p, "compare"@, a, b]) matches Ok(c) && c.command matches CommandView::Compare(
            x,
        ) && x.before == a && x.after == b,
        parse_cli(seq![p, "compare-refs"@, a, b]) matches Ok(c) && c.command
            matches CommandView::CompareRefs(x) && x.before_ref == a && x.after_ref == b,
        parse_cli(seq![p, "compare-working-tree"@, a]) matches Ok(c) && c.command
            matches CommandView::CompareWorkingTree(x) && x.base_ref == a,
        parse_cli(seq![p, "run"@, a]) matches Ok(c) && c.command matches CommandView::Run(x)
            && x.label == a,
{
    reveal_strlit("-h");
    reveal_strlit("--help");
    reveal_strlit("-V");
    reveal_strlit("--version");
    reveal_strlit("help");
    reveal_strlit("run");
    reveal_strlit("compare");
    reveal_strlit("compare-refs");
    reveal_strlit("compare-working-tree");
    assert("-h"@.len() == 2 && "--help"@.len() == 6 && "-V"@.len() == 2 && "--version"@.len() == 9);
    assert("help"@.len() == 4 && "run"@.len() == 3 && "compare"@.len() == 7);
    assert("compare-refs"@.len() == 12 && "compare-working-tree"@.len() == 20);
    assert(seq![p, "compare"@, a, b].skip(2) =~= seq![a, b]);
    assert(seq![p, "compare-refs"@, a, b].skip(2) =~= seq![a, b]);
    assert(seq![p, "compare-working-tree"@, a].skip(2) =~= seq![a]);
    assert(seq![p, "run"@, a].skip(2) =~= seq![a]);
    assert(sub_named("compare"@) == Some(Sub::Compare));
    assert(sub_named("compare-refs"@) == Some(Sub::CompareRefs));
    assert(sub_named("compare-working-tree"@) == Some(Sub::CompareWorkingTree));
    assert(sub_named("run"@) == Some(Sub::Run));
    lemma_scan_two_positionals(Sub::Compare, a, b);
    lemma_scan_two_positionals(Sub::CompareRefs, a, b);
    lemma_scan_one_positional(Sub::CompareWorkingTree, a);
    lemma_scan_one_positional(Sub::Run, a);
}

/// Options that are not given take their documented defaults: a ledger of
/// 2000 entries, 5 runs, 1 warmup, 997 samples per second, DWARF call
/// graphs, every profiler, no `--binary`, no `--force`, local externs; and
/// `compare-working-tree` alone compares against `HEAD`.
pub proof fn law_defaults_when_options_are_absent(p: Seq<char>, a: Seq<char>)
    requires
        !is_option_like(a),
    ensures
        parse_cli(seq![p, "run"@, a]) matches Ok(c) && c.command matches CommandView::Run(x) && x
            == (RunArgsView {
            label: a,
            ledger_size: 2000,
            runs: 5,
            warmup: 1,
            perf_frequency: 997,
            perf_call_graph: PerfCallGraph::Dwarf,
            only: Seq::empty(),
            skip: Seq::empty(),
            binary: None,
            force: false,
        }),
        parse_cli(seq![p, "compare-working-tree"@]) matches Ok(c) && c.command
            matches CommandView::CompareWorkingTree(x) && x.base_ref == "HEAD"@ && x.options == (
        RefOptionsView {
            ledger_size: 2000,
            runs: 5,
            warmup: 1,
            perf_frequency: 997,
            perf_call_graph: PerfCallGraph::Dwarf,
            only: Seq::empty(),
            skip: Seq::empty(),
            externs: ExternsMode::Local,
            force: false,
        }),
{
    law_positionals_keep_their_order(p, a, a);
    reveal_strlit("-h");
    reveal_strlit("--help");
    reveal_strlit("-V");
    reveal_strlit("--version");
    reveal_strlit("help");
    reveal_strlit("run");
    reveal_strlit("compare");
    reveal_strlit("compare-refs");
    reveal_strlit("compare-working-tree");
    assert("-h"@.len() == 2 && "--help"@.len() == 6 && "-V"@.len() == 2 && "--version"@.len() == 9);
    assert("help"@.len() == 4 && "run"@.len() == 3 && "compare"@.len() == 7);
    assert("compare-refs"@.len() == 12 && "compare-working-tree"@.len() == 20);
    assert(seq![p, "run"@, a].skip(2) =~= seq![a]);
    assert(seq![p, "compare-working-tree"@].skip(2) =~= Seq::<Seq<char>>::empty());
    assert(sub_named("compare-working-tree"@) == Some(Sub::CompareWorkingTree));
    assert(sub_named("run"@) == Some(Sub::Run));
    lemma_scan_one_positional(Sub::Run, a);
    assert(scan(Sub::CompareWorkingTree, Seq::<Seq<char>>::empty(), 0, seen_empty(), false)
        == Ok::<SeenView, CliErrorView>(seen_empty()));
}

} // verus!
