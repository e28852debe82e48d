use paper_bencher::args::{CliError, Opt, Sub};
use paper_bencher::cli::{BenchTool, Cli, Command, ExternsMode, PerfCallGraph, RefOptions};
use paper_bencher::help::{render_help, render_long_help, render_short_help};

fn argv(words: &[&str]) -> Vec<String> {
    words.iter().map(|w| w.to_string()).collect()
}

#[test]
fn accepts_short_benchmark_flags() {
    let cli = Cli::try_parse_from(&argv(&[
        "paper-bencher",
        "run",
        "before",
        "-s",
        "500",
        "-w",
        "2",
        "-r",
        "10",
        "--perf-frequency",
        "499",
        "--perf-call-graph",
        "fp",
        "--only",
        "hyperfine,perf",
    ]))
    .unwrap();

    let Command::Run(args) = cli.command else {
        panic!("expected run command");
    };
    assert_eq!(args.ledger_size, 500);
    assert_eq!(args.warmup, 2);
    assert_eq!(args.runs, 10);
    assert_eq!(args.perf_frequency, 499);
    assert_eq!(args.perf_call_graph.as_str(), "fp");
    assert_eq!(args.only.len(), 2);
    assert!(args.skip.is_empty());
}

#[test]
fn only_and_skip_conflict() {
    assert!(
        Cli::try_parse_from(&argv(&[
            "paper-bencher",
            "run",
            "before",
            "--only",
            "perf",
            "--skip",
            "heaptrack",
        ]))
        .is_err()
    );
}

#[test]
fn top_level_help_explains_common_benchmark_flags() {
    let help = render_long_help();

    assert!(help.contains("-s, --ledger-size <N>"));
    assert!(help.contains("Number of ledger entries to generate"));
    assert!(help.contains("-r, --runs <N>"));
    assert!(help.contains("--only <TOOLS>"));
    assert!(help.contains("--externs <MODE>"));
    assert!(help.contains("compare-working-tree [BASE_REF]"));
}

#[test]
fn git_comparison_accepts_fresh_externs() {
    let cli = Cli::try_parse_from(&argv(&[
        "paper-bencher",
        "compare-working-tree",
        "HEAD",
        "--externs",
        "fresh",
    ]))
    .unwrap();

    let Command::CompareWorkingTree(args) = cli.command else {
        panic!("expected compare-working-tree command");
    };
    assert_eq!(args.options.externs, ExternsMode::Fresh);
}

#[test]
fn defaults_apply_when_options_are_absent() {
    let cli = Cli::try_parse_from(&argv(&["paper-bencher", "run", "before"])).unwrap();
    let Command::Run(args) = cli.command else {
        panic!("expected run command");
    };
    assert_eq!(args.label, "before");
    assert_eq!(args.ledger_size, 2000);
    assert_eq!(args.runs, 5);
    assert_eq!(args.warmup, 1);
    assert_eq!(args.perf_frequency, 997);
    assert_eq!(args.perf_call_graph, PerfCallGraph::Dwarf);
    assert!(args.only.is_empty());
    assert!(args.binary.is_none());
    assert!(!args.force);
}

#[test]
fn long_options_take_attached_values_and_clusters_work() {
    let cli = Cli::try_parse_from(&argv(&[
        "paper-bencher",
        "run",
        "--ledger-size=700",
        "-fw0",
        "-b=./bin/pm",
        "--skip",
        "perf",
        "--skip=heaptrack",
        "label",
    ]))
    .unwrap();
    let Command::Run(args) = cli.command else {
        panic!("expected run command");
    };
    assert_eq!(args.ledger_size, 700);
    assert_eq!(args.warmup, 0);
    assert!(args.force);
    assert_eq!(args.binary.as_deref(), Some("./bin/pm"));
    assert_eq!(args.skip, vec![BenchTool::Perf, BenchTool::Heaptrack]);
    assert_eq!(args.label, "label");
}

#[test]
fn out_of_range_values_are_refused() {
    let err = Cli::try_parse_from(&argv(&["paper-bencher", "run", "x", "-s", "99"])).unwrap_err();
    assert!(matches!(err, CliError::InvalidValue(Opt::LedgerSize, ref v) if v == "99"));
    let err = Cli::try_parse_from(&argv(&["paper-bencher", "run", "x", "-r", "0"])).unwrap_err();
    assert!(matches!(err, CliError::InvalidValue(Opt::Runs, _)));
    let err = Cli::try_parse_from(&argv(&["paper-bencher", "run", "x", "--perf-call-graph", "Fp"]))
        .unwrap_err();
    assert!(matches!(err, CliError::InvalidValue(Opt::CallGraph, _)));
    let err = Cli::try_parse_from(&argv(&["paper-bencher", "run", "x", "--only", "perf,"]))
        .unwrap_err();
    assert!(matches!(err, CliError::InvalidValue(Opt::Only, _)));
}

#[test]
fn each_error_kind_has_an_input() {
    let cases: Vec<(Vec<&str>, CliError)> = vec![
        (vec!["paper-bencher"], CliError::MissingSubcommand),
        (vec!["paper-bencher", "--help"], CliError::DisplayHelp(None)),
        (vec!["paper-bencher", "help", "run"], CliError::DisplayHelp(Some(Sub::Run))),
        (vec!["paper-bencher", "compare", "-h"], CliError::DisplayShortHelp(Some(Sub::Compare))),
        (vec!["paper-bencher", "-h"], CliError::DisplayShortHelp(None)),
        (vec!["paper-bencher", "run", "x", "-fh"], CliError::DisplayShortHelp(Some(Sub::Run))),
        (vec!["paper-bencher", "run", "x", "--help"], CliError::DisplayHelp(Some(Sub::Run))),
        (vec!["paper-bencher", "-V"], CliError::DisplayVersion),
        (vec!["paper-bencher", "bench"], CliError::UnknownSubcommand("bench".to_string())),
        (vec!["paper-bencher", "--fast"], CliError::UnknownArgument("--fast".to_string())),
        (vec!["paper-bencher", "run", "x", "--fast=1"], CliError::UnknownArgument("--fast".to_string())),
        (vec!["paper-bencher", "compare", "a", "b", "-s", "1"], CliError::UnknownArgument("-s".to_string())),
        (vec!["paper-bencher", "run", "x", "--runs"], CliError::MissingValue(Opt::Runs)),
        (vec!["paper-bencher", "run", "x", "--runs", "-1"], CliError::MissingValue(Opt::Runs)),
        (vec!["paper-bencher", "run", "x", "--force=yes"], CliError::UnexpectedValue(Opt::Force)),
        (vec!["paper-bencher", "run", "x", "-r", "2", "-r", "3"], CliError::RepeatedArgument(Opt::Runs)),
        (vec!["paper-bencher", "run", "x", "-f", "--force"], CliError::RepeatedArgument(Opt::Force)),
        (vec!["paper-bencher", "run", "x", "y"], CliError::UnexpectedPositional("y".to_string())),
        (vec!["paper-bencher", "run"], CliError::MissingPositional(Sub::Run, 0)),
        (vec!["paper-bencher", "compare", "a"], CliError::MissingPositional(Sub::Compare, 1)),
        (vec!["paper-bencher", "compare-refs", "a", "--only", "perf", "--skip", "perf", "b"], CliError::ArgumentConflict),
    ];
    for (words, expected) in cases {
        let err = Cli::try_parse_from(&argv(&words)).unwrap_err();
        assert_eq!(format!("{err:?}"), format!("{expected:?}"), "for {words:?}");
    }
}

#[test]
fn double_dash_makes_the_rest_positional() {
    let cli = Cli::try_parse_from(&argv(&["paper-bencher", "compare", "--", "-a", "--b"])).unwrap();
    let Command::Compare(args) = cli.command else {
        panic!("expected compare command");
    };
    assert_eq!(args.before, "-a");
    assert_eq!(args.after, "--b");
}

#[test]
fn working_tree_comparison_defaults_to_head() {
    let cli = Cli::try_parse_from(&argv(&["paper-bencher", "compare-working-tree", "-r", "3"]))
        .unwrap();
    let Command::CompareWorkingTree(args) = cli.command else {
        panic!("expected compare-working-tree command");
    };
    assert_eq!(args.base_ref, "HEAD");
    assert_eq!(args.options.runs, 3);
    assert_eq!(args.options.externs, ExternsMode::Local);
}

#[test]
fn run_args_carry_the_shared_settings() {
    let options = RefOptions {
        ledger_size: 300,
        runs: 2,
        warmup: 0,
        perf_frequency: 499,
        perf_call_graph: PerfCallGraph::Lbr,
        only: vec![BenchTool::Perf],
        skip: vec![],
        externs: ExternsMode::Fresh,
        force: true,
    };
    let args = options.run_args("before-main-12345678".to_string());
    assert_eq!(args.label, "before-main-12345678");
    assert_eq!(args.ledger_size, 300);
    assert_eq!(args.runs, 2);
    assert_eq!(args.warmup, 0);
    assert_eq!(args.perf_frequency, 499);
    assert_eq!(args.perf_call_graph, PerfCallGraph::Lbr);
    assert_eq!(args.only, vec![BenchTool::Perf]);
    assert!(args.binary.is_none());
    assert!(args.force);
}

#[test]
fn value_names_match_the_command_line() {
    assert_eq!(BenchTool::Hyperfine.as_str(), "hyperfine");
    assert_eq!(BenchTool::Perf.as_str(), "perf");
    assert_eq!(BenchTool::Heaptrack.as_str(), "heaptrack");
    assert_eq!(PerfCallGraph::Dwarf.as_str(), "dwarf");
    assert_eq!(PerfCallGraph::Lbr.as_str(), "lbr");
}

#[test]
fn short_help_is_brief_and_points_to_the_full_help() {
    let top = render_short_help(None);
    assert!(top.starts_with("Build, profile, and compare paper-muncher revisions\n\nUsage: paper-bencher <COMMAND>"));
    assert!(top.contains("  -h, --help     Print help (see more with '--help')\n"));
    assert!(!top.contains("COMMAND GUIDE"));
    let run = render_short_help(Some(Sub::Run));
    assert!(run.contains(
        "  -s, --ledger-size <LEDGER_SIZE>\n          Number of ledger entries to generate (must be a multiple of 100) [default: 2000]\n"
    ));
    assert!(!run.contains("EXAMPLES:"));
    let compare = render_short_help(Some(Sub::Compare));
    assert!(compare.contains("  <BEFORE>  Baseline run label\n  <AFTER>   Candidate run label\n"));
    assert!(render_help(Some(Sub::Compare)).contains("Print help (see a summary with '-h')"));
    assert!(render_help(Some(Sub::CompareRefs)).contains("included in each result"));
    assert!(render_short_help(Some(Sub::CompareWorkingTree)).contains("[BASE_REF]  Clean baseline revision (defaults to HEAD) [default: HEAD]"));
}
