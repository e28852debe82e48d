use paper_bencher::cli::{BenchTool, CompareRefsArgs, CompareWorkingTreeArgs, ExternsMode, PerfCallGraph, RefOptions, RunArgs};
use paper_bencher::path::join_path;
use paper_bencher::process::{direct_command_string, progress_name, require_program, resolve_program, ProcessError, ProgramLookup};
use paper_bencher::refs::{compare_refs, compare_working_tree, prepare_externs, resolve_ref_args, temporary_worktree, worktree_add_args, worktree_remove_args, ExternsPlan, RefStep};
use paper_bencher::runner::{
    backup_path, check_target, collect, metadata, publish, run, selected_tools, version_line, CollectConfig, FileCheck,
    MetadataInputs, Purpose, PublishError, PublishPlan, RunError, Step,
};

fn run_args(only: Vec<BenchTool>, skip: Vec<BenchTool>) -> RunArgs {
    RunArgs {
        label: "before".to_string(),
        ledger_size: 2000,
        runs: 5,
        warmup: 1,
        perf_frequency: 997,
        perf_call_graph: PerfCallGraph::Dwarf,
        only,
        skip,
        binary: None,
        force: false,
    }
}

#[test]
fn profiler_selection_follows_only_and_skip() {
    let (h, p, t) = (BenchTool::Hyperfine, BenchTool::Perf, BenchTool::Heaptrack);
    assert_eq!(selected_tools(&run_args(vec![], vec![])).unwrap(), vec![h, p, t]);
    assert_eq!(selected_tools(&run_args(vec![t, h], vec![])).unwrap(), vec![h, t]);
    assert_eq!(selected_tools(&run_args(vec![], vec![p])).unwrap(), vec![h, t]);
    assert_eq!(selected_tools(&run_args(vec![], vec![p, h, t])).unwrap_err(), RunError::NoProfiler);
}

#[test]
fn a_run_checks_its_arguments_and_places_its_files() {
    let setup = run(&run_args(vec![BenchTool::Heaptrack], vec![]), "/repo", 42).unwrap();
    assert_eq!(setup.bench_root, "/repo/.bench");
    assert_eq!(setup.target, "/repo/.bench/before");
    assert_eq!(setup.stage, "/repo/.bench/.before-42-staging");
    assert_eq!(setup.programs, vec!["python3", "heaptrack", "heaptrack_print", "git"]);
    let mut odd = run_args(vec![], vec![]);
    odd.ledger_size = 150;
    assert_eq!(run(&odd, "/repo", 1).unwrap_err(), RunError::LedgerSize);
    let mut bad = run_args(vec![], vec![]);
    bad.label = "../x".to_string();
    assert!(matches!(run(&bad, "/repo", 1).unwrap_err(), RunError::Label(_)));
}

fn config(binary: Option<&str>, tools: &[BenchTool]) -> CollectConfig {
    let has = |t: BenchTool| tools.contains(&t);
    CollectConfig {
        args: run_args(vec![], vec![]),
        repo: "/repo".to_string(),
        stage: "/repo/.bench/.before-1-staging".to_string(),
        target: "/repo/.bench/before".to_string(),
        external_binary: binary.map(|b| b.to_string()),
        python: "/usr/bin/python3".to_string(),
        hyperfine: has(BenchTool::Hyperfine).then(|| "/usr/bin/hyperfine".to_string()),
        perf: has(BenchTool::Perf).then(|| "/usr/bin/perf".to_string()),
        heaptrack: has(BenchTool::Heaptrack).then(|| "/usr/bin/heaptrack".to_string()),
        heaptrack_print: has(BenchTool::Heaptrack).then(|| "/usr/bin/heaptrack_print".to_string()),
    }
}

#[test]
fn collecting_builds_generates_and_profiles_in_order() {
    let steps = collect(&config(None, &[BenchTool::Hyperfine, BenchTool::Perf, BenchTool::Heaptrack]));
    let stage = "/repo/.bench/.before-1-staging";
    assert!(matches!(&steps[0], Step::WriteGenerator(p) if p == &format!("{stage}/general-ledger.py")));
    assert!(matches!(&steps[2], Step::RequireFile(p, FileCheck::Launcher) if p == "/repo/ck"));
    match &steps[4] {
        Step::RunLogged { purpose: Purpose::Build, command, log, context } => {
            assert_eq!(command.program, "/repo/ck");
            assert_eq!(command.args, vec!["package", "--release", &format!("--prefix={stage}/package"), "paper-muncher"]);
            assert_eq!(command.cwd.as_deref(), Some("/repo"));
            assert_eq!(log, &format!("{stage}/build.log"));
            assert_eq!(context.as_deref(), Some(format!("build command was `/repo/ck package --release --prefix={stage}/package paper-muncher`").as_str()));
        }
        other => panic!("unexpected step {other:?}"),
    }
    let meta = steps.iter().find_map(|s| match s {
        Step::WriteMetadata { binary, command, build_command, .. } => Some((binary.clone(), command.clone(), build_command.clone())),
        _ => None,
    }).unwrap();
    assert_eq!(meta.0, "/repo/.bench/before/package/bin/paper-muncher");
    assert_eq!(meta.1, "/repo/.bench/before/package/bin/paper-muncher /repo/.bench/before/ledger-2000.html -o /repo/.bench/before/ledger-2000.pdf");
    assert_eq!(meta.2.as_deref(), Some("/repo/ck package --release --prefix=/repo/.bench/before/package paper-muncher"));
    let purposes: Vec<Purpose> = steps.iter().filter_map(|s| match s {
        Step::RunLogged { purpose, .. } | Step::Capture { purpose, .. } => Some(*purpose),
        _ => None,
    }).collect();
    assert_eq!(purposes, vec![Purpose::Build, Purpose::Generate, Purpose::Hyperfine, Purpose::PerfRecord, Purpose::PerfReport, Purpose::HeaptrackRecord, Purpose::HeaptrackReport]);
    let hyperfine = steps.iter().find_map(|s| match s {
        Step::RunLogged { purpose: Purpose::Hyperfine, command, .. } => Some(command.args.clone()),
        _ => None,
    }).unwrap();
    assert_eq!(hyperfine.last().unwrap(), &format!("{stage}/package/bin/paper-muncher {stage}/ledger-2000.html -o {stage}/ledger-2000.pdf"));
}

#[test]
fn a_given_binary_skips_the_build_and_unselected_profilers_never_run() {
    let steps = collect(&config(Some("/opt/pm bin"), &[BenchTool::Perf]));
    assert!(matches!(&steps[2], Step::Announce(l) if l == "[build] using /opt/pm bin (--binary; skipped)"));
    for s in &steps {
        if let Step::RunLogged { purpose, .. } | Step::Capture { purpose, .. } = s {
            assert!(matches!(purpose, Purpose::Generate | Purpose::PerfRecord | Purpose::PerfReport));
        }
        if let Step::WriteMetadata { build_command, command, .. } = s {
            assert!(build_command.is_none());
            assert!(command.starts_with("'/opt/pm bin' "));
        }
    }
}

#[test]
fn metadata_records_the_run() {
    let inputs = MetadataInputs {
        git_commit: "abc".to_string(),
        git_branch: "".to_string(),
        git_status: "?? .bench/x\n".to_string(),
        python_version: "Python 3.12".to_string(),
        hyperfine_version: Some("hyperfine 1.18".to_string()),
        perf_version: None,
        heaptrack_version: Some("heaptrack 1.5".to_string()),
        heaptrack_print_version: Some("heaptrack_print 1.5".to_string()),
        timestamp_unix_seconds: 99,
    };
    let m = metadata(&run_args(vec![], vec![]), "pm", "pm x", None, &vec![BenchTool::Hyperfine, BenchTool::Heaptrack], &inputs);
    assert_eq!(m.git_branch, "detached");
    assert!(!m.dirty);
    assert_eq!(m.enabled_tools, vec!["hyperfine", "heaptrack"]);
    assert_eq!(m.perf_call_graph, "dwarf");
    let names: Vec<&str> = m.tools.iter().map(|(n, _)| n.as_str()).collect();
    assert_eq!(names, vec!["heaptrack", "heaptrack_print", "hyperfine", "python"]);
    assert_eq!(version_line("", "perf version 6.1\nmore"), "perf version 6.1");
    assert_eq!(version_line("  v2  \n", "x"), "v2");
    assert_eq!(version_line("", ""), "unknown");
}

#[test]
fn publishing_replaces_only_with_force() {
    assert!(matches!(publish("/r/.bench/before", false, false, 3), Ok(PublishPlan::Move)));
    assert_eq!(publish("/r/.bench/before", true, false, 3).unwrap_err(), PublishError::AlreadyExists);
    match publish("/r/.bench/before", true, true, 3).unwrap() {
        PublishPlan::Replace { backup } => assert_eq!(backup, "/r/.bench/before.backup-3"),
        _ => panic!("expected a replacement"),
    }
    assert_eq!(backup_path("/r/.bench/feature.flags-2", 5), "/r/.bench/feature.backup-5");
    assert_eq!(backup_path(".hidden", 5), ".hidden.backup-5");
}

#[test]
fn an_existing_run_is_refused_before_anything_runs_unless_forced() {
    assert_eq!(check_target(true, false), Err(PublishError::AlreadyExists));
    assert_eq!(check_target(true, true), Ok(()));
    assert_eq!(check_target(false, false), Ok(()));
    assert_eq!(check_target(false, true), Ok(()));
}

#[test]
fn programs_are_found_directly_or_on_the_path() {
    match require_program("git", Some("/usr/bin::/bin/")).unwrap() {
        ProgramLookup::Search(c) => assert_eq!(c, vec!["/usr/bin/git", "git", "/bin/git"]),
        _ => panic!("expected a search"),
    }
    assert!(matches!(resolve_program("./ck", None).unwrap(), ProgramLookup::Direct(p) if p == "./ck"));
    assert!(matches!(resolve_program("/usr/bin/perf", None).unwrap(), ProgramLookup::Direct(_)));
    assert!(matches!(resolve_program("perf/", Some("/x")).unwrap(), ProgramLookup::Search(_)));
    assert_eq!(resolve_program("perf", None).unwrap_err(), ProcessError::PathNotSet);
}

#[test]
fn command_lines_are_quoted_for_display() {
    let args = vec!["a b".to_string(), "it's".to_string(), "".to_string(), "--x=1".to_string()];
    assert_eq!(direct_command_string("/bin/pm", &args), "/bin/pm 'a b' 'it'\\\\''s' '' --x=1");
    assert_eq!(progress_name("/usr/bin/git", Some("worktree")), "git worktree");
    assert_eq!(progress_name("/usr/bin/perf", Some("-q")), "perf");
    assert_eq!(progress_name("/usr/bin/..", None), "/usr/bin/..");
    assert_eq!(join_path("/a/", "b"), "/a/b");
    assert_eq!(join_path("", "b"), "b");
    assert_eq!(join_path("/a", "/b"), "/b");
}

/// Splits a command line into words as a POSIX shell does: blanks separate
/// words outside single quotes, quotes are removed, a backslash outside
/// quotes takes the next character as it is.
fn shell_split(line: &str) -> Vec<String> {
    let mut words = Vec::new();
    let mut cur = String::new();
    let (mut in_word, mut quoted, mut escaped) = (false, false, false);
    for c in line.chars() {
        if escaped {
            cur.push(c);
            escaped = false;
        } else if quoted {
            if c == '\'' {
                quoted = false;
            } else {
                cur.push(c);
            }
        } else if c == ' ' || c == '\t' {
            if in_word {
                words.push(std::mem::take(&mut cur));
                in_word = false;
            }
        } else if c == '\'' {
            quoted = true;
            in_word = true;
        } else if c == '\\' {
            escaped = true;
            in_word = true;
        } else {
            cur.push(c);
            in_word = true;
        }
    }
    if in_word {
        words.push(cur);
    }
    words
}

#[test]
fn shown_commands_split_back_into_their_words() {
    let args = vec![
        "a b".to_string(),
        "".to_string(),
        "--x=1".to_string(),
        "tab\there".to_string(),
        "back\\slash".to_string(),
    ];
    let line = direct_command_string("/bin/pm", &args);
    let mut words = vec!["/bin/pm".to_string()];
    words.extend(args);
    assert_eq!(shell_split(&line), words);
}

fn ref_options(externs: ExternsMode) -> RefOptions {
    RefOptions {
        ledger_size: 2000,
        runs: 5,
        warmup: 1,
        perf_frequency: 997,
        perf_call_graph: PerfCallGraph::Dwarf,
        only: vec![BenchTool::Hyperfine],
        skip: vec![],
        externs,
        force: false,
    }
}

#[test]
fn comparing_refs_builds_both_in_worktrees_and_cleans_up() {
    let args = CompareRefsArgs { before_ref: "main".to_string(), after_ref: "feature/x".to_string(), options: ref_options(ExternsMode::Local) };
    let plan = compare_refs(&args, "/repo", "1111111111", "2222222222", "/tmp", 9);
    assert_eq!(plan.cleanup, vec!["/tmp/paper-bencher-9-before", "/tmp/paper-bencher-9-after"]);
    assert_eq!(plan.steps.len(), 7);
    assert!(matches!(&plan.steps[1], RefStep::AddWorktree { path, revision } if path == "/tmp/paper-bencher-9-after" && revision == "feature/x"));
    match &plan.steps[2] {
        RefStep::PrepareExterns(ExternsPlan::Snapshot { source, destination, cp_args, .. }) => {
            assert_eq!(source, "/repo/.cutekit/externs");
            assert_eq!(destination, "/tmp/paper-bencher-9-before/.cutekit/externs");
            assert_eq!(cp_args, &vec!["--archive", "--reflink=auto", "/repo/.cutekit/externs", "/tmp/paper-bencher-9-before/.cutekit/externs"]);
        }
        other => panic!("unexpected step {other:?}"),
    }
    assert!(matches!(&plan.steps[5], RefStep::Run { args, root } if args.label == "after-feature-x-22222222" && root == "/tmp/paper-bencher-9-after"));
    assert!(matches!(&plan.steps[6], RefStep::Compare(c) if c.before == "before-main-11111111" && c.after == "after-feature-x-22222222"));
}

#[test]
fn comparing_the_working_tree_runs_the_checkout_itself() {
    let args = CompareWorkingTreeArgs { base_ref: "HEAD".to_string(), options: ref_options(ExternsMode::Fresh) };
    let plan = compare_working_tree(&args, "/repo", "abcdef0123", "abcdef0123", "/tmp", 3);
    assert_eq!(plan.cleanup, vec!["/tmp/paper-bencher-3-base"]);
    assert!(matches!(&plan.steps[1], RefStep::PrepareExterns(ExternsPlan::Fresh)));
    assert!(matches!(&plan.steps[3], RefStep::Run { args, root } if args.label == "working-tree-current-abcdef01" && root == "/repo"));
    assert_eq!(resolve_ref_args("v1"), vec!["rev-parse", "--verify", "v1^{commit}"]);
    assert_eq!(worktree_add_args("/t", "main"), vec!["worktree", "add", "--detach", "/t", "main"]);
    assert_eq!(worktree_remove_args("/t"), vec!["worktree", "remove", "--force", "/t"]);
    assert_eq!(temporary_worktree("/tmp/", 3, "base"), "/tmp/paper-bencher-3-base");
    assert!(matches!(prepare_externs("/r", "/w", ExternsMode::Fresh), ExternsPlan::Fresh));
}
