use paper_bencher::cli::CompareArgs;
use paper_bencher::compare::{
    check_hyperfine, check_labels, compare, grouped, parse_heaptrack, push_markdown_row,
    push_text_row, render_markdown, render_text, split_byte_value, Comparison, CompareError,
    HeapCells, HeapError, HyperfineError, TimingCells,
};
use paper_bencher::model::{default_enabled_tools, Metadata};
use paper_bencher::runner::LabelError;

fn parse_bytes(value: &str) -> Result<f64, String> {
    let parts = split_byte_value(value);
    let number: f64 = parts.number.parse().map_err(|_| "bad number".to_string())?;
    let factor = parts.factor.ok_or_else(|| format!("unsupported heaptrack byte value `{value}`"))?;
    Ok(number * factor as f64)
}

#[test]
fn parses_heaptrack_summary() {
    let text = "calls to allocation functions: 8,291,212 (10/s)\n\
                peak heap memory consumption: 312.4M\n";
    let summary = parse_heaptrack(text).unwrap();
    assert_eq!(summary.allocations, 8_291_212);
    assert_eq!(parse_bytes(&summary.peak).unwrap(), 312.4 * 1024.0 * 1024.0);
}

#[test]
fn parses_heaptrack_units() {
    assert_eq!(parse_bytes("42B").unwrap(), 42.0);
    assert_eq!(parse_bytes("1.5K").unwrap(), 1536.0);
    assert_eq!(parse_bytes("2MiB").unwrap(), 2.0 * 1024.0 * 1024.0);
}

#[test]
fn heaptrack_errors_name_what_is_missing() {
    assert_eq!(parse_heaptrack("nothing").unwrap_err(), HeapError::MissingAllocationLine);
    assert_eq!(
        parse_heaptrack("calls to allocation functions:   \n").unwrap_err(),
        HeapError::MissingAllocationCount
    );
    assert_eq!(
        parse_heaptrack("calls to allocation functions: lots\n").unwrap_err(),
        HeapError::BadAllocationCount
    );
    assert_eq!(
        parse_heaptrack("calls to allocation functions: 1_000\n").unwrap_err(),
        HeapError::MissingPeakLine
    );
    assert_eq!(
        parse_heaptrack("calls to allocation functions: 1\npeak heap memory consumption:\n")
            .unwrap_err(),
        HeapError::MissingPeakValue
    );
    let unit = split_byte_value("3X");
    assert_eq!(unit.number, "3");
    assert_eq!(unit.factor, None);
    assert_eq!(split_byte_value("7TiB").factor, Some(1024u64.pow(4)));
}

#[test]
fn groups_counts_by_thousands() {
    assert_eq!(grouped(8_291_212), "8,291,212");
    assert_eq!(grouped(0), "0");
    assert_eq!(grouped(999), "999");
    assert_eq!(grouped(1000), "1,000");
    assert_eq!(grouped(u64::MAX), "18,446,744,073,709,551,615");
    let counted = parse_heaptrack(&format!(
        "calls to allocation functions: {}\npeak heap memory consumption: 1B\n",
        grouped(123_456_789)
    ))
    .unwrap();
    assert_eq!(counted.allocations, 123_456_789);
}

#[test]
fn rows_are_padded_to_their_columns() {
    let mut out = String::new();
    push_text_row(&mut out, "metric", "before", "after", "change");
    assert_eq!(
        out,
        "metric                        before         after       change\n"
    );
    let mut md = String::new();
    push_markdown_row(&mut md, "Peak heap", "1.0 MiB", "2.0 MiB", "+100.00%");
    assert_eq!(md, "| Peak heap | 1.0 MiB | 2.0 MiB | **+100.00%** |\n");
}

fn meta(commit: &str, tools: Vec<String>) -> Metadata {
    Metadata {
        git_commit: commit.to_string(),
        git_branch: "main".to_string(),
        dirty: false,
        ledger_size: 2000,
        runs: 5,
        warmup: 1,
        perf_frequency: 997,
        perf_call_graph: "dwarf".to_string(),
        enabled_tools: tools,
        command: "pm".to_string(),
        binary: "pm".to_string(),
        build_command: None,
        timestamp_unix_seconds: 0,
        tools: vec![],
    }
}

#[test]
fn comparison_checks_labels_and_settings() {
    let args = CompareArgs { before: "a".to_string(), after: "b".to_string() };
    assert_eq!(check_labels(&args), Ok(()));
    let same = CompareArgs { before: "a".to_string(), after: "a".to_string() };
    assert_eq!(check_labels(&same), Err(CompareError::SameRun));
    let bad = CompareArgs { before: "a/b".to_string(), after: "b".to_string() };
    assert_eq!(check_labels(&bad), Err(CompareError::BeforeLabel(LabelError::BadCharacter)));

    let b = meta("1", default_enabled_tools());
    let mut a = meta("2", default_enabled_tools());
    a.runs = 6;
    assert_eq!(compare(&args, &b, &a, "/r/.bench", 7).unwrap_err(), CompareError::HyperfineSettings);
    a.runs = 5;
    a.perf_call_graph = "fp".to_string();
    assert_eq!(compare(&args, &b, &a, "/r/.bench", 7).unwrap_err(), CompareError::PerfSettings);
    a.ledger_size = 100;
    assert_eq!(compare(&args, &b, &a, "/r/.bench", 7).unwrap_err(), CompareError::LedgerSizes);
    let c = meta("3", vec!["hyperfine".to_string()]);
    assert_eq!(compare(&args, &b, &c, "/r/.bench", 7).unwrap_err(), CompareError::EnabledTools);

    let agreeing = meta("2", default_enabled_tools());
    assert_eq!(compare(&same, &b, &agreeing, "/r/.bench", 7).unwrap_err(), CompareError::SameRun);
    let escaping = CompareArgs { before: "../before".to_string(), after: "b".to_string() };
    assert_eq!(
        compare(&escaping, &b, &agreeing, "/r/.bench", 7).unwrap_err(),
        CompareError::BeforeLabel(LabelError::BadCharacter)
    );
    let dots = CompareArgs { before: "a".to_string(), after: "..".to_string() };
    assert_eq!(
        compare(&dots, &b, &a, "/r/.bench", 7).unwrap_err(),
        CompareError::AfterLabel(LabelError::Reserved)
    );

    let plan = compare(&args, &b, &agreeing, "/r/.bench", 7).unwrap();
    assert!(plan.timing && plan.heap);
    assert_eq!(plan.report, "/r/.bench/compare-a-b");
    assert_eq!(plan.stage, "/r/.bench/.compare-a-b-7-staging");
    assert_eq!(plan.diffs.len(), 2);
    assert_eq!(plan.diffs[0].program, "perf");
    assert_eq!(plan.diffs[0].args, vec!["diff", "/r/.bench/a/perf.data", "/r/.bench/b/perf.data"]);
    assert_eq!(plan.diffs[1].program, "heaptrack_print");
    assert_eq!(
        plan.diffs[1].args,
        vec!["-f", "/r/.bench/b/heaptrack.zst", "--diff", "/r/.bench/a/heaptrack.zst"]
    );
    assert_eq!(plan.diffs[1].output, "/r/.bench/.compare-a-b-7-staging/heaptrack-diff.txt");

    // Settings of a profiler that did not run do not matter.
    let only = vec!["heaptrack".to_string()];
    let mut x = meta("2", only.clone());
    x.runs = 9;
    x.perf_frequency = 1;
    let plan = compare(&args, &meta("1", only), &x, "", 1).unwrap();
    assert!(!plan.timing && plan.heap);
    assert_eq!(plan.diffs.len(), 1);
    assert_eq!(plan.report, "compare-a-b");
}

#[test]
fn hyperfine_exports_need_one_clean_result() {
    assert_eq!(check_hyperfine(1, &vec![0, 0]), Ok(()));
    assert_eq!(check_hyperfine(2, &vec![0]), Err(HyperfineError::ResultCount));
    assert_eq!(check_hyperfine(1, &vec![0, 1]), Err(HyperfineError::FailedRuns));
}

fn comparison() -> Comparison {
    let mut after = meta("0123456789abcdef", default_enabled_tools());
    after.dirty = true;
    Comparison {
        before_label: "before".to_string(),
        after_label: "after".to_string(),
        before_meta: meta("abc", default_enabled_tools()),
        after_meta: after,
        timing: Some(TimingCells {
            mean_before: "1.000 s".to_string(),
            mean_after: "0.847 s".to_string(),
            mean_change: "-15.31%".to_string(),
            median_before: "1.000 s".to_string(),
            median_after: "0.900 s".to_string(),
            median_change: "-10.00%".to_string(),
        }),
        heap: Some(HeapCells {
            allocations_before: 8_291_212,
            allocations_after: 1_000,
            allocations_before_compact: "8.29 M".to_string(),
            allocations_after_compact: "1.00 K".to_string(),
            allocations_change: "-99.99%".to_string(),
            peak_before: "312.4 MiB".to_string(),
            peak_after: "1.0 MiB".to_string(),
            peak_change: "-99.68%".to_string(),
        }),
    }
}

#[test]
fn text_report_lays_out_rows_and_git_state() {
    let text = render_text(&comparison());
    let expected = "paper-muncher benchmark\nLedger: 2000 entries\nProfilers: hyperfine, perf, heaptrack\n\n\
metric                        before         after       change\n\
Runtime mean                 1.000 s       0.847 s      -15.31%\n\
Runtime median               1.000 s       0.900 s      -10.00%\n\
Allocations                8,291,212         1,000      -99.99%\n\
Peak heap                  312.4 MiB       1.0 MiB      -99.68%\n\
\nGit:\n  before: abc (main)\n  after: 01234567 (main) dirty\n";
    assert_eq!(text, expected);
}

#[test]
fn markdown_report_mentions_the_diffs() {
    let mut data = comparison();
    data.heap = None;
    let md = render_markdown(&data);
    let expected = "### Benchmark — 2000 entry ledger\n\nProfilers: hyperfine, perf, heaptrack\n\n\
| Metric | before | after | Difference |\n|---|---:|---:|---:|\n\
| Runtime (mean) | 1.000 s | 0.847 s | **-15.31%** |\n\
| Runtime (median) | 1.000 s | 0.900 s | **-10.00%** |\n\
\n`perf diff` is available in the benchmark artifacts.\n\
\nFull heaptrack results are available in the benchmark artifacts.\n";
    assert_eq!(md, expected);
    data.before_meta.enabled_tools = vec!["hyperfine".to_string()];
    data.timing = None;
    let md = render_markdown(&data);
    assert!(!md.contains("perf diff"));
    assert!(md.ends_with("|---|---:|---:|---:|\n"));
}
