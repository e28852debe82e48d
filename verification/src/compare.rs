//! Comparing two completed runs: which runs may be compared, and the report.
use vstd::prelude::*;
use crate::args::arg_views;
use crate::cli::CompareArgs;
use crate::model::{Metadata, MetadataView};
use crate::path::{join, join_path};
use crate::runner::{label_error, validate_label, LabelError};
use crate::number::{dec, dec_string, lemma_dec_digits, lemma_parse_dec, parse_u64, parse_u64_chars, all_digits};
use crate::text::{
    lines, lines_of, has_prefix, trim, trim_start, trimmed, space, is_space, chars_eq, chars_eq_str,
    boundary, boundary_exec, chars_of, is_boundary, is_digit, lemma_utf8_len_increasing, push_char,
    push_chars, push_str, slice_to, string_of, utf8_len,
};

verus! {

/// Whether `commit` can be cut after its first 8 bytes: it is at most 8 bytes
/// long, or byte 8 is a character boundary.
pub open spec fn short_commit_defined(commit: Seq<char>) -> bool {
    utf8_len(commit) <= 8 || boundary(commit, 8) is Some
}

/// The first 8 bytes of a commit hash (all of it when it is shorter).
pub open spec fn short_commit_text(commit: Seq<char>) -> Seq<char> {
    if utf8_len(commit) <= 8 {
        commit
    } else {
        commit.take(boundary(commit, 8)->0)
    }
}

/// The whole sequence is the prefix that ends at its own byte length.
proof fn lemma_whole_is_boundary(s: Seq<char>)
    ensures
        is_boundary(s, s.len() as int, utf8_len(s)),
{
    assert(s.take(s.len() as int) =~= s);
}

/// The abbreviated commit shown in reports and labels: its first 8 bytes.
pub fn short_commit(commit: &str) -> (s: String)
    requires
        short_commit_defined(commit@),
    ensures
        s@ == short_commit_text(commit@),
{
    let v = chars_of(commit);
    match boundary_exec(v.as_slice(), 8) {
        Some(k) => {
            proof {
                if utf8_len(v@) <= 8 {
                    lemma_whole_is_boundary(v@);
                    let c = choose|j: int| is_boundary(v@, j, 8);
                    if (k as int) < v@.len() {
                        lemma_utf8_len_increasing(v@, k as int, v@.len() as int);
                    }
                    assert(v@.take(k as int) =~= v@);
                }
            }
            string_of(slice_to(v.as_slice(), k).as_slice())
        },
        None => string_of(v.as_slice()),
    }
}

/// The mark that follows a commit made from a checkout with other changes.
pub open spec fn dirty_suffix_text(dirty: bool) -> Seq<char> {
    if dirty {
        " dirty"@
    } else {
        ""@
    }
}

/// The mark that follows a commit made from a checkout with other changes.
pub fn dirty_suffix(dirty: bool) -> (s: &'static str)
    ensures
        s@ == dirty_suffix_text(dirty),
{
    if dirty {
        " dirty"
    } else {
        ""
    }
}

/// `s` without the digit separators `,` and `_`.
pub open spec fn strip_separators(s: Seq<char>) -> Seq<char>
    decreases s.len(),
{
    if s.len() == 0 {
        Seq::empty()
    } else {
        strip_separators(s.drop_last()) + if s.last() == ',' || s.last() == '_' {
            Seq::<char>::empty()
        } else {
            seq![s.last()]
        }
    }
}

/// The first `k` digits of `d` with a `,` before every digit that starts a
/// group of three counted from the right end of `d`.
pub open spec fn group_prefix(d: Seq<char>, k: int) -> Seq<char>
    decreases k,
{
    if k <= 0 {
        Seq::empty()
    } else {
        group_prefix(d, k - 1) + (if k - 1 > 0 && (d.len() - (k - 1)) % 3 == 0 {
            seq![',']
        } else {
            Seq::<char>::empty()
        }) + seq![d[k - 1]]
    }
}

/// The decimal text of `n` with `,` between groups of three digits.
pub open spec fn grouped_text(n: nat) -> Seq<char> {
    group_prefix(dec(n), dec(n).len() as int)
}

/// The decimal text of `value` with `,` between groups of three digits, as
/// the text report shows allocation counts.
pub fn grouped(value: u64) -> (s: String)
    ensures
        s@ == grouped_text(value as nat),
{
    let digits = chars_of(dec_string(value).as_str());
    let n = digits.len();
    let mut out = String::new();
    let mut i: usize = 0;
    while i < n
        invariant
            i <= n,
            n == digits@.len(),
            digits@ == dec(value as nat),
            out@ == group_prefix(digits@, i as int),
        decreases n - i,
    {
        if i > 0 && (n - i) % 3 == 0 {
            push_char(&mut out, ',');
        }
        push_char(&mut out, digits[i]);
        i += 1;
        assert(out@ =~= group_prefix(digits@, i as int));
    }
    out
}

/// Separators removed from a grouped prefix leave the digits.
proof fn lemma_strip_group_prefix(d: Seq<char>, k: int)
    requires
        all_digits(d),
        0 <= k <= d.len(),
    ensures
        strip_separators(group_prefix(d, k)) == d.take(k),
    decreases k,
{
    if k > 0 {
        lemma_strip_group_prefix(d, k - 1);
        lemma_strip_append(
            group_prefix(d, k - 1) + (if k - 1 > 0 && (d.len() - (k - 1)) % 3 == 0 {
                seq![',']
            } else {
                Seq::<char>::empty()
            }),
            d[k - 1],
        );
        lemma_strip_append_sep(group_prefix(d, k - 1), k - 1 > 0 && (d.len() - (k - 1)) % 3 == 0);
        assert(d.take(k) =~= d.take(k - 1).push(d[k - 1]));
        assert(is_digit(d[k - 1]));
    } else {
        assert(d.take(0) =~= Seq::<char>::empty());
    }
}

/// Stripping a text followed by one more character.
proof fn lemma_strip_append(s: Seq<char>, c: char)
    ensures
        strip_separators(s + seq![c]) == strip_separators(s) + if c == ',' || c == '_' {
            Seq::<char>::empty()
        } else {
            seq![c]
        },
{
    assert((s + seq![c]).drop_last() =~= s);
    assert((s + seq![c]).last() == c);
}

/// Stripping a text followed by an optional comma.
proof fn lemma_strip_append_sep(s: Seq<char>, sep: bool)
    ensures
        strip_separators(
            s + if sep {
                seq![',']
            } else {
                Seq::<char>::empty()
            },
        ) == strip_separators(s),
{
    if sep {
        lemma_strip_append(s, ',');
        assert(strip_separators(s) + Seq::<char>::empty() =~= strip_separators(s));
    } else {
        assert(s + Seq::<char>::empty() =~= s);
    }
}

/// A count that the text report prints with separators reads back, through
/// the separator-tolerant parsing of heaptrack counts, as the same number.
pub proof fn law_grouped_count_reads_back(n: u64)
    ensures
        parse_u64(strip_separators(grouped_text(n as nat))) == Some(n),
{
    lemma_dec_digits(n as nat);
    lemma_strip_group_prefix(dec(n as nat), dec(n as nat).len() as int);
    assert(dec(n as nat).take(dec(n as nat).len() as int) =~= dec(n as nat));
    lemma_parse_dec(n);
}

/// `n` spaces (none when `n` is not positive).
pub open spec fn spaces(n: int) -> Seq<char> {
    Seq::new(if n > 0 {
        n as nat
    } else {
        0
    }, |i: int| ' ')
}

/// `s` followed by spaces up to `w` characters (`{:<w}`).
pub open spec fn pad_right(s: Seq<char>, w: int) -> Seq<char> {
    s + spaces(w - s.len())
}

/// `s` after spaces up to `w` characters (`{:>w}`).
pub open spec fn pad_left(s: Seq<char>, w: int) -> Seq<char> {
    spaces(w - s.len()) + s
}

/// One row of the text report: metric, two values and the change, in
/// columns 22, 13, 13 and 12 characters wide.
pub open spec fn text_row(m: Seq<char>, b: Seq<char>, a: Seq<char>, c: Seq<char>) -> Seq<char> {
    pad_right(m, 22) + seq![' '] + pad_left(b, 13) + seq![' '] + pad_left(a, 13) + seq![' ']
        + pad_left(c, 12) + seq!['\n']
}

/// One row of the Markdown report, the change in bold.
pub open spec fn markdown_row(m: Seq<char>, b: Seq<char>, a: Seq<char>, c: Seq<char>) -> Seq<
    char,
> {
    "| "@ + m + " | "@ + b + " | "@ + a + " | **"@ + c + "** |\n"@
}

/// Appends `n` spaces.
fn push_spaces(out: &mut String, n: usize)
    ensures
        final(out)@ == old(out)@ + spaces(n as int),
{
    let mut i: usize = 0;
    while i < n
        invariant
            i <= n,
            out@ == old(out)@ + spaces(i as int),
        decreases n - i,
    {
        push_char(out, ' ');
        i += 1;
        assert(out@ =~= old(out)@ + spaces(i as int));
    }
}

/// Appends `s` padded on the right to `w` characters.
fn push_pad_right(out: &mut String, s: &str, w: usize)
    ensures
        final(out)@ == old(out)@ + pad_right(s@, w as int),
{
    let v = chars_of(s);
    push_chars(out, v.as_slice());
    let n: usize = if v.len() < w {
        w - v.len()
    } else {
        0
    };
    push_spaces(out, n);
    assert(spaces(n as int) =~= spaces(w - s@.len()));
}

/// Appends `s` padded on the left to `w` characters.
fn push_pad_left(out: &mut String, s: &str, w: usize)
    ensures
        final(out)@ == old(out)@ + pad_left(s@, w as int),
{
    let v = chars_of(s);
    let n: usize = if v.len() < w {
        w - v.len()
    } else {
        0
    };
    push_spaces(out, n);
    assert(spaces(n as int) =~= spaces(w - s@.len()));
    push_chars(out, v.as_slice());
}

/// Appends one row of the text report.
pub fn push_text_row(output: &mut String, metric: &str, before: &str, after: &str, change: &str)
    ensures
        final(output)@ == old(output)@ + text_row(metric@, before@, after@, change@),
{
    push_pad_right(output, metric, 22);
    push_char(output, ' ');
    push_pad_left(output, before, 13);
    push_char(output, ' ');
    push_pad_left(output, after, 13);
    push_char(output, ' ');
    push_pad_left(output, change, 12);
    push_char(output, '\n');
    assert(output@ =~= old(output)@ + text_row(metric@, before@, after@, change@));
}

/// Appends one row of the Markdown report.
pub fn push_markdown_row(output: &mut String, metric: &str, before: &str, after: &str, change: &str)
    ensures
        final(output)@ == old(output)@ + markdown_row(metric@, before@, after@, change@),
{
    push_str(output, "| ");
    push_str(output, metric);
    push_str(output, " | ");
    push_str(output, before);
    push_str(output, " | ");
    push_str(output, after);
    push_str(output, " | **");
    push_str(output, change);
    push_str(output, "** |\n");
    assert(output@ =~= old(output)@ + markdown_row(metric@, before@, after@, change@));
}

/// Words joined by `sep`.
pub open spec fn joined(ws: Seq<Seq<char>>, sep: Seq<char>) -> Seq<char>
    decreases ws.len(),
{
    if ws.len() == 0 {
        Seq::empty()
    } else if ws.len() == 1 {
        ws[0]
    } else {
        joined(ws.drop_last(), sep) + sep + ws.last()
    }
}

/// Appends the words of `ws` joined by `sep`.
fn push_joined(out: &mut String, ws: &Vec<String>, sep: &str)
    ensures
        final(out)@ == old(out)@ + joined(arg_views(ws@), sep@),
{
    let ghost wv = arg_views(ws@);
    let mut i: usize = 0;
    assert(wv.take(0) =~= Seq::<Seq<char>>::empty());
    while i < ws.len()
        invariant
            i <= ws.len(),
            wv == arg_views(ws@),
            out@ == old(out)@ + joined(wv.take(i as int), sep@),
        decreases ws.len() - i,
    {
        assert(wv.take(i + 1).drop_last() =~= wv.take(i as int));
        assert(wv.take(i + 1).last() == ws@[i as int]@);
        if i > 0 {
            push_str(out, sep);
        } else {
            assert(wv.take(1) =~= seq![ws@[0]@]);
        }
        push_str(out, ws[i].as_str());
        i += 1;
        assert(out@ =~= old(out)@ + joined(wv.take(i as int), sep@));
    }
    assert(wv.take(ws.len() as int) =~= wv);
}

/// Whether a list of words holds `t`.
pub fn contains_text(ws: &Vec<String>, t: &str) -> (b: bool)
    ensures
        b == arg_views(ws@).contains(t@),
{
    let tv = chars_of(t);
    let mut i: usize = 0;
    while i < ws.len()
        invariant
            i <= ws.len(),
            tv@ == t@,
            forall|j: int| 0 <= j < i ==> arg_views(ws@)[j] != t@,
        decreases ws.len() - i,
    {
        let w = chars_of(ws[i].as_str());
        if crate::text::chars_eq(w.as_slice(), tv.as_slice()) {
            assert(arg_views(ws@)[i as int] == t@);
            return true;
        }
        i += 1;
    }
    false
}

/// Timing cells of the report, already written out.
#[derive(Clone, Debug)]
pub struct TimingCells {
    pub mean_before: String,
    pub mean_after: String,
    pub mean_change: String,
    pub median_before: String,
    pub median_after: String,
    pub median_change: String,
}

/// Heap cells of the report; the allocation counts as numbers, the rest
/// already written out.
#[derive(Clone, Debug)]
pub struct HeapCells {
    pub allocations_before: u64,
    pub allocations_after: u64,
    /// The allocation counts in the short form of the Markdown report.
    pub allocations_before_compact: String,
    pub allocations_after_compact: String,
    pub allocations_change: String,
    pub peak_before: String,
    pub peak_after: String,
    pub peak_change: String,
}

/// Everything a comparison report shows.
#[derive(Clone, Debug)]
pub struct Comparison {
    pub before_label: String,
    pub after_label: String,
    pub before_meta: Metadata,
    pub after_meta: Metadata,
    /// Present when both runs have timings.
    pub timing: Option<TimingCells>,
    /// Present when both runs have heap summaries.
    pub heap: Option<HeapCells>,
}

/// Whether the report can abbreviate both commits.
pub open spec fn commits_shortenable(d: Comparison) -> bool {
    short_commit_defined(d.before_meta.git_commit@) && short_commit_defined(
        d.after_meta.git_commit@,
    )
}

/// The git line of one run in the text report.
pub open spec fn git_line(label: Seq<char>, m: Metadata) -> Seq<char> {
    "  "@ + label + ": "@ + short_commit_text(m.git_commit@) + " ("@ + m.git_branch@ + ")"@
        + dirty_suffix_text(m.dirty) + "\n"@
}

/// The text report.
pub open spec fn text_report(d: Comparison) -> Seq<char> {
    let m = d.before_meta;
    "paper-muncher benchmark\nLedger: "@ + dec(m.ledger_size as nat) + " entries\nProfilers: "@
        + joined(arg_views(m.enabled_tools@), ", "@) + "\n\n"@ + text_row(
        "metric"@,
        d.before_label@,
        d.after_label@,
        "change"@,
    ) + match d.timing {
        Some(t) => text_row("Runtime mean"@, t.mean_before@, t.mean_after@, t.mean_change@)
            + text_row("Runtime median"@, t.median_before@, t.median_after@, t.median_change@),
        None => Seq::empty(),
    } + match d.heap {
        Some(h) => text_row(
            "Allocations"@,
            grouped_text(h.allocations_before as nat),
            grouped_text(h.allocations_after as nat),
            h.allocations_change@,
        ) + text_row("Peak heap"@, h.peak_before@, h.peak_after@, h.peak_change@),
        None => Seq::empty(),
    } + "\nGit:\n"@ + git_line(d.before_label@, d.before_meta) + git_line(
        d.after_label@,
        d.after_meta,
    )
}

/// Appends the git line of one run.
fn push_git_line(out: &mut String, label: &str, m: &Metadata)
    requires
        short_commit_defined(m.git_commit@),
    ensures
        final(out)@ == old(out)@ + git_line(label@, *m),
{
    push_str(out, "  ");
    push_str(out, label);
    push_str(out, ": ");
    let c = short_commit(m.git_commit.as_str());
    push_str(out, c.as_str());
    push_str(out, " (");
    push_str(out, m.git_branch.as_str());
    push_str(out, ")");
    push_str(out, dirty_suffix(m.dirty));
    push_str(out, "\n");
    assert(out@ =~= old(out)@ + git_line(label@, *m));
}

/// The plain-text comparison report (`summary.txt`).
pub fn render_text(data: &Comparison) -> (s: String)
    requires
        commits_shortenable(*data),
    ensures
        s@ == text_report(*data),
{
    let m = &data.before_meta;
    let mut out = String::new();
    push_str(&mut out, "paper-muncher benchmark\nLedger: ");
    push_str(&mut out, dec_string(m.ledger_size).as_str());
    push_str(&mut out, " entries\nProfilers: ");
    push_joined(&mut out, &m.enabled_tools, ", ");
    push_str(&mut out, "\n\n");
    push_text_row(
        &mut out,
        "metric",
        data.before_label.as_str(),
        data.after_label.as_str(),
        "change",
    );
    let ghost head = out@;
    match &data.timing {
        Some(t) => {
            push_text_row(
                &mut out,
                "Runtime mean",
                t.mean_before.as_str(),
                t.mean_after.as_str(),
                t.mean_change.as_str(),
            );
            push_text_row(
                &mut out,
                "Runtime median",
                t.median_before.as_str(),
                t.median_after.as_str(),
                t.median_change.as_str(),
            );
        },
        None => {},
    }
    let ghost with_time = out@;
    match &data.heap {
        Some(h) => {
            push_text_row(
                &mut out,
                "Allocations",
                grouped(h.allocations_before).as_str(),
                grouped(h.allocations_after).as_str(),
                h.allocations_change.as_str(),
            );
            push_text_row(
                &mut out,
                "Peak heap",
                h.peak_before.as_str(),
                h.peak_after.as_str(),
                h.peak_change.as_str(),
            );
        },
        None => {},
    }
    let ghost with_heap = out@;
    push_str(&mut out, "\nGit:\n");
    push_git_line(&mut out, data.before_label.as_str(), &data.before_meta);
    push_git_line(&mut out, data.after_label.as_str(), &data.after_meta);
    assert(out@ =~= text_report(*data));
    out
}

/// The Markdown report.
pub open spec fn markdown_report(d: Comparison) -> Seq<char> {
    let m = d.before_meta;
    let tools = arg_views(m.enabled_tools@);
    "### Benchmark — "@ + dec(m.ledger_size as nat) + " entry ledger\n\nProfilers: "@ + joined(
        tools,
        ", "@,
    ) + "\n\n| Metric | "@ + d.before_label@ + " | "@ + d.after_label@
        + " | Difference |\n|---|---:|---:|---:|\n"@ + match d.timing {
        Some(t) => markdown_row("Runtime (mean)"@, t.mean_before@, t.mean_after@, t.mean_change@)
            + markdown_row(
            "Runtime (median)"@,
            t.median_before@,
            t.median_after@,
            t.median_change@,
        ),
        None => Seq::empty(),
    } + match d.heap {
        Some(h) => markdown_row(
            "Allocations"@,
            h.allocations_before_compact@,
            h.allocations_after_compact@,
            h.allocations_change@,
        ) + markdown_row("Peak heap"@, h.peak_before@, h.peak_after@, h.peak_change@),
        None => Seq::empty(),
    } + (if tools.contains("perf"@) {
        "\n`perf diff` is available in the benchmark artifacts.\n"@
    } else {
        Seq::empty()
    }) + (if tools.contains("heaptrack"@) {
        "\nFull heaptrack results are available in the benchmark artifacts.\n"@
    } else {
        Seq::empty()
    })
}

/// The Markdown comparison report (`summary.md`).
pub fn render_markdown(data: &Comparison) -> (s: String)
    ensures
        s@ == markdown_report(*data),
{
    let m = &data.before_meta;
    let mut out = String::new();
    push_str(&mut out, "### Benchmark — ");
    push_str(&mut out, dec_string(m.ledger_size).as_str());
    push_str(&mut out, " entry ledger\n\nProfilers: ");
    push_joined(&mut out, &m.enabled_tools, ", ");
    push_str(&mut out, "\n\n| Metric | ");
    push_str(&mut out, data.before_label.as_str());
    push_str(&mut out, " | ");
    push_str(&mut out, data.after_label.as_str());
    push_str(&mut out, " | Difference |\n|---|---:|---:|---:|\n");
    let ghost head = out@;
    match &data.timing {
        Some(t) => {
            push_markdown_row(
                &mut out,
                "Runtime (mean)",
                t.mean_before.as_str(),
                t.mean_after.as_str(),
                t.mean_change.as_str(),
            );
            push_markdown_row(
                &mut out,
                "Runtime (median)",
                t.median_before.as_str(),
                t.median_after.as_str(),
                t.median_change.as_str(),
            );
        },
        None => {},
    }
    let ghost with_time = out@;
    match &data.heap {
        Some(h) => {
            push_markdown_row(
                &mut out,
                "Allocations",
                h.allocations_before_compact.as_str(),
                h.allocations_after_compact.as_str(),
                h.allocations_change.as_str(),
            );
            push_markdown_row(
                &mut out,
                "Peak heap",
                h.peak_before.as_str(),
                h.peak_after.as_str(),
                h.peak_change.as_str(),
            );
        },
        None => {},
    }
    let ghost with_heap = out@;
    if contains_text(&m.enabled_tools, "perf") {
        push_str(&mut out, "\n`perf diff` is available in the benchmark artifacts.\n");
    }
    let ghost with_perf = out@;
    if contains_text(&m.enabled_tools, "heaptrack") {
        push_str(&mut out, "\nFull heaptrack results are available in the benchmark artifacts.\n");
    }
    assert(out@ =~= markdown_report(*data));
    out
}

/// Why two runs cannot be compared.
#[derive(Clone, Copy, Debug, PartialEq, Eq, Structural)]
pub enum CompareError {
    /// The baseline label is refused.
    BeforeLabel(LabelError),
    /// The candidate label is refused.
    AfterLabel(LabelError),
    /// Both labels name the same run.
    SameRun,
    /// The runs generated ledgers of different sizes.
    LedgerSizes,
    /// The runs enabled different profilers.
    EnabledTools,
    /// Both ran Hyperfine, with different run or warmup counts.
    HyperfineSettings,
    /// Both ran perf, with different frequencies or call-graph modes.
    PerfSettings,
}

/// What is wrong with the labels of a comparison, checked in this order.
pub open spec fn labels_error(before: Seq<char>, after: Seq<char>) -> Option<CompareError> {
    match label_error(before) {
        Some(e) => Some(CompareError::BeforeLabel(e)),
        None => match label_error(after) {
            Some(e) => Some(CompareError::AfterLabel(e)),
            None => if before == after {
                Some(CompareError::SameRun)
            } else {
                None
            },
        },
    }
}

/// Accepts the labels of a comparison: both valid, and not the same run.
pub fn check_labels(args: &CompareArgs) -> (r: Result<(), CompareError>)
    ensures
        r == match labels_error(args.before@, args.after@) {
            Some(e) => Err(e),
            None => Ok(()),
        },
{
    match validate_label(args.before.as_str()) {
        Err(e) => {
            return Err(CompareError::BeforeLabel(e));
        },
        Ok(()) => {},
    }
    match validate_label(args.after.as_str()) {
        Err(e) => {
            return Err(CompareError::AfterLabel(e));
        },
        Ok(()) => {},
    }
    if args.before == args.after {
        return Err(CompareError::SameRun);
    }
    Ok(())
}

/// What makes two runs' metadata incomparable, checked in this order: the
/// ledger size, the enabled profilers, the Hyperfine settings when Hyperfine
/// ran, and the perf settings when perf ran.
pub open spec fn metadata_error(b: MetadataView, a: MetadataView) -> Option<CompareError> {
    if b.ledger_size != a.ledger_size {
        Some(CompareError::LedgerSizes)
    } else if b.enabled_tools != a.enabled_tools {
        Some(CompareError::EnabledTools)
    } else if b.enabled_tools.contains("hyperfine"@) && !(b.runs == a.runs && b.warmup
        == a.warmup) {
        Some(CompareError::HyperfineSettings)
    } else if b.enabled_tools.contains("perf"@) && !(b.perf_frequency == a.perf_frequency
        && b.perf_call_graph == a.perf_call_graph) {
        Some(CompareError::PerfSettings)
    } else {
        None
    }
}

/// A command whose output the report keeps.
#[derive(Clone, Debug)]
pub struct DiffStep {
    /// The program, by name: `perf` or `heaptrack_print`.
    pub program: String,
    pub args: Vec<String>,
    /// Where its combined output goes.
    pub output: String,
}

/// What a comparison reads and writes.
#[derive(Clone, Debug)]
pub struct ComparePlan {
    /// Read both `hyperfine.json` files.
    pub timing: bool,
    /// Read both `heaptrack.txt` files.
    pub heap: bool,
    /// Diffs to run into the staging directory, in order.
    pub diffs: Vec<DiffStep>,
    /// The report's directory.
    pub report: String,
    /// The staging directory that becomes the report.
    pub stage: String,
}

/// Names a directory under `.bench`: `<prefix><before>-<after><suffix>`.
pub open spec fn compare_name(prefix: Seq<char>, b: Seq<char>, a: Seq<char>, suffix: Seq<char>) -> Seq<
    char,
> {
    prefix + b + "-"@ + a + suffix
}

/// The diffs of a comparison: `perf diff` when perf ran, then heaptrack's
/// diff of the candidate against the baseline when heaptrack ran.
pub open spec fn diff_steps(
    tools: Seq<Seq<char>>,
    before_dir: Seq<char>,
    after_dir: Seq<char>,
    stage: Seq<char>,
) -> Seq<(Seq<char>, Seq<Seq<char>>, Seq<char>)> {
    (if tools.contains("perf"@) {
        seq![
            (
                "perf"@,
                seq!["diff"@, join(before_dir, "perf.data"@), join(after_dir, "perf.data"@)],
                join(stage, "perf-diff.txt"@),
            ),
        ]
    } else {
        Seq::empty()
    }) + (if tools.contains("heaptrack"@) {
        seq![
            (
                "heaptrack_print"@,
                seq![
                    "-f"@,
                    join(after_dir, "heaptrack.zst"@),
                    "--diff"@,
                    join(before_dir, "heaptrack.zst"@),
                ],
                join(stage, "heaptrack-diff.txt"@),
            ),
        ]
    } else {
        Seq::empty()
    })
}

/// The texts of a diff step.
pub open spec fn diff_view(d: DiffStep) -> (Seq<char>, Seq<Seq<char>>, Seq<char>) {
    (d.program@, arg_views(d.args@), d.output@)
}

/// Why a comparison is refused: the labels are checked first, the two
/// runs' metadata only once the labels are accepted.
pub open spec fn comparison_error(args: CompareArgs, b: MetadataView, a: MetadataView) -> Option<
    CompareError,
> {
    match labels_error(args.before@, args.after@) {
        Some(e) => Some(e),
        None => metadata_error(b, a),
    }
}

/// Decides whether two runs can be compared and, if so, what the comparison
/// reads, which diffs it runs, and where the report goes (`bench_root` is
/// the `.bench` directory, `pid` names the staging directory). Refused
/// labels and the same run twice are refused before the metadata is looked at.
pub fn compare(
    args: &CompareArgs,
    before_meta: &Metadata,
    after_meta: &Metadata,
    bench_root: &str,
    pid: u32,
) -> (r: Result<ComparePlan, CompareError>)
    ensures
        match r {
            Err(e) => comparison_error(*args, before_meta@, after_meta@) == Some(e),
            Ok(plan) => {
                let tools = before_meta@.enabled_tools;
                let bd = join(bench_root@, args.before@);
                let ad = join(bench_root@, args.after@);
                &&& comparison_error(*args, before_meta@, after_meta@) is None
                &&& plan.timing == tools.contains("hyperfine"@)
                &&& plan.heap == tools.contains("heaptrack"@)
                &&& plan.report@ == join(
                    bench_root@,
                    compare_name("compare-"@, args.before@, args.after@, Seq::<char>::empty()),
                )
                &&& plan.stage@ == join(
                    bench_root@,
                    compare_name(
                        ".compare-"@,
                        args.before@,
                        args.after@,
                        "-"@ + dec(pid as nat) + "-staging"@,
                    ),
                )
                &&& plan.diffs@.map_values(|d: DiffStep| diff_view(d)) == diff_steps(
                    tools,
                    bd,
                    ad,
                    plan.stage@,
                )
            },
        },
{
    match check_labels(args) {
        Err(e) => {
            return Err(e);
        },
        Ok(()) => {},
    }
    let b = before_meta;
    let a = after_meta;
    if b.ledger_size != a.ledger_size {
        return Err(CompareError::LedgerSizes);
    }
    if !same_words(&b.enabled_tools, &a.enabled_tools) {
        return Err(CompareError::EnabledTools);
    }
    let hyperfine = contains_text(&b.enabled_tools, "hyperfine");
    let perf = contains_text(&b.enabled_tools, "perf");
    let heaptrack = contains_text(&b.enabled_tools, "heaptrack");
    if hyperfine && !(b.runs == a.runs && b.warmup == a.warmup) {
        return Err(CompareError::HyperfineSettings);
    }
    if perf && !(b.perf_frequency == a.perf_frequency && b.perf_call_graph == a.perf_call_graph) {
        return Err(CompareError::PerfSettings);
    }
    let mut report_name = String::new();
    push_str(&mut report_name, "compare-");
    push_str(&mut report_name, args.before.as_str());
    push_str(&mut report_name, "-");
    push_str(&mut report_name, args.after.as_str());
    assert(report_name@ =~= compare_name("compare-"@, args.before@, args.after@, Seq::<char>::empty()));
    let mut stage_name = String::new();
    push_str(&mut stage_name, ".compare-");
    push_str(&mut stage_name, args.before.as_str());
    push_str(&mut stage_name, "-");
    push_str(&mut stage_name, args.after.as_str());
    push_str(&mut stage_name, "-");
    push_str(&mut stage_name, dec_string(pid as u64).as_str());
    push_str(&mut stage_name, "-staging");
    assert(stage_name@ =~= compare_name(
        ".compare-"@,
        args.before@,
        args.after@,
        "-"@ + dec(pid as nat) + "-staging"@,
    ));
    let report = join_path(bench_root, report_name.as_str());
    let stage = join_path(bench_root, stage_name.as_str());
    let before_dir = join_path(bench_root, args.before.as_str());
    let after_dir = join_path(bench_root, args.after.as_str());
    let mut diffs: Vec<DiffStep> = Vec::new();
    if perf {
        let mut dargs: Vec<String> = Vec::new();
        dargs.push("diff".to_owned());
        dargs.push(join_path(before_dir.as_str(), "perf.data"));
        dargs.push(join_path(after_dir.as_str(), "perf.data"));
        assert(arg_views(dargs@) =~= seq![
            "diff"@,
            join(before_dir@, "perf.data"@),
            join(after_dir@, "perf.data"@),
        ]);
        diffs.push(
            DiffStep {
                program: "perf".to_owned(),
                args: dargs,
                output: join_path(stage.as_str(), "perf-diff.txt"),
            },
        );
    }
    if heaptrack {
        let mut dargs: Vec<String> = Vec::new();
        dargs.push("-f".to_owned());
        dargs.push(join_path(after_dir.as_str(), "heaptrack.zst"));
        dargs.push("--diff".to_owned());
        dargs.push(join_path(before_dir.as_str(), "heaptrack.zst"));
        assert(arg_views(dargs@) =~= seq![
            "-f"@,
            join(after_dir@, "heaptrack.zst"@),
            "--diff"@,
            join(before_dir@, "heaptrack.zst"@),
        ]);
        diffs.push(
            DiffStep {
                program: "heaptrack_print".to_owned(),
                args: dargs,
                output: join_path(stage.as_str(), "heaptrack-diff.txt"),
            },
        );
    }
    assert(diffs@.map_values(|d: DiffStep| diff_view(d)) =~= diff_steps(
        b@.enabled_tools,
        before_dir@,
        after_dir@,
        stage@,
    ));
    Ok(ComparePlan { timing: hyperfine, heap: heaptrack, diffs, report, stage })
}

/// Whether two lists of words are equal.
fn same_words(x: &Vec<String>, y: &Vec<String>) -> (b: bool)
    ensures
        b == (arg_views(x@) == arg_views(y@)),
{
    if x.len() != y.len() {
        assert(arg_views(x@).len() != arg_views(y@).len());
        return false;
    }
    let mut i: usize = 0;
    while i < x.len()
        invariant
            i <= x.len(),
            x.len() == y.len(),
            forall|j: int| 0 <= j < i ==> arg_views(x@)[j] == arg_views(y@)[j],
        decreases x.len() - i,
    {
        if x[i] != y[i] {
            assert(arg_views(x@)[i as int] != arg_views(y@)[i as int]);
            return false;
        }
        i += 1;
    }
    assert(arg_views(x@) =~= arg_views(y@));
    true
}

/// The first line whose trimmed form starts with `prefix`, from line `i` on:
/// the rest of that trimmed line, trimmed again.
pub open spec fn value_after_from(ls: Seq<Seq<char>>, prefix: Seq<char>, i: int) -> Option<Seq<char>>
    decreases ls.len() - i,
{
    if i < 0 || i >= ls.len() {
        None
    } else if has_prefix(trim(ls[i]), prefix) {
        Some(trim(trim(ls[i]).skip(prefix.len() as int)))
    } else {
        value_after_from(ls, prefix, i + 1)
    }
}

/// What follows `prefix` on the first line of `text` that starts with it
/// (leading and trailing white space ignored).
pub open spec fn value_after(text: Seq<char>, prefix: Seq<char>) -> Option<Seq<char>> {
    value_after_from(lines(text), prefix, 0)
}

/// Executable form of [`value_after`] over the lines of a text.
fn value_after_exec(ls: &Vec<Vec<char>>, prefix: &str) -> (r: Option<Vec<char>>)
    ensures
        match r {
            Some(v) => value_after_from(crate::text::piece_views(ls@), prefix@, 0) == Some(v@),
            None => value_after_from(crate::text::piece_views(ls@), prefix@, 0) is None,
        },
{
    let ghost lv = crate::text::piece_views(ls@);
    let pv = chars_of(prefix);
    let mut i: usize = 0;
    while i < ls.len()
        invariant
            i <= ls.len(),
            lv == crate::text::piece_views(ls@),
            pv@ == prefix@,
            value_after_from(lv, prefix@, 0) == value_after_from(lv, prefix@, i as int),
        decreases ls.len() - i,
    {
        let t = trimmed(ls[i].as_slice());
        assert(t@ == trim(lv[i as int]));
        if crate::text::starts_with(t.as_slice(), pv.as_slice()) {
            let rest = crate::text::slice_from(t.as_slice(), pv.len());
            return Some(trimmed(rest.as_slice()));
        }
        i += 1;
    }
    None
}

/// The characters of `t` up to its first white space.
pub open spec fn until_space(t: Seq<char>) -> Seq<char>
    decreases t.len(),
{
    if t.len() == 0 || is_space(t[0]) {
        Seq::empty()
    } else {
        seq![t[0]] + until_space(t.drop_first())
    }
}

/// The first white-space-separated word of `s` (`split_whitespace().next()`).
pub open spec fn first_word(s: Seq<char>) -> Option<Seq<char>> {
    let t = trim_start(s);
    if t.len() == 0 {
        None
    } else {
        Some(until_space(t))
    }
}

/// Executable form of [`first_word`].
fn first_word_exec(s: &[char]) -> (r: Option<Vec<char>>)
    ensures
        match r {
            Some(w) => first_word(s@) == Some(w@),
            None => first_word(s@) is None,
        },
{
    let i = crate::text::trim_start_index(s, crate::text::Strip::Space);
    if i == s.len() {
        return None;
    }
    let mut j: usize = i;
    assert(s@.subrange(i as int, i as int) =~= Seq::<char>::empty());
    assert(until_space(s@.skip(i as int)) =~= s@.subrange(i as int, i as int) + until_space(
        s@.skip(i as int),
    ));
    while j < s.len() && !space(s[j])
        invariant
            i <= j <= s.len(),
            until_space(s@.skip(i as int)) == s@.subrange(i as int, j as int) + until_space(
                s@.skip(j as int),
            ),
        decreases s.len() - j,
    {
        assert(s@.skip(j as int).drop_first() =~= s@.skip(j + 1));
        assert(s@.skip(j as int)[0] == s@[j as int]);
        assert(s@.subrange(i as int, j + 1) =~= s@.subrange(i as int, j as int) + seq![s@[j as int]]);
        j += 1;
    }
    assert(until_space(s@.skip(j as int)) =~= Seq::<char>::empty()) by {
        if j < s.len() {
            assert(s@.skip(j as int)[0] == s@[j as int]);
        }
    }
    let w = crate::text::slice_from(slice_to(s, j).as_slice(), i);
    assert(w@ =~= s@.subrange(i as int, j as int));
    Some(w)
}

/// `s` without `,` and `_`.
fn strip_separators_exec(s: &[char]) -> (r: Vec<char>)
    ensures
        r@ == strip_separators(s@),
{
    let mut r: Vec<char> = Vec::new();
    let mut k: usize = 0;
    assert(s@.take(0) =~= Seq::<char>::empty());
    while k < s.len()
        invariant
            k <= s.len(),
            r@ == strip_separators(s@.take(k as int)),
        decreases s.len() - k,
    {
        assert(s@.take(k + 1).drop_last() =~= s@.take(k as int));
        assert(s@.take(k + 1).last() == s@[k as int]);
        if !(s[k] == ',' || s[k] == '_') {
            r.push(s[k]);
        }
        k += 1;
        assert(r@ =~= strip_separators(s@.take(k as int)));
    }
    assert(s@.take(s.len() as int) =~= s@);
    r
}

/// Why a heaptrack summary cannot be read.
#[derive(Clone, Copy, Debug, PartialEq, Eq, Structural)]
pub enum HeapError {
    /// No `calls to allocation functions:` line.
    MissingAllocationLine,
    /// That line has nothing after the prefix.
    MissingAllocationCount,
    /// The count is not a number (after removing `,` and `_`).
    BadAllocationCount,
    /// No `peak heap memory consumption:` line.
    MissingPeakLine,
    /// That line has nothing after the prefix.
    MissingPeakValue,
}

/// The two figures of a heaptrack summary that a report shows.
#[derive(Clone, Debug)]
pub struct HeapCounts {
    /// Calls to allocation functions.
    pub allocations: u64,
    /// Peak heap memory consumption as heaptrack writes it, such as `312.4M`.
    pub peak: String,
}

/// What `heaptrack_print` output reads as: the first word after
/// `calls to allocation functions:`, without separators, as a number; and
/// the first word after `peak heap memory consumption:`.
pub open spec fn heaptrack_summary(text: Seq<char>) -> Result<(u64, Seq<char>), HeapError> {
    match value_after(text, "calls to allocation functions:"@) {
        None => Err(HeapError::MissingAllocationLine),
        Some(v) => match first_word(v) {
            None => Err(HeapError::MissingAllocationCount),
            Some(w) => match parse_u64(strip_separators(w)) {
                None => Err(HeapError::BadAllocationCount),
                Some(n) => match value_after(text, "peak heap memory consumption:"@) {
                    None => Err(HeapError::MissingPeakLine),
                    Some(p) => match first_word(p) {
                        None => Err(HeapError::MissingPeakValue),
                        Some(q) => Ok((n, q)),
                    },
                },
            },
        },
    }
}

/// Reads the allocation count and the peak heap value of a heaptrack summary.
pub fn parse_heaptrack(text: &str) -> (r: Result<HeapCounts, HeapError>)
    ensures
        match r {
            Ok(h) => heaptrack_summary(text@) == Ok::<(u64, Seq<char>), HeapError>(
                (h.allocations, h.peak@),
            ),
            Err(e) => heaptrack_summary(text@) == Err::<(u64, Seq<char>), HeapError>(e),
        },
{
    let tv = chars_of(text);
    let ls = lines_of(tv.as_slice());
    assert(crate::text::piece_views(ls@) =~= lines(text@));
    let v = match value_after_exec(&ls, "calls to allocation functions:") {
        Some(v) => v,
        None => {
            return Err(HeapError::MissingAllocationLine);
        },
    };
    let w = match first_word_exec(v.as_slice()) {
        Some(w) => w,
        None => {
            return Err(HeapError::MissingAllocationCount);
        },
    };
    let digits = strip_separators_exec(w.as_slice());
    let allocations = match parse_u64_chars(digits.as_slice()) {
        Some(n) => n,
        None => {
            return Err(HeapError::BadAllocationCount);
        },
    };
    let p = match value_after_exec(&ls, "peak heap memory consumption:") {
        Some(p) => p,
        None => {
            return Err(HeapError::MissingPeakLine);
        },
    };
    let q = match first_word_exec(p.as_slice()) {
        Some(q) => q,
        None => {
            return Err(HeapError::MissingPeakValue);
        },
    };
    Ok(HeapCounts { allocations, peak: string_of(q.as_slice()) })
}

/// Whether `c` may appear in the number of a byte value.
pub open spec fn is_number_char(c: char) -> bool {
    is_digit(c) || c == '.'
}

/// The leading digits and dots of a byte value.
pub open spec fn number_part(v: Seq<char>) -> Seq<char>
    decreases v.len(),
{
    if v.len() == 0 || !is_number_char(v[0]) {
        Seq::empty()
    } else {
        seq![v[0]] + number_part(v.drop_first())
    }
}

/// The bytes that a heaptrack unit stands for.
pub open spec fn unit_factor(u: Seq<char>) -> Option<u64> {
    if u == ""@ || u == "B"@ {
        Some(1)
    } else if u == "K"@ || u == "KiB"@ {
        Some(1024)
    } else if u == "M"@ || u == "MiB"@ {
        Some(1048576)
    } else if u == "G"@ || u == "GiB"@ {
        Some(1073741824)
    } else if u == "T"@ || u == "TiB"@ {
        Some(1099511627776)
    } else {
        None
    }
}

/// A heaptrack byte value cut into its number and its unit.
#[derive(Clone, Debug)]
pub struct ByteValue {
    /// The leading digits and dots.
    pub number: String,
    /// The bytes that the unit stands for; `None` for an unknown unit.
    pub factor: Option<u64>,
}

/// Cuts a heaptrack byte value such as `312.4M` into `312.4` and the
/// factor of `M`, 1024 * 1024.
pub fn split_byte_value(value: &str) -> (r: ByteValue)
    ensures
        r.number@ == number_part(value@),
        r.factor == unit_factor(value@.skip(number_part(value@).len() as int)),
{
    let v = chars_of(value);
    let mut j: usize = 0;
    assert(v@.skip(0) =~= v@);
    assert(number_part(v@) =~= v@.take(0) + number_part(v@.skip(0)));
    while j < v.len() && (('0' <= v[j] && v[j] <= '9') || v[j] == '.')
        invariant
            j <= v.len(),
            number_part(v@) == v@.take(j as int) + number_part(v@.skip(j as int)),
        decreases v.len() - j,
    {
        assert(v@.skip(j as int).drop_first() =~= v@.skip(j + 1));
        assert(v@.skip(j as int)[0] == v@[j as int]);
        assert(v@.take(j + 1) =~= v@.take(j as int) + seq![v@[j as int]]);
        j += 1;
    }
    assert(number_part(v@.skip(j as int)) =~= Seq::<char>::empty()) by {
        if j < v.len() {
            assert(v@.skip(j as int)[0] == v@[j as int]);
        }
    }
    assert(v@.take(j as int) + Seq::<char>::empty() =~= v@.take(j as int));
    let number = string_of(slice_to(v.as_slice(), j).as_slice());
    let unit = crate::text::slice_from(v.as_slice(), j);
    let u = unit.as_slice();
    let factor = if chars_eq_str(u, "") || chars_eq_str(u, "B") {
        Some(1u64)
    } else if chars_eq_str(u, "K") || chars_eq_str(u, "KiB") {
        Some(1024u64)
    } else if chars_eq_str(u, "M") || chars_eq_str(u, "MiB") {
        Some(1048576u64)
    } else if chars_eq_str(u, "G") || chars_eq_str(u, "GiB") {
        Some(1073741824u64)
    } else if chars_eq_str(u, "T") || chars_eq_str(u, "TiB") {
        Some(1099511627776u64)
    } else {
        None
    };
    ByteValue { number, factor }
}

/// Why a Hyperfine export cannot be used.
#[derive(Clone, Copy, Debug, PartialEq, Eq, Structural)]
pub enum HyperfineError {
    /// The export does not hold exactly one result.
    ResultCount,
    /// Some benchmark run exited with a non-zero code.
    FailedRuns,
}

/// What is wrong with a Hyperfine export, from its result count and the exit
/// codes of its only result.
pub open spec fn hyperfine_error(count: nat, codes: Seq<i32>) -> Option<HyperfineError> {
    if count != 1 {
        Some(HyperfineError::ResultCount)
    } else if exists|i: int| 0 <= i < codes.len() && codes[i] != 0 {
        Some(HyperfineError::FailedRuns)
    } else {
        None
    }
}

/// Accepts a Hyperfine export only with exactly one result whose runs all
/// exited with code 0.
pub fn check_hyperfine(result_count: usize, exit_codes: &Vec<i32>) -> (r: Result<(), HyperfineError>)
    ensures
        r == match hyperfine_error(result_count as nat, exit_codes@) {
            Some(e) => Err(e),
            None => Ok(()),
        },
{
    if result_count != 1 {
        return Err(HyperfineError::ResultCount);
    }
    let mut i: usize = 0;
    while i < exit_codes.len()
        invariant
            i <= exit_codes.len(),
            result_count == 1,
            forall|j: int| 0 <= j < i ==> exit_codes@[j] == 0,
        decreases exit_codes.len() - i,
    {
        if exit_codes[i] != 0 {
            assert(exit_codes@[i as int] != 0);
            return Err(HyperfineError::FailedRuns);
        }
        i += 1;
    }
    Ok(())
}

/// Two runs can be compared only when they generated the same ledger size
/// and enabled the same profilers, with the same Hyperfine settings when
/// Hyperfine ran and the same perf settings when perf ran.
pub proof fn law_compared_runs_agree(b: MetadataView, a: MetadataView)
    ensures
        metadata_error(b, a) is None <==> {
            &&& b.ledger_size == a.ledger_size
            &&& b.enabled_tools == a.enabled_tools
            &&& b.enabled_tools.contains("hyperfine"@) ==> b.runs == a.runs && b.warmup == a.warmup
            &&& b.enabled_tools.contains("perf"@) ==> b.perf_frequency == a.perf_frequency
                && b.perf_call_graph == a.perf_call_graph
        },
{
}

/// A comparison goes ahead only for two accepted, different labels whose
/// runs agree: a refused label or the same run twice is refused whatever the
/// metadata says.
pub proof fn law_comparison_needs_two_accepted_labels(
    args: CompareArgs,
    b: MetadataView,
    a: MetadataView,
)
    ensures
        comparison_error(args, b, a) is None <==> {
            &&& label_error(args.before@) is None
            &&& label_error(args.after@) is None
            &&& args.before@ != args.after@
            &&& metadata_error(b, a) is None
        },
        args.before@ == args.after@ ==> comparison_error(args, b, a) is Some,
{
}

/// Whether the UTF-8 encoding of `v` takes at most `n` bytes.
fn fits_in_bytes(v: &[char], n: usize) -> (b: bool)
    ensures
        b == (utf8_len(v@) <= n),
{
    let mut k: usize = 0;
    let mut acc: usize = 0;
    assert(v@.take(0) =~= Seq::<char>::empty());
    while k < v.len()
        invariant
            k <= v.len(),
            acc == utf8_len(v@.take(k as int)),
            acc <= n,
        decreases v.len() - k,
    {
        proof {
            crate::text::lemma_utf8_len_step(v@, k as int);
        }
        let w = crate::text::char_width_exec(v[k]);
        if w > n - acc {
            proof {
                if k + 1 < v.len() {
                    lemma_utf8_len_increasing(v@, k + 1, v.len() as int);
                }
                assert(v@.take(v.len() as int) =~= v@);
            }
            return false;
        }
        acc = acc + w;
        k += 1;
    }
    assert(v@.take(v.len() as int) =~= v@);
    true
}

/// Whether [`short_commit`] can cut `commit`.
pub fn can_shorten_commit(commit: &str) -> (b: bool)
    ensures
        b == short_commit_defined(commit@),
{
    let v = chars_of(commit);
    if fits_in_bytes(v.as_slice(), 8) {
        return true;
    }
    boundary_exec(v.as_slice(), 8).is_some()
}

/// Whether `r` occurs in `s` as a contiguous piece.
pub open spec fn has_infix(s: Seq<char>, r: Seq<char>) -> bool {
    exists|k: int| 0 <= k && k + r.len() <= s.len() && #[trigger] s.subrange(k, k + r.len()) == r
}

/// A text occurs in itself.
proof fn lemma_infix_self(r: Seq<char>)
    ensures
        has_infix(r, r),
{
    let k: int = 0;
    assert(r.subrange(k, k + r.len()) =~= r);
}

/// What occurs in `s` occurs in `s` followed by anything.
proof fn lemma_infix_before(s: Seq<char>, t: Seq<char>, r: Seq<char>)
    requires
        has_infix(s, r),
    ensures
        has_infix(s + t, r),
{
    let k = choose|k: int| 0 <= k && k + r.len() <= s.len() && #[trigger] s.subrange(k, k + r.len()) == r;
    assert((s + t).subrange(k, k + r.len()) =~= s.subrange(k, k + r.len()));
}

/// What occurs in `t` occurs in anything followed by `t`.
proof fn lemma_infix_after(s: Seq<char>, t: Seq<char>, r: Seq<char>)
    requires
        has_infix(t, r),
    ensures
        has_infix(s + t, r),
{
    let k = choose|k: int| 0 <= k && k + r.len() <= t.len() && #[trigger] t.subrange(k, k + r.len()) == r;
    assert((s + t).subrange(s.len() + k, s.len() + k + r.len()) =~= t.subrange(k, k + r.len()));
}

/// The Markdown row of a metric: baseline value, then candidate value, then the change.
pub open spec fn md_cells(metric: Seq<char>, before: Seq<char>, after: Seq<char>, change: Seq<char>) -> Seq<char> {
    "| "@ + metric + " | "@ + before + " | "@ + after + " | **"@ + change + "** |\n"@
}

/// The text row of a metric: baseline value, then candidate value, then the
/// change, in columns 22, 13, 13 and 12 wide.
pub open spec fn text_cells(metric: Seq<char>, before: Seq<char>, after: Seq<char>, change: Seq<char>) -> Seq<char> {
    pad_right(metric, 22) + seq![' '] + pad_left(before, 13) + seq![' '] + pad_left(after, 13)
        + seq![' '] + pad_left(change, 12) + seq!['\n']
}

/// The line of the text report that gives a run's commit, branch and state.
pub open spec fn git_state_line(label: Seq<char>, m: Metadata) -> Seq<char> {
    "  "@ + label + ": "@ + short_commit_text(m.git_commit@) + " ("@ + m.git_branch@ + ")"@
        + dirty_suffix_text(m.dirty) + "\n"@
}

/// Both reports put the baseline before the candidate: the heading row
/// names the baseline's label first, and every metric row shows the
/// baseline's value in the baseline's column and the candidate's value in
/// the candidate's column, for each metric that the runs measured; the
/// text report gives the baseline's Git state, then the candidate's.
pub proof fn law_reports_show_baseline_then_candidate(d: Comparison)
    ensures
        has_infix(text_report(d), text_cells("metric"@, d.before_label@, d.after_label@, "change"@)),
        has_infix(
            markdown_report(d),
            "| Metric | "@ + d.before_label@ + " | "@ + d.after_label@ + " | Difference |"@,
        ),
        has_infix(
            text_report(d),
            git_state_line(d.before_label@, d.before_meta) + git_state_line(d.after_label@, d.after_meta),
        ),
        d.timing matches Some(t) ==> {
            &&& has_infix(markdown_report(d), md_cells("Runtime (mean)"@, t.mean_before@, t.mean_after@, t.mean_change@))
            &&& has_infix(markdown_report(d), md_cells("Runtime (median)"@, t.median_before@, t.median_after@, t.median_change@))
            &&& has_infix(text_report(d), text_cells("Runtime mean"@, t.mean_before@, t.mean_after@, t.mean_change@))
            &&& has_infix(text_report(d), text_cells("Runtime median"@, t.median_before@, t.median_after@, t.median_change@))
        },
        d.heap matches Some(h) ==> {
            &&& has_infix(
                markdown_report(d),
                md_cells(
                    "Allocations"@,
                    h.allocations_before_compact@,
                    h.allocations_after_compact@,
                    h.allocations_change@,
                ),
            )
            &&& has_infix(markdown_report(d), md_cells("Peak heap"@, h.peak_before@, h.peak_after@, h.peak_change@))
            &&& has_infix(
                text_report(d),
                text_cells(
                    "Allocations"@,
                    grouped_text(h.allocations_before as nat),
                    grouped_text(h.allocations_after as nat),
                    h.allocations_change@,
                ),
            )
            &&& has_infix(text_report(d), text_cells("Peak heap"@, h.peak_before@, h.peak_after@, h.peak_change@))
        },
{
    let m = d.before_meta;
    let tools = arg_views(m.enabled_tools@);
    let md_head = "### Benchmark — "@ + dec(m.ledger_size as nat) + " entry ledger\n\nProfilers: "@ + joined(
        tools,
        ", "@,
    ) + "\n\n| Metric | "@ + d.before_label@ + " | "@ + d.after_label@
        + " | Difference |\n|---|---:|---:|---:|\n"@;
    let md_time = match d.timing {
        Some(t) => markdown_row("Runtime (mean)"@, t.mean_before@, t.mean_after@, t.mean_change@)
            + markdown_row("Runtime (median)"@, t.median_before@, t.median_after@, t.median_change@),
        None => Seq::empty(),
    };
    let md_heap = match d.heap {
        Some(h) => markdown_row(
            "Allocations"@,
            h.allocations_before_compact@,
            h.allocations_after_compact@,
            h.allocations_change@,
        ) + markdown_row("Peak heap"@, h.peak_before@, h.peak_after@, h.peak_change@),
        None => Seq::empty(),
    };
    let md_perf = if tools.contains("perf"@) {
        "\n`perf diff` is available in the benchmark artifacts.\n"@
    } else {
        Seq::empty()
    };
    let md_heaptrack = if tools.contains("heaptrack"@) {
        "\nFull heaptrack results are available in the benchmark artifacts.\n"@
    } else {
        Seq::empty()
    };
    let md = markdown_report(d);
    assert(md == (((md_head + md_time) + md_heap) + md_perf) + md_heaptrack);
    let tx_head = "paper-muncher benchmark\nLedger: "@ + dec(m.ledger_size as nat) + " entries\nProfilers: "@
        + joined(arg_views(m.enabled_tools@), ", "@) + "\n\n"@;
    let tx_hdr = text_row("metric"@, d.before_label@, d.after_label@, "change"@);
    let tx_time = match d.timing {
        Some(t) => text_row("Runtime mean"@, t.mean_before@, t.mean_after@, t.mean_change@)
            + text_row("Runtime median"@, t.median_before@, t.median_after@, t.median_change@),
        None => Seq::empty(),
    };
    let tx_heap = match d.heap {
        Some(h) => text_row(
            "Allocations"@,
            grouped_text(h.allocations_before as nat),
            grouped_text(h.allocations_after as nat),
            h.allocations_change@,
        ) + text_row("Peak heap"@, h.peak_before@, h.peak_after@, h.peak_change@),
        None => Seq::empty(),
    };
    let tx_tail = "\nGit:\n"@ + git_line(d.before_label@, d.before_meta) + git_line(
        d.after_label@,
        d.after_meta,
    );
    let tx = text_report(d);
    assert(tx =~= (((tx_head + tx_hdr) + tx_time) + tx_heap) + tx_tail);
    // The heading row of the Markdown report.
    let md_pre = "### Benchmark — "@ + dec(m.ledger_size as nat) + " entry ledger\n\nProfilers: "@
        + joined(tools, ", "@);
    let md_hdr = "| Metric | "@ + d.before_label@ + " | "@ + d.after_label@ + " | Difference |"@;
    reveal_strlit("\n\n| Metric | ");
    reveal_strlit("| Metric | ");
    reveal_strlit("\n\n");
    reveal_strlit(" | Difference |\n|---|---:|---:|---:|\n");
    reveal_strlit(" | Difference |");
    reveal_strlit("\n|---|---:|---:|---:|\n");
    assert("\n\n| Metric | "@ =~= "\n\n"@ + "| Metric | "@);
    assert(" | Difference |\n|---|---:|---:|---:|\n"@ =~= " | Difference |"@ + "\n|---|---:|---:|---:|\n"@);
    assert(md_head =~= ((md_pre + "\n\n"@) + md_hdr) + "\n|---|---:|---:|---:|\n"@);
    lemma_infix_self(md_hdr);
    lemma_infix_after(md_pre + "\n\n"@, md_hdr, md_hdr);
    lemma_infix_before((md_pre + "\n\n"@) + md_hdr, "\n|---|---:|---:|---:|\n"@, md_hdr);
    lemma_infix_before(md_head, md_time, md_hdr);
    lemma_infix_before(md_head + md_time, md_heap, md_hdr);
    lemma_infix_before((md_head + md_time) + md_heap, md_perf, md_hdr);
    lemma_infix_before(((md_head + md_time) + md_heap) + md_perf, md_heaptrack, md_hdr);
    // The Git lines of the text report.
    let gl = git_line(d.before_label@, d.before_meta) + git_line(d.after_label@, d.after_meta);
    assert(tx_tail =~= "\nGit:\n"@ + gl);
    lemma_infix_self(gl);
    lemma_infix_after("\nGit:\n"@, gl, gl);
    lemma_infix_after(((tx_head + tx_hdr) + tx_time) + tx_heap, tx_tail, gl);
    // The heading row of the text report.
    lemma_infix_self(tx_hdr);
    lemma_infix_after(tx_head, tx_hdr, tx_hdr);
    lemma_infix_before(tx_head + tx_hdr, tx_time, tx_hdr);
    lemma_infix_before((tx_head + tx_hdr) + tx_time, tx_heap, tx_hdr);
    lemma_infix_before(((tx_head + tx_hdr) + tx_time) + tx_heap, tx_tail, tx_hdr);
    // The timing rows.
    match d.timing {
        Some(t) => {
            let a = markdown_row("Runtime (mean)"@, t.mean_before@, t.mean_after@, t.mean_change@);
            let b = markdown_row("Runtime (median)"@, t.median_before@, t.median_after@, t.median_change@);
            lemma_infix_self(a);
            lemma_infix_before(a, b, a);
            lemma_infix_self(b);
            lemma_infix_after(a, b, b);
            assert forall|r: Seq<char>| has_infix(md_time, r) implies has_infix(md, r) by {
                lemma_infix_after(md_head, md_time, r);
                lemma_infix_before(md_head + md_time, md_heap, r);
                lemma_infix_before((md_head + md_time) + md_heap, md_perf, r);
                lemma_infix_before(((md_head + md_time) + md_heap) + md_perf, md_heaptrack, r);
            }
            assert(has_infix(md, a));
            assert(has_infix(md, b));
            let x = text_row("Runtime mean"@, t.mean_before@, t.mean_after@, t.mean_change@);
            let y = text_row("Runtime median"@, t.median_before@, t.median_after@, t.median_change@);
            lemma_infix_self(x);
            lemma_infix_before(x, y, x);
            lemma_infix_self(y);
            lemma_infix_after(x, y, y);
            assert forall|r: Seq<char>| has_infix(tx_time, r) implies has_infix(tx, r) by {
                lemma_infix_after(tx_head + tx_hdr, tx_time, r);
                lemma_infix_before((tx_head + tx_hdr) + tx_time, tx_heap, r);
                lemma_infix_before(((tx_head + tx_hdr) + tx_time) + tx_heap, tx_tail, r);
            }
            assert(has_infix(tx, x));
            assert(has_infix(tx, y));
        },
        None => {},
    }
    // The heap rows.
    match d.heap {
        Some(h) => {
            let a = markdown_row(
                "Allocations"@,
                h.allocations_before_compact@,
                h.allocations_after_compact@,
                h.allocations_change@,
            );
            let b = markdown_row("Peak heap"@, h.peak_before@, h.peak_after@, h.peak_change@);
            lemma_infix_self(a);
            lemma_infix_before(a, b, a);
            lemma_infix_self(b);
            lemma_infix_after(a, b, b);
            assert forall|r: Seq<char>| has_infix(md_heap, r) implies has_infix(md, r) by {
                lemma_infix_after(md_head + md_time, md_heap, r);
                lemma_infix_before((md_head + md_time) + md_heap, md_perf, r);
                lemma_infix_before(((md_head + md_time) + md_heap) + md_perf, md_heaptrack, r);
            }
            assert(has_infix(md, a));
            assert(has_infix(md, b));
            let x = text_row(
                "Allocations"@,
                grouped_text(h.allocations_before as nat),
                grouped_text(h.allocations_after as nat),
                h.allocations_change@,
            );
            let y = text_row("Peak heap"@, h.peak_before@, h.peak_after@, h.peak_change@);
            lemma_infix_self(x);
            lemma_infix_before(x, y, x);
            lemma_infix_self(y);
            lemma_infix_after(x, y, y);
            assert forall|r: Seq<char>| has_infix(tx_heap, r) implies has_infix(tx, r) by {
                lemma_infix_after((tx_head + tx_hdr) + tx_time, tx_heap, r);
                lemma_infix_before(((tx_head + tx_hdr) + tx_time) + tx_heap, tx_tail, r);
            }
            assert(has_infix(tx, x));
            assert(has_infix(tx, y));
        },
        None => {},
    }
}

/// The diffs of a comparison read the baseline as the old side and the
/// candidate as the new one: `perf diff` gets the baseline's data, then the
/// candidate's; `heaptrack_print` reads the candidate's data and diffs it
/// against the baseline's. Each runs when its profiler ran.
pub proof fn law_diffs_take_baseline_as_old_side(
    tools: Seq<Seq<char>>,
    before_dir: Seq<char>,
    after_dir: Seq<char>,
    stage: Seq<char>,
)
    ensures
        forall|i: int|
            0 <= i < diff_steps(tools, before_dir, after_dir, stage).len() && (#[trigger] diff_steps(
                tools,
                before_dir,
                after_dir,
                stage,
            )[i]).0 == "perf"@ ==> diff_steps(tools, before_dir, after_dir, stage)[i].1 == seq![
                "diff"@,
                join(before_dir, "perf.data"@),
                join(after_dir, "perf.data"@),
            ],
        forall|i: int|
            0 <= i < diff_steps(tools, before_dir, after_dir, stage).len() && (#[trigger] diff_steps(
                tools,
                before_dir,
                after_dir,
                stage,
            )[i]).0 == "heaptrack_print"@ ==> diff_steps(tools, before_dir, after_dir, stage)[i].1
                == seq![
                "-f"@,
                join(after_dir, "heaptrack.zst"@),
                "--diff"@,
                join(before_dir, "heaptrack.zst"@),
            ],
        tools.contains("perf"@) ==> exists|i: int|
            0 <= i < diff_steps(tools, before_dir, after_dir, stage).len() && (#[trigger] diff_steps(
                tools,
                before_dir,
                after_dir,
                stage,
            )[i]).0 == "perf"@,
        tools.contains("heaptrack"@) ==> exists|i: int|
            0 <= i < diff_steps(tools, before_dir, after_dir, stage).len() && (#[trigger] diff_steps(
                tools,
                before_dir,
                after_dir,
                stage,
            )[i]).0 == "heaptrack_print"@,
{
    reveal_strlit("perf");
    reveal_strlit("heaptrack_print");
    assert("perf"@.len() == 4 && "heaptrack_print"@.len() == 15);
    let d = diff_steps(tools, before_dir, after_dir, stage);
    let p = if tools.contains("perf"@) { 1int } else { 0int };
    if tools.contains("perf"@) {
        assert(d[0].0 == "perf"@);
    }
    if tools.contains("heaptrack"@) {
        assert(d[p].0 == "heaptrack_print"@);
    }
}

} // verus!
