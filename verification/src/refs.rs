//! Comparing Git revisions: run labels, temporary worktrees, and the steps
//! of a comparison.
use vstd::prelude::*;
use crate::args::arg_views;
use crate::cli::{
    CompareArgs, CompareArgsView, CompareRefsArgs, CompareWorkingTreeArgs, ExternsMode,
    RefOptionsView, RunArgs, RunArgsView,
};
use crate::compare::{short_commit, short_commit_defined, short_commit_text};
use crate::number::{dec, dec_string};
use crate::path::{join, join_path};
use crate::runner::{all_label_chars, is_label_char, label_char, label_error};
use crate::text::{
    chars_of, in_strip, push_char, push_chars, push_str, trim_by, trim_end_by, trim_start_by,
    trimmed_by, Strip,
};

verus! {

/// A character kept in a generated label, or `-` in its place.
pub open spec fn sanitize_char(c: char) -> char {
    if is_label_char(c) {
        c
    } else {
        '-'
    }
}

/// A revision's characters made safe for a label, one for one.
pub open spec fn sanitized(rev: Seq<char>) -> Seq<char> {
    rev.map_values(|c: char| sanitize_char(c))
}

/// The revision part of a generated label: the sanitized revision without
/// `-` and `.` at either end, or `ref` when nothing is left.
pub open spec fn revision_part(rev: Seq<char>) -> Seq<char> {
    let t = trim_by(sanitized(rev), Strip::DashDot);
    if t.len() == 0 {
        "ref"@
    } else {
        t
    }
}

/// The label of a run that a Git comparison makes: role, revision and
/// abbreviated commit, joined by `-`.
pub open spec fn generated_label_text(role: Seq<char>, rev: Seq<char>, commit: Seq<char>) -> Seq<
    char,
> {
    role + seq!['-'] + revision_part(rev) + seq!['-'] + short_commit_text(commit)
}

/// The label under which a Git comparison stores the run of `revision`
/// (resolved to `commit`) in the role `role`, such as `before` or `base`.
pub fn generated_label(role: &str, revision: &str, commit: &str) -> (label: String)
    requires
        short_commit_defined(commit@),
    ensures
        label@ == generated_label_text(role@, revision@, commit@),
{
    let rv = chars_of(revision);
    let mut clean: Vec<char> = Vec::new();
    let mut i: usize = 0;
    while i < rv.len()
        invariant
            i <= rv.len(),
            clean.len() == i,
            forall|j: int| 0 <= j < i ==> #[trigger] clean@[j] == sanitize_char(rv@[j]),
        decreases rv.len() - i,
    {
        let c = rv[i];
        clean.push(if label_char(c) {
            c
        } else {
            '-'
        });
        i += 1;
    }
    assert(clean@ =~= sanitized(revision@));
    let t = trimmed_by(clean.as_slice(), Strip::DashDot);
    let mut label = String::new();
    push_str(&mut label, role);
    push_char(&mut label, '-');
    if t.len() == 0 {
        push_str(&mut label, "ref");
    } else {
        push_chars(&mut label, t.as_slice());
    }
    push_char(&mut label, '-');
    let short = short_commit(commit);
    push_str(&mut label, short.as_str());
    assert(label@ =~= generated_label_text(role@, revision@, commit@));
    label
}

/// Trimming keeps only characters that were there.
proof fn lemma_trim_keeps_label_chars(s: Seq<char>, k: Strip)
    requires
        all_label_chars(s),
    ensures
        all_label_chars(trim_by(s, k)),
{
    lemma_trim_start_keeps(s, k);
    lemma_trim_end_keeps(trim_start_by(s, k), k);
}

proof fn lemma_trim_start_keeps(s: Seq<char>, k: Strip)
    requires
        all_label_chars(s),
    ensures
        all_label_chars(trim_start_by(s, k)),
    decreases s.len(),
{
    if s.len() > 0 && in_strip(k, s[0]) {
        assert forall|i: int| 0 <= i < s.drop_first().len() implies is_label_char(
            #[trigger] s.drop_first()[i],
        ) by {
            assert(s.drop_first()[i] == s[i + 1]);
        }
        lemma_trim_start_keeps(s.drop_first(), k);
    }
}

proof fn lemma_trim_end_keeps(s: Seq<char>, k: Strip)
    requires
        all_label_chars(s),
    ensures
        all_label_chars(trim_end_by(s, k)),
    decreases s.len(),
{
    if s.len() > 0 && in_strip(k, s.last()) {
        assert forall|i: int| 0 <= i < s.drop_last().len() implies is_label_char(
            #[trigger] s.drop_last()[i],
        ) by {
            assert(s.drop_last()[i] == s[i]);
        }
        lemma_trim_end_keeps(s.drop_last(), k);
    }
}

/// A generated label is always accepted as a run label when its role and the
/// abbreviated commit are made of label characters: whatever the revision is
/// called, the label cannot leave the artifact directory.
pub proof fn law_generated_label_is_valid(role: Seq<char>, rev: Seq<char>, commit: Seq<char>)
    requires
        all_label_chars(role),
        all_label_chars(short_commit_text(commit)),
    ensures
        label_error(generated_label_text(role, rev, commit)) is None,
{
    reveal_strlit("ref");
    let s = sanitized(rev);
    assert(all_label_chars(s)) by {
        assert forall|i: int| 0 <= i < s.len() implies is_label_char(#[trigger] s[i]) by {
            assert(s[i] == sanitize_char(rev[i]));
        }
    }
    lemma_trim_keeps_label_chars(s, Strip::DashDot);
    let part = revision_part(rev);
    assert(all_label_chars(part)) by {
        if trim_by(s, Strip::DashDot).len() == 0 {
            assert(part == "ref"@);
            assert(forall|i: int| 0 <= i < part.len() ==> is_label_char(#[trigger] part[i]));
        }
    }
    let l = generated_label_text(role, rev, commit);
    let sc = short_commit_text(commit);
    assert forall|i: int| 0 <= i < l.len() implies is_label_char(#[trigger] l[i]) by {
        let a = role.len() as int;
        let b = a + 1 + part.len();
        if i < a {
            assert(l[i] == role[i]);
        } else if i == a {
            assert(l[i] == '-');
        } else if i < b {
            assert(l[i] == part[i - a - 1]);
        } else if i == b {
            assert(l[i] == '-');
        } else {
            assert(l[i] == sc[i - b - 1]);
        }
    }
    assert(l[role.len() as int] == '-');
    assert(l != seq!['.']);
    assert(l != seq!['.', '.']) by {
        if l.len() == 2 {
            assert(role.len() + 2 + part.len() + sc.len() == 2);
            assert(part.len() > 0);
        }
    }
}

/// The temporary worktree of a role: `paper-bencher-<pid>-<role>` in `temp_dir`.
pub open spec fn worktree_path(temp_dir: Seq<char>, pid: u32, role: Seq<char>) -> Seq<char> {
    join(temp_dir, "paper-bencher-"@ + dec(pid as nat) + "-"@ + role)
}

/// The temporary worktree of a role.
pub fn temporary_worktree(temp_dir: &str, pid: u32, role: &str) -> (s: String)
    ensures
        s@ == worktree_path(temp_dir@, pid, role@),
{
    let mut name = String::new();
    push_str(&mut name, "paper-bencher-");
    push_str(&mut name, dec_string(pid as u64).as_str());
    push_str(&mut name, "-");
    push_str(&mut name, role);
    assert(name@ =~= "paper-bencher-"@ + dec(pid as nat) + "-"@ + role@);
    join_path(temp_dir, name.as_str())
}

/// The arguments of `git rev-parse` that resolve a revision to its commit.
pub open spec fn resolve_ref_words(revision: Seq<char>) -> Seq<Seq<char>> {
    seq!["rev-parse"@, "--verify"@, revision + "^{commit}"@]
}

/// The arguments of `git` that resolve `revision` to a commit.
pub fn resolve_ref_args(revision: &str) -> (v: Vec<String>)
    ensures
        arg_views(v@) == resolve_ref_words(revision@),
{
    let mut r = String::new();
    push_str(&mut r, revision);
    push_str(&mut r, "^{commit}");
    let mut v: Vec<String> = Vec::new();
    v.push("rev-parse".to_owned());
    v.push("--verify".to_owned());
    v.push(r);
    assert(arg_views(v@) =~= resolve_ref_words(revision@));
    v
}

/// The arguments of `git` that add a detached worktree of `revision` at `path`.
pub fn worktree_add_args(path: &str, revision: &str) -> (v: Vec<String>)
    ensures
        arg_views(v@) == seq!["worktree"@, "add"@, "--detach"@, path@, revision@],
{
    let mut v: Vec<String> = Vec::new();
    v.push("worktree".to_owned());
    v.push("add".to_owned());
    v.push("--detach".to_owned());
    v.push(path.to_owned());
    v.push(revision.to_owned());
    assert(arg_views(v@) =~= seq!["worktree"@, "add"@, "--detach"@, path@, revision@]);
    v
}

/// The arguments of `git` that remove the worktree at `path`.
pub fn worktree_remove_args(path: &str) -> (v: Vec<String>)
    ensures
        arg_views(v@) == seq!["worktree"@, "remove"@, "--force"@, path@],
{
    let mut v: Vec<String> = Vec::new();
    v.push("worktree".to_owned());
    v.push("remove".to_owned());
    v.push("--force".to_owned());
    v.push(path.to_owned());
    assert(arg_views(v@) =~= seq!["worktree"@, "remove"@, "--force"@, path@]);
    v
}

/// How a worktree gets its dependencies.
#[derive(Clone, Debug)]
pub enum ExternsPlan {
    /// `ck` resolves them from the revision's `project.json`.
    Fresh,
    /// Copy the checkout's `.cutekit/externs` (which must be a directory)
    /// into the worktree's `.cutekit` directory (created first), with these
    /// `cp` arguments.
    Snapshot { source: String, cutekit: String, destination: String, cp_args: Vec<String> },
}

/// [`ExternsPlan`] with its strings as character sequences.
#[verifier::ext_equal]
pub enum ExternsPlanView {
    Fresh,
    Snapshot {
        source: Seq<char>,
        cutekit: Seq<char>,
        destination: Seq<char>,
        cp_args: Seq<Seq<char>>,
    },
}

impl View for ExternsPlan {
    type V = ExternsPlanView;

    open spec fn view(&self) -> ExternsPlanView {
        match self {
            ExternsPlan::Fresh => ExternsPlanView::Fresh,
            ExternsPlan::Snapshot { source, cutekit, destination, cp_args } => ExternsPlanView::Snapshot {
                source: source@,
                cutekit: cutekit@,
                destination: destination@,
                cp_args: arg_views(cp_args@),
            },
        }
    }
}

/// How the worktree at `worktree` gets its dependencies in `mode`.
pub open spec fn externs_plan(repo: Seq<char>, worktree: Seq<char>, mode: ExternsMode) -> ExternsPlanView {
    match mode {
        ExternsMode::Fresh => ExternsPlanView::Fresh,
        ExternsMode::Local => {
            let source = join(repo, ".cutekit/externs"@);
            let cutekit = join(worktree, ".cutekit"@);
            let destination = join(cutekit, "externs"@);
            ExternsPlanView::Snapshot {
                source,
                cutekit,
                destination,
                cp_args: seq!["--archive"@, "--reflink=auto"@, source, destination],
            }
        },
    }
}

/// Decides how a worktree gets its dependencies: nothing to do in fresh
/// mode; otherwise a snapshot of the checkout's externs.
pub fn prepare_externs(repo: &str, worktree: &str, mode: ExternsMode) -> (p: ExternsPlan)
    ensures
        p@ == externs_plan(repo@, worktree@, mode),
{
    match mode {
        ExternsMode::Fresh => ExternsPlan::Fresh,
        ExternsMode::Local => {
            let source = join_path(repo, ".cutekit/externs");
            let cutekit = join_path(worktree, ".cutekit");
            let destination = join_path(cutekit.as_str(), "externs");
            let mut cp_args: Vec<String> = Vec::new();
            cp_args.push("--archive".to_owned());
            cp_args.push("--reflink=auto".to_owned());
            cp_args.push(source.clone());
            cp_args.push(destination.clone());
            assert(arg_views(cp_args@) =~= seq![
                "--archive"@,
                "--reflink=auto"@,
                source@,
                destination@,
            ]);
            ExternsPlan::Snapshot { source, cutekit, destination, cp_args }
        },
    }
}

/// One step of a Git comparison.
#[derive(Clone, Debug)]
pub enum RefStep {
    /// Add a detached worktree of a revision (the path must not exist yet).
    AddWorktree { path: String, revision: String },
    /// Give a worktree its dependencies.
    PrepareExterns(ExternsPlan),
    /// Run the benchmarks of the checkout at `root`, storing the run in the
    /// current checkout's `.bench/`.
    Run { args: RunArgs, root: String },
    /// Compare the two runs.
    Compare(CompareArgs),
}

/// [`RefStep`] with its strings as character sequences.
#[verifier::ext_equal]
pub enum RefStepView {
    AddWorktree { path: Seq<char>, revision: Seq<char> },
    PrepareExterns(ExternsPlanView),
    Run { args: RunArgsView, root: Seq<char> },
    Compare(CompareArgsView),
}

impl View for RefStep {
    type V = RefStepView;

    open spec fn view(&self) -> RefStepView {
        match self {
            RefStep::AddWorktree { path, revision } => RefStepView::AddWorktree {
                path: path@,
                revision: revision@,
            },
            RefStep::PrepareExterns(p) => RefStepView::PrepareExterns(p@),
            RefStep::Run { args, root } => RefStepView::Run { args: args@, root: root@ },
            RefStep::Compare(a) => RefStepView::Compare(a@),
        }
    }
}

/// The steps of a Git comparison, and the worktrees to remove afterwards
/// whatever happened.
#[derive(Clone, Debug)]
pub struct RefsPlan {
    pub steps: Vec<RefStep>,
    pub cleanup: Vec<String>,
}

/// The texts of a list of steps.
pub open spec fn ref_step_views(v: Seq<RefStep>) -> Seq<RefStepView> {
    v.map_values(|s: RefStep| s@)
}

/// The arguments of a run with shared settings under `label`.
pub open spec fn run_with(o: RefOptionsView, label: Seq<char>) -> RunArgsView {
    RunArgsView {
        label,
        ledger_size: o.ledger_size,
        runs: o.runs,
        warmup: o.warmup,
        perf_frequency: o.perf_frequency,
        perf_call_graph: o.perf_call_graph,
        only: o.only,
        skip: o.skip,
        binary: None,
        force: o.force,
    }
}

/// The steps of comparing two revisions: both worktrees added, both given
/// their dependencies, both run, then compared.
pub open spec fn compare_refs_steps(
    args: CompareRefsArgs,
    repo: Seq<char>,
    before_label: Seq<char>,
    after_label: Seq<char>,
    before_worktree: Seq<char>,
    after_worktree: Seq<char>,
) -> Seq<RefStepView> {
    let o = args.options@;
    seq![
        RefStepView::AddWorktree { path: before_worktree, revision: args.before_ref@ },
        RefStepView::AddWorktree { path: after_worktree, revision: args.after_ref@ },
        RefStepView::PrepareExterns(externs_plan(repo, before_worktree, o.externs)),
        RefStepView::PrepareExterns(externs_plan(repo, after_worktree, o.externs)),
        RefStepView::Run { args: run_with(o, before_label), root: before_worktree },
        RefStepView::Run { args: run_with(o, after_label), root: after_worktree },
        RefStepView::Compare(CompareArgsView { before: before_label, after: after_label }),
    ]
}

/// Appends a step.
fn push_ref_step(steps: &mut Vec<RefStep>, s: RefStep)
    ensures
        ref_step_views(final(steps)@) == ref_step_views(old(steps)@).push(s@),
{
    steps.push(s);
    assert(ref_step_views(steps@) =~= ref_step_views(old(steps)@).push(s@));
}

/// Plans the comparison of two Git revisions of the checkout at `repo`,
/// resolved to `before_commit` and `after_commit`, with worktrees in
/// `temp_dir` named after `pid`.
pub fn compare_refs(
    args: &CompareRefsArgs,
    repo: &str,
    before_commit: &str,
    after_commit: &str,
    temp_dir: &str,
    pid: u32,
) -> (plan: RefsPlan)
    requires
        short_commit_defined(before_commit@),
        short_commit_defined(after_commit@),
    ensures
        ({
            let bl = generated_label_text("before"@, args.before_ref@, before_commit@);
            let al = generated_label_text("after"@, args.after_ref@, after_commit@);
            let bw = worktree_path(temp_dir@, pid, "before"@);
            let aw = worktree_path(temp_dir@, pid, "after"@);
            &&& ref_step_views(plan.steps@) == compare_refs_steps(*args, repo@, bl, al, bw, aw)
            &&& arg_views(plan.cleanup@) == seq![bw, aw]
        }),
{
    let before_label = generated_label("before", args.before_ref.as_str(), before_commit);
    let after_label = generated_label("after", args.after_ref.as_str(), after_commit);
    let before_worktree = temporary_worktree(temp_dir, pid, "before");
    let after_worktree = temporary_worktree(temp_dir, pid, "after");
    let o = &args.options;
    let mut steps: Vec<RefStep> = Vec::new();
    push_ref_step(
        &mut steps,
        RefStep::AddWorktree { path: before_worktree.clone(), revision: args.before_ref.clone() },
    );
    push_ref_step(
        &mut steps,
        RefStep::AddWorktree { path: after_worktree.clone(), revision: args.after_ref.clone() },
    );
    push_ref_step(
        &mut steps,
        RefStep::PrepareExterns(prepare_externs(repo, before_worktree.as_str(), o.externs)),
    );
    push_ref_step(
        &mut steps,
        RefStep::PrepareExterns(prepare_externs(repo, after_worktree.as_str(), o.externs)),
    );
    push_ref_step(
        &mut steps,
        RefStep::Run { args: o.run_args(before_label.clone()), root: before_worktree.clone() },
    );
    push_ref_step(
        &mut steps,
        RefStep::Run { args: o.run_args(after_label.clone()), root: after_worktree.clone() },
    );
    push_ref_step(
        &mut steps,
        RefStep::Compare(CompareArgs { before: before_label, after: after_label }),
    );
    let mut cleanup: Vec<String> = Vec::new();
    cleanup.push(before_worktree);
    cleanup.push(after_worktree);
    let ghost bl = generated_label_text("before"@, args.before_ref@, before_commit@);
    let ghost al = generated_label_text("after"@, args.after_ref@, after_commit@);
    let ghost bw = worktree_path(temp_dir@, pid, "before"@);
    let ghost aw = worktree_path(temp_dir@, pid, "after"@);
    assert(ref_step_views(steps@) =~= compare_refs_steps(*args, repo@, bl, al, bw, aw));
    assert(arg_views(cleanup@) =~= seq![bw, aw]);
    RefsPlan { steps, cleanup }
}

/// The steps of comparing a clean revision with the working tree: the
/// baseline worktree added and given its dependencies, the baseline run,
/// the run of the current checkout itself, then the comparison.
pub open spec fn compare_working_tree_steps(
    args: CompareWorkingTreeArgs,
    repo: Seq<char>,
    base_label: Seq<char>,
    working_label: Seq<char>,
    base_worktree: Seq<char>,
) -> Seq<RefStepView> {
    let o = args.options@;
    seq![
        RefStepView::AddWorktree { path: base_worktree, revision: args.base_ref@ },
        RefStepView::PrepareExterns(externs_plan(repo, base_worktree, o.externs)),
        RefStepView::Run { args: run_with(o, base_label), root: base_worktree },
        RefStepView::Run { args: run_with(o, working_label), root: repo },
        RefStepView::Compare(CompareArgsView { before: base_label, after: working_label }),
    ]
}

/// Plans the comparison of a clean revision (resolved to `base_commit`)
/// with the working tree of the checkout at `repo` (whose `HEAD` is
/// `current_commit`), with the baseline worktree in `temp_dir`.
pub fn compare_working_tree(
    args: &CompareWorkingTreeArgs,
    repo: &str,
    base_commit: &str,
    current_commit: &str,
    temp_dir: &str,
    pid: u32,
) -> (plan: RefsPlan)
    requires
        short_commit_defined(base_commit@),
        short_commit_defined(current_commit@),
    ensures
        ({
            let bl = generated_label_text("base"@, args.base_ref@, base_commit@);
            let wl = generated_label_text("working-tree"@, "current"@, current_commit@);
            let bw = worktree_path(temp_dir@, pid, "base"@);
            &&& ref_step_views(plan.steps@) == compare_working_tree_steps(*args, repo@, bl, wl, bw)
            &&& arg_views(plan.cleanup@) == seq![bw]
        }),
{
    let base_label = generated_label("base", args.base_ref.as_str(), base_commit);
    let working_label = generated_label("working-tree", "current", current_commit);
    let base_worktree = temporary_worktree(temp_dir, pid, "base");
    let o = &args.options;
    let mut steps: Vec<RefStep> = Vec::new();
    push_ref_step(
        &mut steps,
        RefStep::AddWorktree { path: base_worktree.clone(), revision: args.base_ref.clone() },
    );
    push_ref_step(
        &mut steps,
        RefStep::PrepareExterns(prepare_externs(repo, base_worktree.as_str(), o.externs)),
    );
    push_ref_step(
        &mut steps,
        RefStep::Run { args: o.run_args(base_label.clone()), root: base_worktree.clone() },
    );
    push_ref_step(
        &mut steps,
        RefStep::Run { args: o.run_args(working_label.clone()), root: repo.to_owned() },
    );
    push_ref_step(
        &mut steps,
        RefStep::Compare(CompareArgs { before: base_label, after: working_label }),
    );
    let mut cleanup: Vec<String> = Vec::new();
    cleanup.push(base_worktree);
    let ghost bl = generated_label_text("base"@, args.base_ref@, base_commit@);
    let ghost wl = generated_label_text("working-tree"@, "current"@, current_commit@);
    let ghost bw = worktree_path(temp_dir@, pid, "base"@);
    assert(ref_step_views(steps@) =~= compare_working_tree_steps(*args, repo@, bl, wl, bw));
    assert(arg_views(cleanup@) =~= seq![bw]);
    RefsPlan { steps, cleanup }
}

/// Whether a step adds a worktree at `path`.
pub open spec fn adds_worktree(s: RefStepView, path: Seq<char>) -> bool {
    s matches RefStepView::AddWorktree { path: p, .. } && p == path
}

/// A Git comparison removes every temporary worktree that it adds, and
/// runs both sides with the same settings: only the labels differ, and
/// neither uses `--binary`.
pub proof fn law_git_comparisons_clean_up_and_run_alike(
    args: CompareRefsArgs,
    wt: CompareWorkingTreeArgs,
    repo: Seq<char>,
    l1: Seq<char>,
    l2: Seq<char>,
    w1: Seq<char>,
    w2: Seq<char>,
)
    ensures
        forall|i: int, p: Seq<char>|
            0 <= i < 7 && #[trigger] adds_worktree(compare_refs_steps(args, repo, l1, l2, w1, w2)[i], p)
                ==> seq![w1, w2].contains(p),
        forall|i: int, p: Seq<char>|
            0 <= i < 5 && #[trigger] adds_worktree(compare_working_tree_steps(wt, repo, l1, l2, w1)[i], p)
                ==> seq![w1].contains(p),
        compare_refs_steps(args, repo, l1, l2, w1, w2)[4] matches RefStepView::Run { args: a, .. }
            && compare_refs_steps(args, repo, l1, l2, w1, w2)[5] matches RefStepView::Run { args: b, .. }
            && a == (RunArgsView { label: a.label, ..b }) && a.binary is None,
        compare_working_tree_steps(wt, repo, l1, l2, w1)[2] matches RefStepView::Run { args: a, .. }
            && compare_working_tree_steps(wt, repo, l1, l2, w1)[3] matches RefStepView::Run { args: b, .. }
            && a == (RunArgsView { label: a.label, ..b }) && a.binary is None,
{
    let s = compare_refs_steps(args, repo, l1, l2, w1, w2);
    assert forall|i: int, p: Seq<char>| 0 <= i < 7 && #[trigger] adds_worktree(s[i], p) implies seq![
        w1,
        w2,
    ].contains(p) by {
        if i == 0 {
            assert(seq![w1, w2][0] == p);
        } else if i == 1 {
            assert(seq![w1, w2][1] == p);
        }
    }
    let t = compare_working_tree_steps(wt, repo, l1, l2, w1);
    assert forall|i: int, p: Seq<char>| 0 <= i < 5 && #[trigger] adds_worktree(t[i], p) implies seq![
        w1,
    ].contains(p) by {
        if i == 0 {
            assert(seq![w1][0] == p);
        }
    }
}

/// Whether a step runs the benchmarks under `label`, at `root`.
pub open spec fn runs_at(s: RefStepView, label: Seq<char>, root: Seq<char>) -> bool {
    s matches RefStepView::Run { args: a, root: r } && a.label == label && r == root
}

/// Whether a step, if it is a run, runs under one of two labels.
pub open spec fn run_labelled_one_of(s: RefStepView, l1: Seq<char>, l2: Seq<char>) -> bool {
    s matches RefStepView::Run { args: a, .. } ==> a.label == l1 || a.label == l2
}

/// Whether a step, if it is a comparison, takes `before` as its baseline and
/// `after` as its candidate.
pub open spec fn compares_as(s: RefStepView, before: Seq<char>, after: Seq<char>) -> bool {
    s matches RefStepView::Compare(c) ==> c.before == before && c.after == after
}

/// Whether some step adds the worktree at `path` for `revision`.
pub open spec fn adds_worktree_of(steps: Seq<RefStepView>, path: Seq<char>, revision: Seq<char>) -> bool {
    exists|j: int|
        0 <= j < steps.len() && #[trigger] steps[j] == (RefStepView::AddWorktree {
            path,
            revision,
        })
}

/// Each run of `compare-refs` measures the revision its label names: the
/// run labelled after `before_ref` runs in the worktree added for
/// `before_ref`, the one labelled after `after_ref` in the worktree added for
/// `after_ref`; both runs happen, and the comparison takes the `before_ref`
/// run as its baseline and the `after_ref` run as its candidate.
pub proof fn law_compare_refs_measures_each_revision(
    args: CompareRefsArgs,
    repo: Seq<char>,
    before_commit: Seq<char>,
    after_commit: Seq<char>,
    temp_dir: Seq<char>,
    pid: u32,
)
    ensures
        ({
            let bl = generated_label_text("before"@, args.before_ref@, before_commit);
            let al = generated_label_text("after"@, args.after_ref@, after_commit);
            let steps = compare_refs_steps(
                args,
                repo,
                bl,
                al,
                worktree_path(temp_dir, pid, "before"@),
                worktree_path(temp_dir, pid, "after"@),
            );
            &&& forall|i: int, r: Seq<char>|
                0 <= i < steps.len() && #[trigger] runs_at(steps[i], bl, r) ==> adds_worktree_of(
                    steps,
                    r,
                    args.before_ref@,
                )
            &&& forall|i: int, r: Seq<char>|
                0 <= i < steps.len() && #[trigger] runs_at(steps[i], al, r) ==> adds_worktree_of(
                    steps,
                    r,
                    args.after_ref@,
                )
            &&& forall|i: int| 0 <= i < steps.len() ==> #[trigger] run_labelled_one_of(steps[i], bl, al)
            &&& exists|i: int, r: Seq<char>| 0 <= i < steps.len() && #[trigger] runs_at(steps[i], bl, r)
            &&& exists|i: int, r: Seq<char>| 0 <= i < steps.len() && #[trigger] runs_at(steps[i], al, r)
            &&& forall|i: int| 0 <= i < steps.len() ==> #[trigger] compares_as(steps[i], bl, al)
        }),
{
    let bl = generated_label_text("before"@, args.before_ref@, before_commit);
    let al = generated_label_text("after"@, args.after_ref@, after_commit);
    let bw = worktree_path(temp_dir, pid, "before"@);
    let aw = worktree_path(temp_dir, pid, "after"@);
    let steps = compare_refs_steps(args, repo, bl, al, bw, aw);
    reveal_strlit("before");
    reveal_strlit("after");
    assert(bl[0] == 'b' && al[0] == 'a');
    assert(steps[0] == RefStepView::AddWorktree { path: bw, revision: args.before_ref@ });
    assert(steps[1] == RefStepView::AddWorktree { path: aw, revision: args.after_ref@ });
    assert(adds_worktree_of(steps, bw, args.before_ref@));
    assert(adds_worktree_of(steps, aw, args.after_ref@));
    assert(runs_at(steps[4], bl, bw));
    assert(runs_at(steps[5], al, aw));
    assert forall|i: int, r: Seq<char>|
        0 <= i < steps.len() && #[trigger] runs_at(steps[i], bl, r) implies adds_worktree_of(
        steps,
        r,
        args.before_ref@,
    ) by {
        if i == 5 {
            assert(al[0] == bl[0]);
        }
    }
    assert forall|i: int, r: Seq<char>|
        0 <= i < steps.len() && #[trigger] runs_at(steps[i], al, r) implies adds_worktree_of(
        steps,
        r,
        args.after_ref@,
    ) by {
        if i == 4 {
            assert(bl[0] == al[0]);
        }
    }
}

/// Each run of `compare-working-tree` measures what its label names: the
/// run labelled after the base revision runs in the worktree added for that
/// revision, the working-tree run in the checkout itself; both runs happen,
/// and the comparison takes the clean base as its baseline and the working
/// tree as its candidate.
pub proof fn law_compare_working_tree_measures_each_side(
    args: CompareWorkingTreeArgs,
    repo: Seq<char>,
    base_commit: Seq<char>,
    current_commit: Seq<char>,
    temp_dir: Seq<char>,
    pid: u32,
)
    ensures
        ({
            let bl = generated_label_text("base"@, args.base_ref@, base_commit);
            let wl = generated_label_text("working-tree"@, "current"@, current_commit);
            let steps = compare_working_tree_steps(
                args,
                repo,
                bl,
                wl,
                worktree_path(temp_dir, pid, "base"@),
            );
            &&& forall|i: int, r: Seq<char>|
                0 <= i < steps.len() && #[trigger] runs_at(steps[i], bl, r) ==> adds_worktree_of(
                    steps,
                    r,
                    args.base_ref@,
                )
            &&& forall|i: int, r: Seq<char>|
                0 <= i < steps.len() && #[trigger] runs_at(steps[i], wl, r) ==> r == repo
            &&& forall|i: int| 0 <= i < steps.len() ==> #[trigger] run_labelled_one_of(steps[i], bl, wl)
            &&& exists|i: int, r: Seq<char>| 0 <= i < steps.len() && #[trigger] runs_at(steps[i], bl, r)
            &&& exists|i: int, r: Seq<char>| 0 <= i < steps.len() && #[trigger] runs_at(steps[i], wl, r)
            &&& forall|i: int| 0 <= i < steps.len() ==> #[trigger] compares_as(steps[i], bl, wl)
        }),
{
    let bl = generated_label_text("base"@, args.base_ref@, base_commit);
    let wl = generated_label_text("working-tree"@, "current"@, current_commit);
    let bw = worktree_path(temp_dir, pid, "base"@);
    let steps = compare_working_tree_steps(args, repo, bl, wl, bw);
    reveal_strlit("base");
    reveal_strlit("working-tree");
    assert(bl[0] == 'b' && wl[0] == 'w');
    assert(steps[0] == RefStepView::AddWorktree { path: bw, revision: args.base_ref@ });
    assert(adds_worktree_of(steps, bw, args.base_ref@));
    assert(runs_at(steps[2], bl, bw));
    assert(runs_at(steps[3], wl, repo));
    assert forall|i: int, r: Seq<char>|
        0 <= i < steps.len() && #[trigger] runs_at(steps[i], bl, r) implies adds_worktree_of(
        steps,
        r,
        args.base_ref@,
    ) by {
        if i == 3 {
            assert(wl[0] == bl[0]);
        }
    }
    assert forall|i: int, r: Seq<char>|
        0 <= i < steps.len() && #[trigger] runs_at(steps[i], wl, r) implies r == repo by {
        if i == 2 {
            assert(bl[0] == wl[0]);
        }
    }
}

} // verus!
