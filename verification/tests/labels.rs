use paper_bencher::compare::{dirty_suffix, short_commit};
use paper_bencher::refs::generated_label;
use paper_bencher::runner::{is_dirty_ignoring_artifacts, validate_label, LabelError};

#[test]
fn generated_labels_are_safe_and_readable() {
    assert_eq!(
        generated_label(
            "after",
            "feature/remove-flags",
            "a0e6c4b7697609f9ca6847d0e844088ce67470da"
        ),
        "after-feature-remove-flags-a0e6c4b7"
    );
}

#[test]
fn labels_cannot_escape_the_artifact_directory() {
    assert!(validate_label("before").is_ok());
    assert!(validate_label("feature.flags-2").is_ok());
    assert!(validate_label("../before").is_err());
    assert!(validate_label("feature/flags").is_err());
    assert!(validate_label("..").is_err());
}

#[test]
fn benchmark_artifacts_do_not_make_metadata_dirty() {
    assert!(!is_dirty_ignoring_artifacts("?? .bench/run/perf.data\n"));
    assert!(is_dirty_ignoring_artifacts(
        "?? .bench/run/perf.data\n M src/main.cpp\n"
    ));
}

#[test]
fn label_errors_are_told_apart() {
    assert_eq!(validate_label(""), Err(LabelError::Empty));
    assert_eq!(validate_label("."), Err(LabelError::Reserved));
    assert_eq!(validate_label(".."), Err(LabelError::Reserved));
    assert_eq!(validate_label("a b"), Err(LabelError::BadCharacter));
    assert_eq!(validate_label("é"), Err(LabelError::BadCharacter));
    assert_eq!(validate_label("..."), Ok(()));
}

#[test]
fn generated_labels_fall_back_to_ref() {
    assert_eq!(generated_label("base", "///", "abc"), "base-ref-abc");
    assert_eq!(generated_label("base", ".v1.0.", "0123456789"), "base-v1.0-01234567");
    assert_eq!(generated_label("before", "main", ""), "before-main-");
    let label = generated_label("before", "ünïcode//x", "ffffffffff");
    assert_eq!(label, "before-n-code--x-ffffffff");
    assert!(validate_label(&label).is_ok());
}

#[test]
fn commits_are_cut_after_eight_bytes() {
    assert_eq!(short_commit("0123456789abcdef"), "01234567");
    assert_eq!(short_commit("abc"), "abc");
    assert_eq!(short_commit("ééééé"), "éééé");
    assert_eq!(dirty_suffix(true), " dirty");
    assert_eq!(dirty_suffix(false), "");
}

#[test]
fn dirty_status_reads_quoted_and_renamed_paths() {
    assert!(!is_dirty_ignoring_artifacts(""));
    assert!(!is_dirty_ignoring_artifacts("?? \".bench/my run/x\"\r\n?? .bench\n"));
    assert!(is_dirty_ignoring_artifacts("?? .benchmarks/x\n"));
    assert!(is_dirty_ignoring_artifacts("M"));
}
