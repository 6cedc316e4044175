use transcoderr::batch::{
    plan_actions, plan_batch, resolve_batch_output, summarize, BatchAction, BatchError,
    FileOutcome,
};

fn paths(v: &[&str]) -> Vec<String> {
    v.iter().map(|s| s.to_string()).collect()
}

#[test]
fn test_batch_output_mirrors_tree() {
    let r = resolve_batch_output("/a/x/y.mp4", "/a", "/b", false, "mkv");
    assert_eq!(r, Some("/b/x/y.mkv".to_string()));
}

#[test]
fn test_batch_output_in_place_is_suffixed() {
    let r = resolve_batch_output("/a/y.mp4", "/a", "/a", true, "mkv");
    assert_eq!(r, Some("/a/y_transcoded.mkv".to_string()));
    assert_ne!(r, Some("/a/y.mp4".to_string()));
}

#[test]
fn test_plan_batch_mirrors_every_file() {
    let files = paths(&["/a/x/y.mp4", "/a/z.avi"]);
    let plan = plan_batch(&files, "/a", "/b", false, "mkv").unwrap();
    assert_eq!(plan.len(), 2);
    assert_eq!(plan[0].input, "/a/x/y.mp4");
    assert_eq!(plan[0].output, "/b/x/y.mkv");
    assert_eq!(plan[1].input, "/a/z.avi");
    assert_eq!(plan[1].output, "/b/z.mkv");
}

#[test]
fn test_plan_batch_rejects_file_outside_root() {
    let files = paths(&["/a/x.mp4", "/elsewhere/y.mp4"]);
    let err = plan_batch(&files, "/a", "/b", false, "mkv").unwrap_err();
    let BatchError::NotUnderRoot(f) = err;
    assert_eq!(f, "/elsewhere/y.mp4");
    let msg = BatchError::NotUnderRoot(f).message();
    assert!(msg.contains("/elsewhere/y.mp4"));
}

#[test]
fn test_empty_collection_is_not_an_error() {
    let files: Vec<String> = Vec::new();
    let plan = plan_batch(&files, "/a", "/b", false, "mkv").unwrap();
    assert!(plan.is_empty());
    let outcomes: Vec<FileOutcome> = Vec::new();
    let summary = summarize(&outcomes);
    assert_eq!(summary.attempted, 0);
    assert_eq!(summary.failed, 0);
}

#[test]
fn test_batch_dry_run() {
    let files = paths(&["/a/x.mp4", "/a/y.mp4"]);
    let plan = plan_batch(&files, "/a", "/a/output", false, "mkv").unwrap();
    let actions = plan_actions(&plan, true);
    assert_eq!(actions.len(), 2, "Batch dry-run should cover every file");
    for action in &actions {
        assert!(
            matches!(action, BatchAction::DryRunReport(_)),
            "Batch dry-run must not plan any invocation"
        );
    }
}

#[test]
fn test_batch_with_preset_dry_run() {
    let (vcodec, _acodec, _extra) =
        transcoderr::preset::apply_preset(Some("tv-h265-fast"), "libx265", "aac", &[]);
    assert_eq!(vcodec, "libx265");
    let files = paths(&["/a/x.mp4"]);
    let plan = plan_batch(&files, "/a", "/b", false, "mkv").unwrap();
    let actions = plan_actions(&plan, true);
    assert!(matches!(actions[0], BatchAction::DryRunReport(_)));
}

#[test]
fn test_real_run_plans_invocations() {
    let files = paths(&["/a/x.mp4"]);
    let plan = plan_batch(&files, "/a", "/b", false, "mkv").unwrap();
    let actions = plan_actions(&plan, false);
    match &actions[0] {
        BatchAction::Transcode(job) => {
            assert_eq!(job.input, "/a/x.mp4");
            assert_eq!(job.output, "/b/x.mkv");
        },
        BatchAction::DryRunReport(_) => panic!("a real run must plan invocations"),
    }
}

#[test]
fn test_partial_failure_still_counts_every_file() {
    // three files, the second invocation fails: the third is still
    // attempted, and the summary shows two successes and one failure
    let files = paths(&["/a/1.mp4", "/a/2.mp4", "/a/3.mp4"]);
    let plan = plan_batch(&files, "/a", "/b", false, "mkv").unwrap();
    assert_eq!(plan.len(), 3);
    let outcomes = vec![
        FileOutcome::Succeeded,
        FileOutcome::Failed,
        FileOutcome::Succeeded,
    ];
    let summary = summarize(&outcomes);
    assert_eq!(summary.attempted, 3);
    assert_eq!(summary.succeeded, 2);
    assert_eq!(summary.failed, 1);
    assert_eq!(summary.skipped, 0);
}

#[test]
fn test_summarize_counts_dry_run_skips() {
    let outcomes = vec![
        FileOutcome::SkippedDryRun,
        FileOutcome::SkippedDryRun,
        FileOutcome::Failed,
    ];
    let summary = summarize(&outcomes);
    assert_eq!(summary.attempted, 3);
    assert_eq!(summary.succeeded, 0);
    assert_eq!(summary.failed, 1);
    assert_eq!(summary.skipped, 2);
}
