//! Planning a batch run: one output path per collected file, the per-file
//! action (report in a dry run, transcode otherwise), and the summary of
//! per-file outcomes.  The plan covers every collected file, a file whose
//! output cannot be placed under the output root aborts the plan as a
//! structural error, and an empty file set is no error at all.

use vstd::prelude::*;

use crate::paths::{
    joined, lemma_suffixed_differs, spec_joined, spec_rel_under, spec_suffixed,
    spec_with_extension, strip_root, suffixed_output, with_extension,
};
use crate::strutil::concat2;

verus! {

/// One unit of batch work: a source file and the output path chosen for it.
#[derive(Debug)]
pub struct BatchJob {
    pub input: String,
    pub output: String,
}

impl Clone for BatchJob {
    fn clone(&self) -> (r: Self)
        ensures
            r == *self,
    {
        BatchJob { input: self.input.clone(), output: self.output.clone() }
    }
}

/// The structural error that aborts planning: a collected file does not lie
/// under the input root, so no mirrored output path exists for it.
#[derive(Debug)]
pub enum BatchError {
    NotUnderRoot(String),
}

impl BatchError {
    /// A human-readable description of the error.
    pub fn message(&self) -> (r: String)
        ensures
            self matches BatchError::NotUnderRoot(f) ==> r@ == "file is not under the input root: "@
                + f@,
    {
        match self {
            BatchError::NotUnderRoot(f) => concat2("file is not under the input root: ", f.as_str()),
        }
    }
}

/// The output path of one batch file: the `_transcoded` sibling when input
/// and output root are the same directory, otherwise the file's path under
/// the input root re-rooted below the output root with its extension
/// replaced; `None` when the file does not lie under the input root.
pub open spec fn spec_batch_output(
    file: Seq<char>,
    input_root: Seq<char>,
    output_root: Seq<char>,
    same_dir: bool,
    ext: Seq<char>,
) -> Option<Seq<char>> {
    if same_dir {
        Some(spec_suffixed(file, ext))
    } else {
        match spec_rel_under(file, input_root) {
            Some(rel) => Some(spec_with_extension(spec_joined(output_root, rel), ext)),
            None => None,
        }
    }
}

/// Resolve the output path of one batch file.
pub fn resolve_batch_output(
    input_file: &str,
    input_root: &str,
    output_root: &str,
    same_dir: bool,
    ext: &str,
) -> (r: Option<String>)
    ensures
        match r {
            Some(o) => spec_batch_output(input_file@, input_root@, output_root@, same_dir, ext@)
                == Some(o@),
            None => spec_batch_output(input_file@, input_root@, output_root@, same_dir, ext@)
                is None,
        },
{
    if same_dir {
        Some(suffixed_output(input_file, ext))
    } else {
        match strip_root(input_file, input_root) {
            Some(rel) => {
                let mirrored = joined(output_root, rel.as_str());
                Some(with_extension(mirrored.as_str(), ext))
            },
            None => None,
        }
    }
}

/// In-place batch mode never chooses a file's own path as its output: the
/// suffixed sibling differs from the file, whatever the file and extension.
pub proof fn lemma_in_place_output_differs(
    file: Seq<char>,
    input_root: Seq<char>,
    output_root: Seq<char>,
    ext: Seq<char>,
)
    ensures
        spec_batch_output(file, input_root, output_root, true, ext) matches Some(o) && o != file,
{
    lemma_suffixed_differs(file, ext);
}

/// Plan a whole batch: one job per collected file, in order.  Planning
/// succeeds exactly when every file has an output path; an empty file set
/// yields an empty plan, not an error.
pub fn plan_batch(
    files: &Vec<String>,
    input_root: &str,
    output_root: &str,
    same_dir: bool,
    ext: &str,
) -> (r: Result<Vec<BatchJob>, BatchError>)
    ensures
        r is Ok <==> (forall|i: int|
            0 <= i < files.deep_view().len() ==> (#[trigger] spec_batch_output(
                files.deep_view()[i],
                input_root@,
                output_root@,
                same_dir,
                ext@,
            )) is Some),
        r matches Ok(plan) ==> {
            &&& plan@.len() == files.deep_view().len()
            &&& forall|i: int|
                0 <= i < plan@.len() ==> (#[trigger] plan@[i]).input@ == files.deep_view()[i]
                    && Some(plan@[i].output@) == spec_batch_output(
                    files.deep_view()[i],
                    input_root@,
                    output_root@,
                    same_dir,
                    ext@,
                )
        },
        r matches Err(e) ==> (e matches BatchError::NotUnderRoot(f) && exists|i: int|
            0 <= i < files.deep_view().len() && #[trigger] files.deep_view()[i] == f@
                && spec_batch_output(
                files.deep_view()[i],
                input_root@,
                output_root@,
                same_dir,
                ext@,
            ) is None),
        files.deep_view().len() == 0 ==> (r matches Ok(plan) && plan@.len() == 0),
        r matches Ok(plan) ==> (same_dir ==> forall|i: int|
            0 <= i < plan@.len() ==> (#[trigger] plan@[i]).output@ != plan@[i].input@),
{
    let ghost fdv = files.deep_view();
    let mut plan: Vec<BatchJob> = Vec::new();
    let mut i: usize = 0;
    while i < files.len()
        invariant
            i <= files@.len(),
            fdv == files.deep_view(),
            plan@.len() == i,
            forall|j: int|
                0 <= j < i ==> (#[trigger] plan@[j]).input@ == fdv[j] && Some(plan@[j].output@)
                    == spec_batch_output(fdv[j], input_root@, output_root@, same_dir, ext@),
            forall|j: int|
                0 <= j < i ==> (#[trigger] spec_batch_output(
                    fdv[j],
                    input_root@,
                    output_root@,
                    same_dir,
                    ext@,
                )) is Some,
        decreases files@.len() - i,
    {
        let input = files[i].clone();
        match resolve_batch_output(input.as_str(), input_root, output_root, same_dir, ext) {
            Some(output) => {
                plan.push(BatchJob { input, output });
            },
            None => {
                proof {
                    assert(input@ == files.deep_view()[i as int]);
                    assert(spec_batch_output(
                        files.deep_view()[i as int],
                        input_root@,
                        output_root@,
                        same_dir,
                        ext@,
                    ) is None);
                }
                return Err(BatchError::NotUnderRoot(input));
            },
        }
        i += 1;
    }
    proof {
        if same_dir {
            assert forall|j: int| 0 <= j < plan@.len() implies (#[trigger] plan@[j]).output@
                != plan@[j].input@ by {
                lemma_in_place_output_differs(fdv[j], input_root@, output_root@, ext@);
            }
        }
    }
    Ok(plan)
}

/// What the orchestrator does with one job.
pub enum BatchAction {
    /// Print the planned work without touching the filesystem.
    DryRunReport(BatchJob),
    /// Create the output's parent directory and run the engine.
    Transcode(BatchJob),
}

/// The action taken for each job of the plan, in order.  In a dry run
/// every action is a report: nothing is ever invoked and no directory is
/// created, so a dry run leaves the filesystem untouched.
pub fn plan_actions(jobs: &Vec<BatchJob>, dry_run: bool) -> (r: Vec<BatchAction>)
    ensures
        r@.len() == jobs@.len(),
        forall|i: int|
            0 <= i < r@.len() ==> #[trigger] r@[i] == (if dry_run {
                BatchAction::DryRunReport(jobs@[i])
            } else {
                BatchAction::Transcode(jobs@[i])
            }),
        dry_run ==> forall|i: int| 0 <= i < r@.len() ==> (#[trigger] r@[i]) is DryRunReport,
{
    let mut r: Vec<BatchAction> = Vec::new();
    let mut i: usize = 0;
    while i < jobs.len()
        invariant
            i <= jobs@.len(),
            r@.len() == i,
            forall|j: int|
                0 <= j < i ==> #[trigger] r@[j] == (if dry_run {
                    BatchAction::DryRunReport(jobs@[j])
                } else {
                    BatchAction::Transcode(jobs@[j])
                }),
        decreases jobs@.len() - i,
    {
        let job = jobs[i].clone();
        if dry_run {
            r.push(BatchAction::DryRunReport(job));
        } else {
            r.push(BatchAction::Transcode(job));
        }
        i += 1;
    }
    r
}

/// The outcome of one file of a batch run.
#[derive(Clone, Copy, PartialEq, Eq, Structural, Debug)]
pub enum FileOutcome {
    /// The engine ran and exited cleanly.
    Succeeded,
    /// The engine failed or could not be started; the batch went on.
    Failed,
    /// A dry run reported the plan instead of invoking the engine.
    SkippedDryRun,
}

/// How often `target` occurs in `outcomes`.
pub open spec fn spec_count(outcomes: Seq<FileOutcome>, target: FileOutcome) -> int
    decreases outcomes.len(),
{
    if outcomes.len() == 0 {
        0
    } else {
        spec_count(outcomes.drop_last(), target) + if outcomes.last() == target {
            1int
        } else {
            0int
        }
    }
}

/// Every file of a batch is accounted for: the three outcome counts
/// partition the attempts, so a failure in the middle never swallows the
/// files after it.
pub proof fn lemma_counts_partition(outcomes: Seq<FileOutcome>)
    ensures
        spec_count(outcomes, FileOutcome::Succeeded) + spec_count(outcomes, FileOutcome::Failed)
            + spec_count(outcomes, FileOutcome::SkippedDryRun) == outcomes.len(),
    decreases outcomes.len(),
{
    if outcomes.len() > 0 {
        lemma_counts_partition(outcomes.drop_last());
    }
}

/// The aggregate result of a batch run.
pub struct BatchSummary {
    pub attempted: usize,
    pub succeeded: usize,
    pub failed: usize,
    pub skipped: usize,
}

/// Count the per-file outcomes of a run.  Every outcome is counted exactly
/// once, so attempts always equal successes plus failures plus dry-run
/// skips.
pub fn summarize(outcomes: &Vec<FileOutcome>) -> (r: BatchSummary)
    ensures
        r.attempted == outcomes@.len(),
        r.succeeded == spec_count(outcomes@, FileOutcome::Succeeded),
        r.failed == spec_count(outcomes@, FileOutcome::Failed),
        r.skipped == spec_count(outcomes@, FileOutcome::SkippedDryRun),
        r.succeeded + r.failed + r.skipped == r.attempted,
{
    let mut succeeded: usize = 0;
    let mut failed: usize = 0;
    let mut skipped: usize = 0;
    let mut i: usize = 0;
    while i < outcomes.len()
        invariant
            i <= outcomes@.len(),
            succeeded == spec_count(outcomes@.take(i as int), FileOutcome::Succeeded),
            failed == spec_count(outcomes@.take(i as int), FileOutcome::Failed),
            skipped == spec_count(outcomes@.take(i as int), FileOutcome::SkippedDryRun),
            succeeded + failed + skipped == i,
        decreases outcomes@.len() - i,
    {
        proof {
            assert(outcomes@.take(i + 1).drop_last() =~= outcomes@.take(i as int));
            assert(outcomes@.take(i + 1).last() == outcomes@[i as int]);
        }
        match outcomes[i] {
            FileOutcome::Succeeded => {
                succeeded += 1;
            },
            FileOutcome::Failed => {
                failed += 1;
            },
            FileOutcome::SkippedDryRun => {
                skipped += 1;
            },
        }
        i += 1;
    }
    proof {
        assert(outcomes@.take(outcomes@.len() as int) =~= outcomes@);
    }
    BatchSummary { attempted: outcomes.len(), succeeded, failed, skipped }
}

} // verus!
