//! Book-keeping of a description batch.
use crate::models::{opt_view, CaptureRecord, VlmBatchProgress};
use crate::vlm::server::VlmError;
use vstd::prelude::*;

verus! {

/// The sum of a list of durations.
pub open spec fn seq_sum(s: Seq<u64>) -> int
    decreases s.len(),
{
    if s.len() == 0 {
        0
    } else {
        seq_sum(s.drop_last()) + s.last()
    }
}

/// The estimate: the mean duration so far (rounded down) times the captures still to do.
pub open spec fn spec_estimate_remaining(elapsed: Seq<u64>, total: usize, completed: usize) -> Option<
    int,
> {
    if elapsed.len() == 0 {
        None
    } else {
        Some(
            (seq_sum(elapsed) / elapsed.len() as int) * (if completed <= total {
                total - completed
            } else {
                0
            }),
        )
    }
}

proof fn lemma_sum_monotone(s: Seq<u64>, i: int)
    requires
        0 <= i <= s.len(),
    ensures
        0 <= seq_sum(s.take(i)) <= seq_sum(s),
    decreases s.len() - i,
{
    if i < s.len() {
        assert(s.take(i + 1).drop_last() =~= s.take(i));
        lemma_sum_monotone(s, i + 1);
    } else {
        assert(s.take(i) =~= s);
    }
    lemma_sum_nonneg(s.take(i));
}

proof fn lemma_sum_nonneg(s: Seq<u64>)
    ensures
        seq_sum(s) >= 0,
    decreases s.len(),
{
    if s.len() > 0 {
        lemma_sum_nonneg(s.drop_last());
    }
}

/// Estimates the seconds left in a batch from the time the finished captures took.
pub fn estimate_remaining_secs(elapsed_times: &[u64], total: usize, completed: usize) -> (estimate: Option<
    u64,
>)
    requires
        seq_sum(elapsed_times@) <= u64::MAX,
        elapsed_times@.len() > 0 ==> spec_estimate_remaining(elapsed_times@, total, completed)->0
            <= u64::MAX,
    ensures
        match spec_estimate_remaining(elapsed_times@, total, completed) {
            Some(e) => estimate == Some(e as u64),
            None => estimate is None,
        },
{
    if elapsed_times.len() == 0 {
        return None;
    }
    let mut sum: u64 = 0;
    let mut i: usize = 0;
    while i < elapsed_times.len()
        invariant
            i <= elapsed_times@.len(),
            seq_sum(elapsed_times@) <= u64::MAX,
            sum == seq_sum(elapsed_times@.take(i as int)),
        decreases elapsed_times@.len() - i,
    {
        assert(elapsed_times@.take(i + 1).drop_last() =~= elapsed_times@.take(i as int));
        proof {
            lemma_sum_monotone(elapsed_times@, i + 1);
        }
        sum = sum + elapsed_times[i];
        i = i + 1;
    }
    assert(elapsed_times@.take(elapsed_times@.len() as int) =~= elapsed_times@);
    let average = sum / (elapsed_times.len() as u64);
    let remaining = total.saturating_sub(completed) as u64;
    Some(average * remaining)
}

/// Counts of a running batch.
#[derive(Debug)]
pub struct BatchTally {
    pub total: usize,
    pub completed: usize,
    pub failed: usize,
    pub elapsed_times: Vec<u64>,
}

impl BatchTally {
    /// No capture has been handled more often than there are captures, and every
    /// successful capture has a recorded duration.
    pub open spec fn wf(&self) -> bool {
        &&& self.completed + self.failed <= self.total
        &&& self.elapsed_times@.len() == self.completed
    }

    /// A tally for a batch of `total` captures.
    pub fn new(total: usize) -> (tally: Self)
        ensures
            tally.wf(),
            tally.total == total,
            tally.completed == 0,
            tally.failed == 0,
    {
        BatchTally { total, completed: 0, failed: 0, elapsed_times: Vec::new() }
    }

    /// Records a capture that was described, and how long it took.
    pub fn record_success(&mut self, elapsed_secs: u64)
        requires
            old(self).wf(),
            old(self).completed + old(self).failed < old(self).total,
        ensures
            final(self).wf(),
            final(self).completed == old(self).completed + 1,
            final(self).failed == old(self).failed,
            final(self).total == old(self).total,
            final(self).elapsed_times@ == old(self).elapsed_times@.push(elapsed_secs),
    {
        self.completed = self.completed + 1;
        self.elapsed_times.push(elapsed_secs);
    }

    /// Records a capture that could not be described.
    pub fn record_failure(&mut self)
        requires
            old(self).wf(),
            old(self).completed + old(self).failed < old(self).total,
        ensures
            final(self).wf(),
            final(self).failed == old(self).failed + 1,
            final(self).completed == old(self).completed,
            final(self).total == old(self).total,
            final(self).elapsed_times@ == old(self).elapsed_times@,
    {
        self.failed = self.failed + 1;
    }

    /// The progress reported while the batch works on `current_id`.
    pub fn progress(&self, current_id: Option<String>) -> (progress: VlmBatchProgress)
        requires
            self.wf(),
            seq_sum(self.elapsed_times@) <= u64::MAX,
            self.elapsed_times@.len() > 0 ==> spec_estimate_remaining(
                self.elapsed_times@,
                self.total,
                self.completed,
            )->0 <= u64::MAX,
        ensures
            progress.total == self.total,
            progress.completed == self.completed,
            progress.failed == self.failed,
            progress.current_id == current_id,
            match spec_estimate_remaining(self.elapsed_times@, self.total, self.completed) {
                Some(e) => progress.estimated_remaining_secs == Some(e as u64),
                None => progress.estimated_remaining_secs is None,
            },
    {
        VlmBatchProgress {
            total: self.total,
            completed: self.completed,
            failed: self.failed,
            current_id,
            estimated_remaining_secs: estimate_remaining_secs(
                self.elapsed_times.as_slice(),
                self.total,
                self.completed,
            ),
        }
    }
}

/// The progress reported when a batch starts: nothing done yet, and no time left when
/// there is nothing to do.
pub fn initial_progress(total: usize) -> (progress: VlmBatchProgress)
    ensures
        progress.total == total,
        progress.completed == 0,
        progress.failed == 0,
        progress.current_id is None,
        progress.estimated_remaining_secs == (if total == 0 {
            Some(0u64)
        } else {
            None
        }),
{
    VlmBatchProgress {
        total,
        completed: 0,
        failed: 0,
        current_id: None,
        estimated_remaining_secs: if total == 0 {
            Some(0)
        } else {
            None
        },
    }
}

/// The progress reported when a batch ends: its final counts and no time left.
pub fn final_progress(total: usize, completed: usize, failed: usize) -> (progress: VlmBatchProgress)
    ensures
        progress == (VlmBatchProgress {
            total,
            completed,
            failed,
            current_id: None,
            estimated_remaining_secs: Some(0),
        }),
{
    VlmBatchProgress { total, completed, failed, current_id: None, estimated_remaining_secs: Some(0) }
}

/// The concurrency a batch actually uses: requests below one count as one.
pub fn effective_concurrency(requested: Option<usize>) -> (n: usize)
    ensures
        n == (match requested {
            Some(r) => if r == 0 {
                1
            } else {
                r
            },
            None => 1,
        }),
{
    match requested {
        Some(r) => if r == 0 {
            1
        } else {
            r
        },
        None => 1,
    }
}

/// Whether `progress` reports the given counts, the capture being worked on, and the
/// estimate made from the durations so far.
pub open spec fn reports(
    progress: VlmBatchProgress,
    total: usize,
    completed: usize,
    failed: usize,
    elapsed: Seq<u64>,
    current: Option<Seq<char>>,
) -> bool {
    &&& progress.total == total
    &&& progress.completed == completed
    &&& progress.failed == failed
    &&& opt_view(progress.current_id) == current
    &&& match spec_estimate_remaining(elapsed, total, completed) {
        Some(e) => progress.estimated_remaining_secs == Some(e as u64),
        None => progress.estimated_remaining_secs is None,
    }
}

/// How a batch ended.
#[derive(Debug, Clone, Copy, PartialEq, Eq, Structural)]
pub struct BatchResult {
    pub total: usize,
    pub completed: usize,
    pub failed: usize,
    pub cancelled: bool,
}

/// What the batch loop observed before taking the next capture: the cancel signal, or a
/// pause that ended in cancellation, or leave to go on.
#[derive(Debug)]
pub enum BatchGate {
    Go,
    Stop,
    PauseAborted(String),
}

/// What the batch loop does next.
#[derive(Debug)]
pub enum BatchCommand {
    /// Report `result` (and `error`, if any) and end the batch.
    Finish { result: BatchResult, error: Option<String> },
    /// Report `progress`, then describe the screenshot at `image_path` and store the
    /// description under `id`.
    Describe { progress: VlmBatchProgress, id: String, image_path: String },
    /// Report `progress`; the capture has no image and was counted as failed.
    Skip { progress: VlmBatchProgress },
}

/// A description batch over the captures that had no description when it started.
#[derive(Debug)]
pub struct BatchRun {
    pub queue: Vec<CaptureRecord>,
    pub position: usize,
    pub tally: BatchTally,
    pub auto_delete: bool,
    pub awaiting_outcome: bool,
}

/// Every duration is at most `bound`.
pub open spec fn all_at_most(s: Seq<u64>, bound: int) -> bool {
    forall|i: int| 0 <= i < s.len() ==> s[i] <= bound
}

proof fn lemma_sum_bounded(s: Seq<u64>, bound: int)
    requires
        all_at_most(s, bound),
        bound >= 0,
    ensures
        0 <= seq_sum(s) <= s.len() * bound,
    decreases s.len(),
{
    if s.len() > 0 {
        lemma_sum_bounded(s.drop_last(), bound);
        let n = s.len() as int;
        assert((n - 1) * bound + bound == n * bound) by (nonlinear_arith);
    }
}

proof fn lemma_estimate_fits(elapsed: Seq<u64>, total: usize, completed: usize)
    requires
        all_at_most(elapsed, u32::MAX as int),
        elapsed.len() <= total,
        total <= u32::MAX,
    ensures
        seq_sum(elapsed) <= u64::MAX,
        elapsed.len() > 0 ==> 0 <= spec_estimate_remaining(elapsed, total, completed)->0 <= u64::MAX,
{
    lemma_sum_bounded(elapsed, u32::MAX as int);
    let n = elapsed.len() as int;
    let b = u32::MAX as int;
    let sum = seq_sum(elapsed);
    assert(n * b <= b * b) by (nonlinear_arith)
        requires
            0 <= n <= b,
    ;
    if n > 0 {
        let avg = sum / n;
        assert(0 <= avg <= b) by (nonlinear_arith)
            requires
                0 <= sum <= n * b,
                n > 0,
                avg == sum / n,
        ;
        let rem: int = if completed <= total {
            total - completed
        } else {
            0
        };
        assert(0 <= avg * rem <= b * b) by (nonlinear_arith)
            requires
                0 <= avg <= b,
                0 <= rem <= b,
        ;
    }
}

impl BatchRun {
    /// The counts match the captures taken so far: each one handed out is either counted
    /// or still being described.
    pub open spec fn wf(&self) -> bool {
        &&& self.tally.wf()
        &&& self.tally.total == self.queue@.len()
        &&& self.queue@.len() <= u32::MAX
        &&& self.position <= self.queue@.len()
        &&& self.tally.completed + self.tally.failed + (if self.awaiting_outcome {
            1int
        } else {
            0
        }) == self.position
        &&& all_at_most(self.tally.elapsed_times@, u32::MAX as int)
    }

    /// A batch over `records`, in their order.
    pub fn new(records: Vec<CaptureRecord>, auto_delete: bool) -> (run: Self)
        requires
            records@.len() <= u32::MAX,
        ensures
            run.wf(),
            run.queue@ == records@,
            run.position == 0,
            run.tally.completed == 0,
            run.tally.failed == 0,
            run.tally.elapsed_times@.len() == 0,
            run.auto_delete == auto_delete,
            !run.awaiting_outcome,
    {
        let total = records.len();
        BatchRun {
            queue: records,
            position: 0,
            tally: BatchTally::new(total),
            auto_delete,
            awaiting_outcome: false,
        }
    }

    /// Whether a capture is out for description and its outcome not yet recorded.
    pub fn is_awaiting_outcome(&self) -> (r: bool)
        ensures
            r == self.awaiting_outcome,
    {
        self.awaiting_outcome
    }

    /// Whether captures remain to be handed out.
    pub fn has_next(&self) -> (r: bool)
        requires
            self.wf(),
        ensures
            r == (self.position < self.queue@.len()),
    {
        self.position < self.queue.len()
    }

    /// Takes the next step of the batch, given what was observed before it.
    pub fn next_command(&mut self, gate: BatchGate) -> (command: BatchCommand)
        requires
            old(self).wf(),
            !old(self).awaiting_outcome,
        ensures
            final(self).wf(),
            final(self).queue@ == old(self).queue@,
            final(self).auto_delete == old(self).auto_delete,
            final(self).tally.total == old(self).tally.total,
            final(self).tally.completed == old(self).tally.completed,
            final(self).tally.elapsed_times@ == old(self).tally.elapsed_times@,
            command matches BatchCommand::Finish { result, .. } ==> (result.cancelled
                || result.completed + result.failed == result.total),
            command matches BatchCommand::Finish { result, .. } ==> (result.completed
                + result.failed <= result.total && result.total == old(self).queue@.len()),
            ({
                let total = old(self).tally.total;
                let done = old(self).tally.completed;
                let failed = old(self).tally.failed;
                let finished = |cancelled: bool|
                    BatchResult { total, completed: done, failed, cancelled };
                if total == 0 {
                    command matches BatchCommand::Finish { result, error } && result == finished(
                        false,
                    ) && error is None && *final(self) == *old(self)
                } else if gate is Stop {
                    command matches BatchCommand::Finish { result, error } && result == finished(
                        true,
                    ) && error is None && *final(self) == *old(self)
                } else if gate is PauseAborted {
                    command matches BatchCommand::Finish { result, error } && result == finished(
                        true,
                    ) && opt_view(error) == Some(gate->PauseAborted_0@) && *final(self)
                        == *old(self)
                } else if old(self).position == old(self).queue@.len() {
                    command matches BatchCommand::Finish { result, error } && result == finished(
                        false,
                    ) && error is None && *final(self) == *old(self)
                } else {
                    let record = old(self).queue@[old(self).position as int];
                    &&& final(self).position == old(self).position + 1
                    &&& match record.image_path {
                        Some(path) => {
                            &&& command matches BatchCommand::Describe { progress, id, image_path }
                                && reports(
                                progress,
                                total,
                                done,
                                failed,
                                old(self).tally.elapsed_times@,
                                Some(record.id@),
                            ) && id@ == record.id@ && image_path@ == path@
                            &&& final(self).tally.failed == failed
                            &&& final(self).awaiting_outcome
                        },
                        None => {
                            &&& command matches BatchCommand::Skip { progress } && reports(
                                progress,
                                total,
                                done,
                                failed,
                                old(self).tally.elapsed_times@,
                                Some(record.id@),
                            )
                            &&& final(self).tally.failed == failed + 1
                            &&& !final(self).awaiting_outcome
                        },
                    }
                }
            }),
    {
        let total = self.tally.total;
        let result_with = |cancelled: bool| -> (r: BatchResult)
            ensures
                r == (BatchResult {
                    total,
                    completed: self.tally.completed,
                    failed: self.tally.failed,
                    cancelled,
                }),
            { BatchResult { total, completed: self.tally.completed, failed: self.tally.failed, cancelled } };
        if total == 0 {
            return BatchCommand::Finish { result: result_with(false), error: None };
        }
        match gate {
            BatchGate::Stop => BatchCommand::Finish { result: result_with(true), error: None },
            BatchGate::PauseAborted(message) => BatchCommand::Finish {
                result: result_with(true),
                error: Some(message),
            },
            BatchGate::Go => {
                if self.position >= self.queue.len() {
                    return BatchCommand::Finish { result: result_with(false), error: None };
                }
                let index = self.position;
                proof {
                    lemma_estimate_fits(self.tally.elapsed_times@, self.tally.total, self.tally.completed);
                }
                let id = self.queue[index].id.clone();
                let progress = self.tally.progress(Some(id));
                self.position = index + 1;
                match &self.queue[index].image_path {
                    Some(path) => {
                        let image_path = path.clone();
                        let id = self.queue[index].id.clone();
                        self.awaiting_outcome = true;
                        BatchCommand::Describe { progress, id, image_path }
                    },
                    None => {
                        self.tally.record_failure();
                        BatchCommand::Skip { progress }
                    },
                }
            },
        }
    }

    /// Records how the description of the capture handed out last went: `Some(secs)` when it
    /// was stored, after `secs` seconds, and `None` when it failed.  Returns whether the
    /// capture's image and metadata are now to be deleted.
    pub fn record_outcome(&mut self, outcome: Option<u32>) -> (delete_artifacts: bool)
        requires
            old(self).wf(),
            old(self).awaiting_outcome,
        ensures
            final(self).wf(),
            !final(self).awaiting_outcome,
            final(self).queue@ == old(self).queue@,
            final(self).position == old(self).position,
            final(self).auto_delete == old(self).auto_delete,
            final(self).tally.total == old(self).tally.total,
            match outcome {
                Some(secs) => {
                    &&& final(self).tally.completed == old(self).tally.completed + 1
                    &&& final(self).tally.failed == old(self).tally.failed
                    &&& final(self).tally.elapsed_times@ == old(self).tally.elapsed_times@.push(
                        secs as u64,
                    )
                    &&& delete_artifacts == old(self).auto_delete
                },
                None => {
                    &&& final(self).tally.completed == old(self).tally.completed
                    &&& final(self).tally.failed == old(self).tally.failed + 1
                    &&& final(self).tally.elapsed_times@ == old(self).tally.elapsed_times@
                    &&& !delete_artifacts
                },
            },
    {
        self.awaiting_outcome = false;
        match outcome {
            Some(secs) => {
                self.tally.record_success(secs as u64);
                self.auto_delete
            },
            None => {
                self.tally.record_failure();
                false
            },
        }
    }
}

/// What to start before a batch: nothing when the server already runs, and otherwise the
/// model and projector files, which must both be given.
pub fn server_start_plan(
    server_running: bool,
    model_path: Option<String>,
    mmproj_path: Option<String>,
) -> (plan: Result<Option<(String, String)>, VlmError>)
    ensures
        server_running ==> plan matches Ok(None),
        !server_running && model_path is None ==> (plan matches Err(VlmError::InvalidResponse(m))
            && m@ == "VLM server is not running and model_path was not provided"@),
        !server_running && model_path is Some && mmproj_path is None ==> (plan matches Err(
            VlmError::InvalidResponse(m),
        ) && m@ == "VLM server is not running and mmproj_path was not provided"@),
        !server_running && model_path is Some && mmproj_path is Some ==> plan == Ok::<
            Option<(String, String)>,
            VlmError,
        >(Some((model_path->0, mmproj_path->0))),
{
    if server_running {
        return Ok(None);
    }
    match (model_path, mmproj_path) {
        (None, _) => Err(
            VlmError::InvalidResponse(
                "VLM server is not running and model_path was not provided".to_owned(),
            ),
        ),
        (Some(_), None) => Err(
            VlmError::InvalidResponse(
                "VLM server is not running and mmproj_path was not provided".to_owned(),
            ),
        ),
        (Some(model), Some(mmproj)) => Ok(Some((model, mmproj))),
    }
}

} // verus!
