//! A run of decoding jobs: its progress, whether it was cancelled, and what it came to.

use vstd::prelude::*;

verus! {

/// How a job ended.
#[derive(Debug, Clone, Copy, PartialEq, Eq)]
pub enum JobOutcome {
    /// The sample was written out.
    Decoded,
    /// The sample could not be had or decoded.
    Skipped,
    /// The sample was decoded but could not be written, or the job was not run.
    Uncounted,
}

/// What a run of jobs comes to.
#[derive(Debug, Clone, Copy, PartialEq, Eq)]
pub struct DecodeResult {
    pub decoded_count: usize,
    pub skipped_count: usize,
}

/// How often an outcome stands among the first `n`.
pub open spec fn times(outcomes: Seq<JobOutcome>, outcome: JobOutcome, n: int) -> nat
    decreases n,
{
    if n <= 0 {
        0
    } else if outcomes[n - 1] == outcome {
        times(outcomes, outcome, n - 1) + 1
    } else {
        times(outcomes, outcome, n - 1)
    }
}

/// Counts the samples that were decoded and those that were skipped.
pub fn tally(outcomes: &Vec<JobOutcome>) -> (r: DecodeResult)
    ensures
        r.decoded_count == times(outcomes@, JobOutcome::Decoded, outcomes@.len() as int),
        r.skipped_count == times(outcomes@, JobOutcome::Skipped, outcomes@.len() as int),
{
    let mut decoded_count: usize = 0;
    let mut skipped_count: usize = 0;
    let mut i: usize = 0;
    while i < outcomes.len()
        invariant
            i <= outcomes@.len(),
            decoded_count <= i,
            skipped_count <= i,
            decoded_count == times(outcomes@, JobOutcome::Decoded, i as int),
            skipped_count == times(outcomes@, JobOutcome::Skipped, i as int),
        decreases outcomes@.len() - i,
    {
        match outcomes[i] {
            JobOutcome::Decoded => {
                decoded_count = decoded_count + 1;
            },
            JobOutcome::Skipped => {
                skipped_count = skipped_count + 1;
            },
            JobOutcome::Uncounted => {},
        }
        i = i + 1;
    }
    DecodeResult { decoded_count, skipped_count }
}

/// Whether the progress is shown anew once `done` of `total` jobs have begun: at every
/// thirty-second, and at the last.
pub fn progress_due(done: usize, total: usize) -> (r: bool)
    ensures
        r == (done % 32 == 0 || done == total),
{
    done % 32 == 0 || done == total
}

/// How far a run has come.
#[derive(Debug, Clone, PartialEq, Eq)]
pub struct DecodeProgress {
    pub total: usize,
    pub completed: usize,
    pub current_file: String,
    pub cancelled: bool,
}

/// The run that is under way, and what the last one came to where that was not yet taken
/// up.
#[derive(Debug)]
pub struct DecodeState {
    pub progress: Option<DecodeProgress>,
    pub result: Option<DecodeResult>,
}

/// What is known of the progress of a run.
#[verifier::ext_equal]
pub struct ProgressModel {
    pub total: int,
    pub completed: int,
    pub current_file: Seq<char>,
    pub cancelled: bool,
}

/// What is known of runs.
#[verifier::ext_equal]
pub struct RunModel {
    pub progress: Option<ProgressModel>,
    pub result: Option<DecodeResult>,
}

impl View for DecodeProgress {
    type V = ProgressModel;

    open spec fn view(&self) -> ProgressModel {
        ProgressModel {
            total: self.total as int,
            completed: self.completed as int,
            current_file: self.current_file@,
            cancelled: self.cancelled,
        }
    }
}

impl View for DecodeState {
    type V = RunModel;

    open spec fn view(&self) -> RunModel {
        RunModel {
            progress: match self.progress {
                Some(p) => Some(p@),
                None => None,
            },
            result: self.result,
        }
    }
}

/// A run of `total` jobs that has just begun.
pub open spec fn begun(total: int) -> RunModel {
    RunModel {
        progress: Some(
            ProgressModel { total, completed: 0, current_file: Seq::empty(), cancelled: false },
        ),
        result: None,
    }
}

/// A run in which the `done`-th job has begun. The progress is shown anew only at every
/// thirty-second job and at the last.
pub open spec fn advanced(run: RunModel, done: int, file: Seq<char>) -> RunModel {
    match run.progress {
        Some(p) => if done % 32 == 0 || done == p.total {
            RunModel {
                progress: Some(ProgressModel { completed: done, current_file: file, ..p }),
                ..run
            }
        } else {
            run
        },
        None => run,
    }
}

/// A run that was told to stop.
pub open spec fn stopped(run: RunModel) -> RunModel {
    match run.progress {
        Some(p) => RunModel { progress: Some(ProgressModel { cancelled: true, ..p }), ..run },
        None => run,
    }
}

/// Whether a run is under way that was told to stop.
pub open spec fn is_stopped(run: RunModel) -> bool {
    run.progress matches Some(p) && p.cancelled
}

impl DecodeState {
    /// No run is under way and none was before.
    pub fn new() -> (r: Self)
        ensures
            r@ == (RunModel { progress: None, result: None }),
    {
        DecodeState { progress: None, result: None }
    }

    /// Begins a run of `total` jobs.
    pub fn begin(&mut self, total: usize)
        ensures
            final(self)@ == begun(total as int),
    {
        self.progress = Some(
            DecodeProgress { total, completed: 0, current_file: String::new(), cancelled: false },
        );
        self.result = None;
        assert(self@ =~= begun(total as int));
    }

    /// Notes that the `done`-th job, on the sample called `file`, has begun.
    pub fn advance(&mut self, done: usize, file: &str)
        ensures
            final(self)@ == advanced(old(self)@, done as int, file@),
    {
        match &mut self.progress {
            Some(p) => {
                if progress_due(done, p.total) {
                    p.completed = done;
                    p.current_file = file.to_owned();
                }
            },
            None => {},
        }
    }

    /// Tells the run that is under way to stop.
    pub fn cancel(&mut self)
        ensures
            final(self)@ == stopped(old(self)@),
    {
        match &mut self.progress {
            Some(p) => {
                p.cancelled = true;
            },
            None => {},
        }
    }

    /// Whether the run that is under way was told to stop.
    pub fn is_cancelled(&self) -> (r: bool)
        ensures
            r == is_stopped(self@),
    {
        match &self.progress {
            Some(p) => p.cancelled,
            None => false,
        }
    }

    /// Ends the run that is under way.
    pub fn finish(&mut self, result: DecodeResult)
        ensures
            final(self)@ == (RunModel { progress: None, result: Some(result) }),
    {
        self.progress = None;
        self.result = Some(result);
    }

    /// Whether a run is under way.
    pub fn is_running(&self) -> (r: bool)
        ensures
            r == (self@.progress is Some),
    {
        self.progress.is_some()
    }

    /// Takes up what the last run came to.
    pub fn take_result(&mut self) -> (r: Option<DecodeResult>)
        ensures
            r == old(self)@.result,
            final(self)@ == (RunModel { result: None, ..old(self)@ }),
    {
        self.result.take()
    }
}

/// A run that was told to stop stays so however it goes on, until it ends; and a new run
/// has not been told to.
pub proof fn law_stop_lasts(run: RunModel, done: int, file: Seq<char>, total: int)
    requires
        run.progress is Some,
    ensures
        is_stopped(stopped(run)),
        is_stopped(advanced(run, done, file)) == is_stopped(run),
        !is_stopped(begun(total)),
{
}

/// The progress of a run whose jobs begin one after the other ends with all of them.
pub proof fn law_last_job_is_shown(run: RunModel, file: Seq<char>)
    requires
        run.progress is Some,
    ensures
        advanced(run, run.progress->0.total, file).progress->0.completed == run.progress->0.total,
        advanced(run, run.progress->0.total, file).progress->0.current_file == file,
{
}

/// Every job has one of the three outcomes, so no job is both decoded and skipped.
pub proof fn law_tally_is_whole(outcomes: Seq<JobOutcome>, n: int)
    requires
        0 <= n <= outcomes.len(),
    ensures
        times(outcomes, JobOutcome::Decoded, n) + times(outcomes, JobOutcome::Skipped, n) + times(
            outcomes,
            JobOutcome::Uncounted,
            n,
        ) == n,
    decreases n,
{
    if n > 0 {
        law_tally_is_whole(outcomes, n - 1);
    }
}

} // verus!
