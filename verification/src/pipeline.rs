//! The ingest pipeline's state machine: three phases in a fixed
//! order, explicit failure from any of them, and exact progress
//! emissions.  The machine decides; the caller performs the outside
//! work (subprocesses, file moves) and reports each outcome back.

use vstd::prelude::*;
use crate::id::Id;
use crate::job::Job;
use crate::lines::{get_segment, get_timestamp, spec_get_segment, spec_get_timestamp};
use crate::progress::{progress_pct, spec_progress_pct, lemma_progress_monotone};
use crate::status::{PhaseError, Status};
use crate::timestamp::Timestamp;

verus! {

#[derive(Clone, Copy, Debug, PartialEq, Eq, Structural)]
pub enum Phase {
    Pending,
    Clipping,
    Transcribing,
    Finalizing,
    Complete,
    Failed,
}

/// The five finalization steps, in the only order they may run.
#[derive(Clone, Copy, Debug, PartialEq, Eq, Structural)]
pub enum FinalizeStep {
    /// Move the temporary clip to its permanent sharded path.
    MoveClip,
    /// Move the subtitle artifact to its permanent path.
    MoveSubtitle,
    /// Write the entry's metadata sidecar.
    WriteMeta,
    /// Insert the entry into both stores through the facade.
    InsertCatalog,
    /// Mark the originating job done in the record store.
    MarkDone,
}

pub struct Pipeline {
    pub phase: Phase,
    pub job: Job,
    pub id: Id,
    /// Which finalization step runs next; meaningful only while
    /// finalizing.
    pub step: u8,
}

/// The elapsed instant one clipping progress line reports.
pub open spec fn spec_clip_elapsed(line: Seq<char>) -> Option<Timestamp> {
    match spec_get_timestamp(line) {
        Some(text) => Timestamp::spec_from_str(text),
        None => None,
    }
}

/// The status one clipping progress line yields: the clamped, rounded
/// share of the span from start to end that the reported instant
/// covers.
pub open spec fn spec_clip_status(line: Seq<char>, job: Job) -> Option<Status> {
    match spec_clip_elapsed(line) {
        Some(ts) => Some(
            Status::First(
                spec_progress_pct(
                    ts.spec_total_millis(),
                    job.start.spec_total_millis(),
                    job.end.spec_total_millis(),
                ) as u16,
            ),
        ),
        None => None,
    }
}

/// The status one transcription segment line yields: the segment
/// stamp's share of the clip duration, with everything at or under
/// 12 suppressed for display smoothness.
pub open spec fn spec_transcribe_status(line: Seq<char>, job: Job) -> Option<Status> {
    match spec_get_segment(line) {
        Some(ts) => {
            let pct = spec_progress_pct(
                ts.spec_total_millis(),
                0,
                job.end.spec_total_millis() - job.start.spec_total_millis(),
            );
            if pct <= 12 {
                None
            } else {
                Some(Status::Second(pct as u16))
            }
        },
        None => None,
    }
}

impl Pipeline {
    pub open spec fn wf(self) -> bool {
        &&& self.job.wf()
        &&& (self.phase is Finalizing ==> self.step <= 4)
    }

    /// A freshly submitted job, not yet started.
    pub fn new(job: Job, id: Id) -> (r: Pipeline)
        requires
            job.wf(),
        ensures
            r.wf(),
            r.phase is Pending,
            r.job == job,
            r.id == id,
    {
        Pipeline { phase: Phase::Pending, job, id, step: 0 }
    }

    /// Starts the clipping phase.  The first message on the channel
    /// is zero clipping progress.
    pub fn begin(&mut self) -> (r: Status)
        requires
            old(self).wf(),
            old(self).phase is Pending,
        ensures
            final(self).wf(),
            final(self).phase is Clipping,
            final(self).job == old(self).job,
            final(self).id == old(self).id,
            r == Status::First(0u16),
    {
        self.phase = Phase::Clipping;
        Status::First(0)
    }

    /// Reads one line of the clipping tool's progress stream.  Only
    /// `out_time=<timestamp>` lines yield a message; its percentage
    /// never leaves 0 to 100.
    pub fn clip_line(&self, line: &str) -> (r: Option<Status>)
        requires
            self.wf(),
            self.phase is Clipping,
        ensures
            r == spec_clip_status(line@, self.job),
            r matches Some(s) ==> s.wf(),
    {
        let text = match get_timestamp(line) {
            Some(t) => t,
            None => {
                return None;
            },
        };
        let ts = match Timestamp::from_str(text.as_str()) {
            Some(t) => t,
            None => {
                return None;
            },
        };
        let pct = progress_pct(&ts, &self.job.start, &self.job.end);
        Some(Status::First(pct))
    }

    /// Ends the clipping phase.  Success moves on to transcription
    /// with the terminal 100; a nonzero tool exit fails the job and
    /// nothing later runs.
    pub fn clip_done(&mut self, success: bool) -> (r: Status)
        requires
            old(self).wf(),
            old(self).phase is Clipping,
        ensures
            final(self).wf(),
            final(self).job == old(self).job,
            final(self).id == old(self).id,
            success ==> final(self).phase is Transcribing && r == Status::First(100u16),
            !success ==> final(self).phase is Failed && r == Status::Failed(PhaseError::Clip),
    {
        if success {
            self.phase = Phase::Transcribing;
            Status::First(100)
        } else {
            self.phase = Phase::Failed;
            Status::Failed(PhaseError::Clip)
        }
    }

    /// The transcription phase opens with zero progress.
    pub fn transcribe_begin(&self) -> (r: Status)
        requires
            self.phase is Transcribing,
        ensures
            r == Status::Second(0u16),
    {
        Status::Second(0)
    }

    /// One value of the short synthetic warm-up sequence emitted
    /// while the transcription tool initializes: fixed low values,
    /// purely for display responsiveness, not derived from real
    /// progress.
    pub fn warmup_status(&self, step: u16) -> (r: Status)
        requires
            self.phase is Transcribing,
            1 <= step <= 9,
        ensures
            r == Status::Second(step),
            r.wf(),
    {
        Status::Second(step)
    }

    /// Reads one line of the transcription tool's output.  Only
    /// bracketed segment markers yield a message: the marker's
    /// stamp read against the clip duration.  Every message reads
    /// strictly above 12: lower values are suppressed so the display
    /// never looks stuck.
    pub fn transcribe_line(&self, line: &str) -> (r: Option<Status>)
        requires
            self.wf(),
            self.phase is Transcribing,
        ensures
            r == spec_transcribe_status(line@, self.job),
            r matches Some(s) ==> s.wf() && s is Second && s->Second_0 > 12,
    {
        let ts = match get_segment(line) {
            Some(t) => t,
            None => {
                return None;
            },
        };
        let zero = Timestamp { hours: 0, minutes: 0, seconds: 0, millis: 0 };
        let dur = self.job.end.minus(&self.job.start);
        let pct = progress_pct(&ts, &zero, &dur);
        if pct <= 12 {
            None
        } else {
            Some(Status::Second(pct))
        }
    }

    /// Ends the transcription phase.  A readable transcript moves on
    /// to finalization with the terminal 100; any read or parse
    /// failure fails the job without touching persisted state.
    pub fn transcribe_done(&mut self, read_ok: bool) -> (r: Status)
        requires
            old(self).wf(),
            old(self).phase is Transcribing,
        ensures
            final(self).wf(),
            final(self).job == old(self).job,
            final(self).id == old(self).id,
            read_ok ==> final(self).phase is Finalizing && final(self).step == 0 && r
                == Status::Second(100u16),
            !read_ok ==> final(self).phase is Failed && r == Status::Failed(
                PhaseError::Transcribe,
            ),
    {
        if read_ok {
            self.phase = Phase::Finalizing;
            self.step = 0;
            Status::Second(100)
        } else {
            self.phase = Phase::Failed;
            Status::Failed(PhaseError::Transcribe)
        }
    }

    /// Which finalization step must run next.  Steps never run out of
    /// order and none is skipped.
    pub fn next_step(&self) -> (r: FinalizeStep)
        requires
            self.wf(),
            self.phase is Finalizing,
        ensures
            self.step == 0 ==> r is MoveClip,
            self.step == 1 ==> r is MoveSubtitle,
            self.step == 2 ==> r is WriteMeta,
            self.step == 3 ==> r is InsertCatalog,
            self.step == 4 ==> r is MarkDone,
    {
        if self.step == 0 {
            FinalizeStep::MoveClip
        } else if self.step == 1 {
            FinalizeStep::MoveSubtitle
        } else if self.step == 2 {
            FinalizeStep::WriteMeta
        } else if self.step == 3 {
            FinalizeStep::InsertCatalog
        } else {
            FinalizeStep::MarkDone
        }
    }

    /// Takes the outcome of the finalization step just performed.
    /// Each successful step emits its fixed percentage, the last one
    /// completes the job, and any failure aborts every remaining
    /// step.
    pub fn step_done(&mut self, ok: bool) -> (r: Status)
        requires
            old(self).wf(),
            old(self).phase is Finalizing,
        ensures
            final(self).wf(),
            final(self).job == old(self).job,
            final(self).id == old(self).id,
            !ok ==> final(self).phase is Failed && r == Status::Failed(PhaseError::Finalize),
            ok && old(self).step == 0 ==> final(self).phase is Finalizing && final(self).step == 1
                && r == Status::Third(25u16),
            ok && old(self).step == 1 ==> final(self).phase is Finalizing && final(self).step == 2
                && r == Status::Third(50u16),
            ok && old(self).step == 2 ==> final(self).phase is Finalizing && final(self).step == 3
                && r == Status::Third(75u16),
            ok && old(self).step == 3 ==> final(self).phase is Finalizing && final(self).step == 4
                && r == Status::Third(80u16),
            ok && old(self).step == 4 ==> final(self).phase is Complete && r == Status::Complete(
                old(self).id,
            ),
    {
        if !ok {
            self.phase = Phase::Failed;
            return Status::Failed(PhaseError::Finalize);
        }
        if self.step == 0 {
            self.step = 1;
            Status::Third(25)
        } else if self.step == 1 {
            self.step = 2;
            Status::Third(50)
        } else if self.step == 2 {
            self.step = 3;
            Status::Third(75)
        } else if self.step == 3 {
            self.step = 4;
            Status::Third(80)
        } else {
            self.phase = Phase::Complete;
            Status::Complete(self.id)
        }
    }
}

/// Clipping progress never falls: of two progress lines whose
/// reported instants are in order, the later one's percentage is at
/// least the earlier one's.
pub proof fn lemma_clip_progress_monotone(job: Job, l1: Seq<char>, l2: Seq<char>)
    requires
        job.wf(),
        spec_clip_elapsed(l1) is Some,
        spec_clip_elapsed(l2) is Some,
        spec_clip_elapsed(l1)->0.spec_total_millis() <= spec_clip_elapsed(l2)->0.spec_total_millis(),
    ensures
        spec_clip_status(l1, job)->0->First_0 <= spec_clip_status(l2, job)->0->First_0,
{
    lemma_progress_monotone(
        spec_clip_elapsed(l1)->0.spec_total_millis(),
        spec_clip_elapsed(l2)->0.spec_total_millis(),
        job.start.spec_total_millis(),
        job.end.spec_total_millis(),
    );
}

/// Transcription never emits a percentage at or under 12: the
/// suppression rule holds for every line of every job.
pub proof fn lemma_transcribe_suppression(job: Job, line: Seq<char>)
    ensures
        spec_transcribe_status(line, job) matches Some(s) ==> s is Second && s->Second_0 > 12,
{
}

} // verus!
