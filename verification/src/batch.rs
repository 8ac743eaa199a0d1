//! The batch coordinator: jobs are dispatched eagerly, their terminal
//! results are folded in as they complete in any order, and the batch always
//! drains before the aggregate is handed on. Conservation of outcomes — every
//! job is counted exactly once, as a success, a skip, or a recorded failure,
//! abnormal task deaths included — is an invariant of the fold.

use vstd::prelude::*;
use crate::worker::DownloadOutcome;
use crate::worker::FailReason;

verus! {

/// One failed job, as the failure report lists it.
#[derive(Clone, Debug)]
pub struct FailedDownload {
    pub source_url: String,
    pub reason: FailReason,
}

/// The terminal result of one job as the coordinator receives it: the
/// worker's own outcome, or the fault message of a task that died abnormally
/// before producing one. `source_url` names the originating job either way,
/// so a fault is never dropped silently.
pub struct Completion {
    pub source_url: String,
    pub result: Result<DownloadOutcome, String>,
}

/// A completion that counts as succeeded-or-skipped rather than failed.
pub open spec fn completion_ok(c: Completion) -> bool {
    c.result matches Ok(o) && !(o is Failed)
}

/// The failure record that a non-ok completion contributes: a worker-reported
/// failure keeps its reason; an abnormal task death is attributed to the
/// job's URL as a task fault.
pub open spec fn spec_failure_of(c: Completion) -> FailedDownload
    recommends
        !completion_ok(c),
{
    match c.result {
        Ok(o) => match o {
            DownloadOutcome::Failed { source_url, reason } => FailedDownload { source_url, reason },
            _ => FailedDownload { source_url: c.source_url, reason: FailReason::EmptyContent },
        },
        Err(m) => FailedDownload { source_url: c.source_url, reason: FailReason::TaskFault(m) },
    }
}

/// How many of the completions succeeded or were skipped.
pub open spec fn spec_success_count(cs: Seq<Completion>) -> nat
    decreases cs.len(),
{
    if cs.len() == 0 {
        0
    } else {
        spec_success_count(cs.drop_last()) + if completion_ok(cs.last()) {
            1nat
        } else {
            0nat
        }
    }
}

/// The failure records of the completions, in completion order.
pub open spec fn spec_failures(cs: Seq<Completion>) -> Seq<FailedDownload>
    decreases cs.len(),
{
    if cs.len() == 0 {
        Seq::empty()
    } else {
        spec_failures(cs.drop_last()) + if completion_ok(cs.last()) {
            Seq::empty()
        } else {
            seq![spec_failure_of(cs.last())]
        }
    }
}

/// Conservation of outcomes: over any sequence of completions, the count of
/// successes and skips plus the count of recorded failures equals the count
/// of completions. No job is dropped and none is counted twice.
pub proof fn lemma_outcome_conservation(cs: Seq<Completion>)
    ensures
        spec_success_count(cs) + spec_failures(cs).len() == cs.len(),
    decreases cs.len(),
{
    if cs.len() > 0 {
        lemma_outcome_conservation(cs.drop_last());
    }
}

/// The aggregate of a drained batch.
#[derive(Clone, Debug)]
pub struct BatchResult {
    pub total: usize,
    pub succeeded_or_skipped: usize,
    pub failed: Vec<FailedDownload>,
}

impl BatchResult {
    /// Conservation of outcomes, as the shape every finished batch has.
    pub open spec fn wf(self) -> bool {
        self.succeeded_or_skipped + self.failed@.len() == self.total
    }
}

/// The coordinator's running tally while a batch drains: how many jobs were
/// dispatched, and the fold of the completions received so far.
pub struct BatchProgress {
    total: usize,
    succeeded_or_skipped: usize,
    failed: Vec<FailedDownload>,
    history: Ghost<Seq<Completion>>,
}

impl BatchProgress {
    /// The tally is exactly the fold of the completions received so far, and
    /// never records more completions than jobs were dispatched.
    #[verifier::type_invariant]
    pub closed spec fn wf(self) -> bool {
        &&& self.succeeded_or_skipped == spec_success_count(self.history@)
        &&& self.failed@ == spec_failures(self.history@)
        &&& self.history@.len() <= self.total
    }

    /// The completions recorded so far, in the order they were recorded.
    pub closed spec fn spec_history(self) -> Seq<Completion> {
        self.history@
    }

    /// How many jobs the batch dispatched.
    pub closed spec fn spec_total(self) -> usize {
        self.total
    }

    /// A fresh tally for a batch of `total` dispatched jobs.
    pub fn new(total: usize) -> (p: BatchProgress)
        ensures
            p.spec_total() == total,
            p.spec_history() == Seq::<Completion>::empty(),
    {
        let p = BatchProgress {
            total,
            succeeded_or_skipped: 0,
            failed: Vec::new(),
            history: Ghost(Seq::empty()),
        };
        proof {
            assert(p.failed@ =~= spec_failures(p.history@));
        }
        p
    }

    pub fn total(&self) -> (t: usize)
        ensures
            t == self.spec_total(),
    {
        self.total
    }

    /// How many completions were recorded so far.
    pub fn completed(&self) -> (n: usize)
        ensures
            n == self.spec_history().len(),
    {
        proof {
            use_type_invariant(self);
            lemma_outcome_conservation(self.history@);
        }
        self.succeeded_or_skipped + self.failed.len()
    }

    /// Whether every dispatched job has reached a terminal state.
    pub fn is_complete(&self) -> (b: bool)
        ensures
            b == (self.spec_history().len() == self.spec_total()),
    {
        self.completed() == self.total
    }

    /// Fold in one job's terminal result. A success or a skip raises the
    /// count; a failure or an abnormal task death appends its record to the
    /// failure list, in completion order. Once as many completions stand
    /// recorded as jobs were dispatched, further ones change nothing.
    pub fn record(&mut self, c: Completion)
        ensures
            old(self).spec_history().len() < old(self).spec_total() ==> {
                &&& final(self).spec_history() == old(self).spec_history().push(c)
                &&& final(self).spec_total() == old(self).spec_total()
            },
            old(self).spec_history().len() >= old(self).spec_total() ==> *final(self) == *old(self),
    {
        proof {
            use_type_invariant(&*self);
            lemma_outcome_conservation(self.history@);
        }
        let ghost c0 = c;
        if self.succeeded_or_skipped + self.failed.len() >= self.total {
            return ;
        }
        let mut taken = BatchProgress {
            total: 0,
            succeeded_or_skipped: 0,
            failed: Vec::new(),
            history: Ghost(Seq::empty()),
        };
        core::mem::swap(&mut taken, self);
        let BatchProgress { total, succeeded_or_skipped, failed: mut failed_list, history } = taken;
        let ghost grown = history@.push(c0);
        proof {
            assert(grown.drop_last() =~= history@);
        }
        let Completion { source_url, result } = c;
        let mut new_succeeded = succeeded_or_skipped;
        match result {
            Ok(outcome) => match outcome {
                DownloadOutcome::Skipped | DownloadOutcome::Succeeded => {
                    new_succeeded = succeeded_or_skipped + 1;
                },
                DownloadOutcome::Failed { source_url: failed_url, reason } => {
                    failed_list.push(FailedDownload { source_url: failed_url, reason });
                },
            },
            Err(m) => {
                failed_list.push(FailedDownload { source_url, reason: FailReason::TaskFault(m) });
            },
        }
        proof {
            assert(failed_list@ =~= spec_failures(grown));
        }
        *self = BatchProgress {
            total,
            succeeded_or_skipped: new_succeeded,
            failed: failed_list,
            history: Ghost(grown),
        };
    }

    /// Hand the tally on as the batch's aggregate. When every dispatched job
    /// has completed, the aggregate conserves outcomes.
    pub fn finish(self) -> (r: BatchResult)
        ensures
            r.total == self.spec_total(),
            r.succeeded_or_skipped == spec_success_count(self.spec_history()),
            r.failed@ == spec_failures(self.spec_history()),
            self.spec_history().len() == self.spec_total() ==> r.wf(),
    {
        proof {
            use_type_invariant(&self);
            lemma_outcome_conservation(self.history@);
        }
        let BatchProgress { total, succeeded_or_skipped, failed, history } = self;
        BatchResult { total, succeeded_or_skipped, failed }
    }
}

/// What the surrounding process observed while driving one batch.
pub enum BatchEvent {
    DirectoryResult(Result<(), String>),
    Dispatched(usize),
    JobCompleted(Completion),
    Reported,
}

/// Where one batch stands. A batch that cannot ensure its destination
/// directory aborts fatally before any job is dispatched; once dispatch has
/// happened — eagerly, all jobs at once — the batch only ever drains to
/// completion, reports, and finishes. No partial or cancelled state exists
/// after dispatch.
pub enum BatchPhase {
    Received,
    DirectoryEnsured,
    AwaitingCompletion(BatchProgress),
    Reporting(BatchResult),
    Done,
    FatalAborted(String),
}

/// The events a phase can consume; any other pairing leaves the batch where
/// it stands. The terminal phases consume nothing.
pub open spec fn batch_accepts(phase: BatchPhase, ev: BatchEvent) -> bool {
    match (phase, ev) {
        (BatchPhase::Received, BatchEvent::DirectoryResult(_)) => true,
        (BatchPhase::DirectoryEnsured, BatchEvent::Dispatched(_)) => true,
        (BatchPhase::AwaitingCompletion(_), BatchEvent::JobCompleted(_)) => true,
        (BatchPhase::Reporting(_), BatchEvent::Reported) => true,
        _ => false,
    }
}

/// Advance one batch by one observed event.
///
/// A directory failure is the only fatal outcome, and it happens before any
/// job runs. An empty batch reports at once. Otherwise every job's terminal
/// result is folded into the tally, and the completion that drains the batch
/// carries it into `Reporting` with an aggregate that conserves outcomes.
pub fn batch_step(phase: BatchPhase, ev: BatchEvent) -> (r: BatchPhase)
    ensures
        phase is Received ==> (ev matches BatchEvent::DirectoryResult(Ok(_)) ==> r
            is DirectoryEnsured),
        phase is Received ==> (ev matches BatchEvent::DirectoryResult(Err(m)) ==> (r
            matches BatchPhase::FatalAborted(m2) && m2 == m)),
        phase is DirectoryEnsured ==> (ev matches BatchEvent::Dispatched(total) ==> (total == 0
            ==> (r matches BatchPhase::Reporting(res) && res.total == 0
            && res.succeeded_or_skipped == 0 && res.failed@ == Seq::<FailedDownload>::empty()
            && res.wf()))),
        phase is DirectoryEnsured ==> (ev matches BatchEvent::Dispatched(total) ==> (total > 0 ==> (
        r matches BatchPhase::AwaitingCompletion(p) && p.spec_total() == total && p.spec_history()
            == Seq::<Completion>::empty()))),
        phase matches BatchPhase::AwaitingCompletion(p) ==> (ev
            matches BatchEvent::JobCompleted(c) ==> (p.spec_history().len() + 1 < p.spec_total()
            ==> (r matches BatchPhase::AwaitingCompletion(p2) && p2.spec_total() == p.spec_total()
            && p2.spec_history() == p.spec_history().push(c)))),
        phase matches BatchPhase::AwaitingCompletion(p) ==> (ev
            matches BatchEvent::JobCompleted(c) ==> (p.spec_history().len() + 1 == p.spec_total()
            ==> (r matches BatchPhase::Reporting(res) && res.total == p.spec_total()
            && res.succeeded_or_skipped == spec_success_count(p.spec_history().push(c))
            && res.failed@ == spec_failures(p.spec_history().push(c)) && res.wf()))),
        phase matches BatchPhase::AwaitingCompletion(p) ==> (ev is JobCompleted ==> (
        p.spec_history().len() >= p.spec_total() ==> r == phase)),
        phase is Reporting ==> (ev is Reported ==> r is Done),
        !batch_accepts(phase, ev) ==> r == phase,
{
    match (phase, ev) {
        (BatchPhase::Received, BatchEvent::DirectoryResult(Ok(_))) => BatchPhase::DirectoryEnsured,
        (BatchPhase::Received, BatchEvent::DirectoryResult(Err(m))) => BatchPhase::FatalAborted(m),
        (BatchPhase::DirectoryEnsured, BatchEvent::Dispatched(total)) => {
            if total == 0 {
                let res = BatchResult { total: 0, succeeded_or_skipped: 0, failed: Vec::new() };
                proof {
                    assert(res.failed@ =~= Seq::<FailedDownload>::empty());
                }
                BatchPhase::Reporting(res)
            } else {
                BatchPhase::AwaitingCompletion(BatchProgress::new(total))
            }
        },
        (BatchPhase::AwaitingCompletion(mut p), BatchEvent::JobCompleted(c)) => {
            if p.is_complete() {
                BatchPhase::AwaitingCompletion(p)
            } else {
                p.record(c);
                if p.is_complete() {
                    BatchPhase::Reporting(p.finish())
                } else {
                    BatchPhase::AwaitingCompletion(p)
                }
            }
        },
        (BatchPhase::Reporting(_), BatchEvent::Reported) => BatchPhase::Done,
        (other, _) => other,
    }
}

} // verus!
