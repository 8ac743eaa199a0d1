//! The fetch worker's decision logic, as a state machine from observation to
//! next phase. The code around the library performs the existence test, the
//! permit acquisition, the HTTP transfer and the file write, and feeds each result
//! back as a `WorkerEvent`; every decision between those steps is made here.

use vstd::prelude::*;

verus! {

/// Why one job failed. Transport covers resolution, connection and read
/// errors; a non-success status is recorded with its code; an empty payload
/// on a success status is its own kind; a write failure carries the disk
/// error; a task that died abnormally is still attributed to its job.
#[derive(Clone, Debug)]
pub enum FailReason {
    Transport(String),
    HttpStatus(u16),
    EmptyContent,
    Write(String),
    TaskFault(String),
}

/// Terminal classification of one job. A destination file that already
/// existed is authoritative and is never re-fetched or overwritten.
#[derive(Clone, Debug)]
pub enum DownloadOutcome {
    Skipped,
    Succeeded,
    Failed { source_url: String, reason: FailReason },
}

/// An HTTP status code on which a response body is accepted.
pub open spec fn spec_is_success_status(s: u16) -> bool {
    200 <= s < 300
}

/// Where one worker stands between two of its suspension points. Once a
/// permit is held, every path runs through `ReleasingPermit` before `Done`,
/// so a held slot is always returned.
pub enum WorkerPhase {
    CheckingExistence,
    AwaitingPermit,
    Sending,
    ReadingBody,
    Writing(Vec<u8>),
    ReleasingPermit(DownloadOutcome),
    Done(DownloadOutcome),
}

/// What the surrounding process observed at the worker's current phase.
pub enum WorkerEvent {
    Exists(bool),
    PermitGranted,
    SendResult(Result<u16, String>),
    BodyResult(Result<Vec<u8>, String>),
    WriteResult(Result<(), String>),
    PermitReleased,
}

/// The events a phase can consume; any other pairing leaves the worker where
/// it stands. `Done` consumes nothing: the machine never leaves it.
pub open spec fn accepts(phase: WorkerPhase, ev: WorkerEvent) -> bool {
    match (phase, ev) {
        (WorkerPhase::CheckingExistence, WorkerEvent::Exists(_)) => true,
        (WorkerPhase::AwaitingPermit, WorkerEvent::PermitGranted) => true,
        (WorkerPhase::Sending, WorkerEvent::SendResult(_)) => true,
        (WorkerPhase::ReadingBody, WorkerEvent::BodyResult(_)) => true,
        (WorkerPhase::Writing(_), WorkerEvent::WriteResult(_)) => true,
        (WorkerPhase::ReleasingPermit(_), WorkerEvent::PermitReleased) => true,
        _ => false,
    }
}

/// One worker: the URL it is responsible for and where it stands.
pub struct Worker {
    pub source_url: String,
    pub phase: WorkerPhase,
}

/// The transition relation of the worker, spelled out case by case:
/// an existing destination is `Skipped` before any permit is taken; a
/// transport error, a non-success status, an empty body and a failed write
/// each fail the job with their reason; only a written non-empty body of a
/// success status succeeds; and every permit-holding path releases the permit
/// before finishing.
pub open spec fn spec_worker_step(w: Worker, ev: WorkerEvent) -> Worker {
    if !accepts(w.phase, ev) {
        w
    } else {
        let next = match (w.phase, ev) {
            (WorkerPhase::CheckingExistence, WorkerEvent::Exists(true)) => WorkerPhase::Done(
                DownloadOutcome::Skipped,
            ),
            (WorkerPhase::CheckingExistence, WorkerEvent::Exists(false)) => (
            WorkerPhase::AwaitingPermit),
            (WorkerPhase::AwaitingPermit, WorkerEvent::PermitGranted) => WorkerPhase::Sending,
            (WorkerPhase::Sending, WorkerEvent::SendResult(Result::Ok(status))) => if (
            spec_is_success_status(status)) {
                WorkerPhase::ReadingBody
            } else {
                WorkerPhase::ReleasingPermit(
                    DownloadOutcome::Failed {
                        source_url: w.source_url,
                        reason: FailReason::HttpStatus(status),
                    },
                )
            },
            (WorkerPhase::Sending, WorkerEvent::SendResult(Result::Err(m))) => (
            WorkerPhase::ReleasingPermit(
                DownloadOutcome::Failed {
                    source_url: w.source_url,
                    reason: FailReason::Transport(m),
                },
            )),
            (WorkerPhase::ReadingBody, WorkerEvent::BodyResult(Result::Ok(body))) => if body.len()
                == 0 {
                WorkerPhase::ReleasingPermit(
                    DownloadOutcome::Failed {
                        source_url: w.source_url,
                        reason: FailReason::EmptyContent,
                    },
                )
            } else {
                WorkerPhase::Writing(body)
            },
            (WorkerPhase::ReadingBody, WorkerEvent::BodyResult(Result::Err(m))) => (
            WorkerPhase::ReleasingPermit(
                DownloadOutcome::Failed {
                    source_url: w.source_url,
                    reason: FailReason::Transport(m),
                },
            )),
            (WorkerPhase::Writing(_), WorkerEvent::WriteResult(Result::Ok(_))) => (
            WorkerPhase::ReleasingPermit(DownloadOutcome::Succeeded)),
            (WorkerPhase::Writing(_), WorkerEvent::WriteResult(Result::Err(m))) => (
            WorkerPhase::ReleasingPermit(
                DownloadOutcome::Failed { source_url: w.source_url, reason: FailReason::Write(m) },
            )),
            (WorkerPhase::ReleasingPermit(outcome), WorkerEvent::PermitReleased) => (
            WorkerPhase::Done(outcome)),
            _ => w.phase,
        };
        Worker { source_url: w.source_url, phase: next }
    }
}

/// The worker after consuming a whole sequence of events, first to last.
pub open spec fn run_events(w: Worker, evs: Seq<WorkerEvent>) -> Worker
    decreases evs.len(),
{
    if evs.len() == 0 {
        w
    } else {
        run_events(spec_worker_step(w, evs[0]), evs.drop_first())
    }
}

/// The events one job's run produces when its environment answers as given:
/// an existing destination ends the run at once; otherwise a permit is
/// granted, the send result arrives, a successful status is followed by the
/// body, a non-empty body by the write result, and the permit is released.
pub open spec fn fetch_script(
    exists: bool,
    send: Result<u16, String>,
    body: Result<Vec<u8>, String>,
    write: Result<(), String>,
) -> Seq<WorkerEvent> {
    if exists {
        seq![WorkerEvent::Exists(true)]
    } else {
        let opening = seq![
            WorkerEvent::Exists(false),
            WorkerEvent::PermitGranted,
            WorkerEvent::SendResult(send),
        ];
        let middle = if send matches Ok(status) && spec_is_success_status(status) {
            if body matches Ok(b) && b.len() > 0 {
                seq![WorkerEvent::BodyResult(body), WorkerEvent::WriteResult(write)]
            } else {
                seq![WorkerEvent::BodyResult(body)]
            }
        } else {
            Seq::empty()
        };
        opening + middle + seq![WorkerEvent::PermitReleased]
    }
}

/// What the environment's answers decide for the job at `url`: skipped if
/// the destination existed, otherwise the first failure encountered — the
/// transport error, the non-success status, the empty payload, the write
/// error — and success only when none occurred.
pub open spec fn fetch_outcome(
    url: String,
    exists: bool,
    send: Result<u16, String>,
    body: Result<Vec<u8>, String>,
    write: Result<(), String>,
) -> DownloadOutcome {
    if exists {
        DownloadOutcome::Skipped
    } else {
        match send {
            Err(m) => DownloadOutcome::Failed { source_url: url, reason: FailReason::Transport(m) },
            Ok(status) => {
                if !spec_is_success_status(status) {
                    DownloadOutcome::Failed {
                        source_url: url,
                        reason: FailReason::HttpStatus(status),
                    }
                } else {
                    match body {
                        Err(m) => DownloadOutcome::Failed {
                            source_url: url,
                            reason: FailReason::Transport(m),
                        },
                        Ok(b) => {
                            if b.len() == 0 {
                                DownloadOutcome::Failed {
                                    source_url: url,
                                    reason: FailReason::EmptyContent,
                                }
                            } else {
                                match write {
                                    Err(m) => DownloadOutcome::Failed {
                                        source_url: url,
                                        reason: FailReason::Write(m),
                                    },
                                    Ok(_) => DownloadOutcome::Succeeded,
                                }
                            }
                        },
                    }
                }
            },
        }
    }
}

/// Consuming one event of a script is stepping once and consuming the rest.
proof fn lemma_run_one(w: Worker, e: WorkerEvent, evs: Seq<WorkerEvent>)
    ensures
        run_events(w, seq![e] + evs) == run_events(spec_worker_step(w, e), evs),
{
    assert((seq![e] + evs)[0] == e);
    assert((seq![e] + evs).drop_first() =~= evs);
}

/// A worker driven through the script its environment answers ends in
/// `Done`, holding exactly the outcome those answers determine: the machine
/// neither invents nor loses a failure, fetches nothing whose destination
/// existed, and succeeds only when the fetch delivered and the write went
/// through.
pub proof fn lemma_run_reaches_outcome(
    url: String,
    exists: bool,
    send: Result<u16, String>,
    body: Result<Vec<u8>, String>,
    write: Result<(), String>,
)
    ensures
        run_events(
            Worker { source_url: url, phase: WorkerPhase::CheckingExistence },
            fetch_script(exists, send, body, write),
        ) == (Worker {
            source_url: url,
            phase: WorkerPhase::Done(fetch_outcome(url, exists, send, body, write)),
        }),
{
    let w0 = Worker { source_url: url, phase: WorkerPhase::CheckingExistence };
    let script = fetch_script(exists, send, body, write);
    if exists {
        assert(script =~= seq![WorkerEvent::Exists(true)] + Seq::<WorkerEvent>::empty());
        lemma_run_one(w0, WorkerEvent::Exists(true), Seq::empty());
    } else {
        let w1 = spec_worker_step(w0, WorkerEvent::Exists(false));
        let w2 = spec_worker_step(w1, WorkerEvent::PermitGranted);
        let w3 = spec_worker_step(w2, WorkerEvent::SendResult(send));
        let closing = seq![WorkerEvent::PermitReleased];
        if send matches Ok(status) && spec_is_success_status(status) {
            let w4 = spec_worker_step(w3, WorkerEvent::BodyResult(body));
            if body matches Ok(b) && b.len() > 0 {
                let w5 = spec_worker_step(w4, WorkerEvent::WriteResult(write));
                let tail1 = seq![
                    WorkerEvent::PermitGranted,
                    WorkerEvent::SendResult(send),
                    WorkerEvent::BodyResult(body),
                    WorkerEvent::WriteResult(write),
                    WorkerEvent::PermitReleased,
                ];
                let tail2 = tail1.drop_first();
                let tail3 = tail2.drop_first();
                let tail4 = tail3.drop_first();
                assert(script =~= seq![WorkerEvent::Exists(false)] + tail1);
                lemma_run_one(w0, WorkerEvent::Exists(false), tail1);
                assert(tail1 =~= seq![WorkerEvent::PermitGranted] + tail2);
                lemma_run_one(w1, WorkerEvent::PermitGranted, tail2);
                assert(tail2 =~= seq![WorkerEvent::SendResult(send)] + tail3);
                lemma_run_one(w2, WorkerEvent::SendResult(send), tail3);
                assert(tail3 =~= seq![WorkerEvent::BodyResult(body)] + tail4);
                lemma_run_one(w3, WorkerEvent::BodyResult(body), tail4);
                assert(tail4 =~= seq![WorkerEvent::WriteResult(write)] + closing);
                lemma_run_one(w4, WorkerEvent::WriteResult(write), closing);
                assert(closing =~= seq![WorkerEvent::PermitReleased]
                    + Seq::<WorkerEvent>::empty());
                lemma_run_one(w5, WorkerEvent::PermitReleased, Seq::empty());
            } else {
                let tail1 = seq![
                    WorkerEvent::PermitGranted,
                    WorkerEvent::SendResult(send),
                    WorkerEvent::BodyResult(body),
                    WorkerEvent::PermitReleased,
                ];
                let tail2 = tail1.drop_first();
                let tail3 = tail2.drop_first();
                assert(script =~= seq![WorkerEvent::Exists(false)] + tail1);
                lemma_run_one(w0, WorkerEvent::Exists(false), tail1);
                assert(tail1 =~= seq![WorkerEvent::PermitGranted] + tail2);
                lemma_run_one(w1, WorkerEvent::PermitGranted, tail2);
                assert(tail2 =~= seq![WorkerEvent::SendResult(send)] + tail3);
                lemma_run_one(w2, WorkerEvent::SendResult(send), tail3);
                assert(tail3 =~= seq![WorkerEvent::BodyResult(body)] + closing);
                lemma_run_one(w3, WorkerEvent::BodyResult(body), closing);
                assert(closing =~= seq![WorkerEvent::PermitReleased]
                    + Seq::<WorkerEvent>::empty());
                lemma_run_one(w4, WorkerEvent::PermitReleased, Seq::empty());
            }
        } else {
            let tail1 = seq![
                WorkerEvent::PermitGranted,
                WorkerEvent::SendResult(send),
                WorkerEvent::PermitReleased,
            ];
            let tail2 = tail1.drop_first();
            assert(script =~= seq![WorkerEvent::Exists(false)] + tail1);
            lemma_run_one(w0, WorkerEvent::Exists(false), tail1);
            assert(tail1 =~= seq![WorkerEvent::PermitGranted] + tail2);
            lemma_run_one(w1, WorkerEvent::PermitGranted, tail2);
            assert(tail2 =~= seq![WorkerEvent::SendResult(send)] + closing);
            lemma_run_one(w2, WorkerEvent::SendResult(send), closing);
            assert(closing =~= seq![WorkerEvent::PermitReleased] + Seq::<WorkerEvent>::empty());
            lemma_run_one(w3, WorkerEvent::PermitReleased, Seq::empty());
        }
    }
}

/// `Done` is reached only by skipping before any permit was taken, or
/// through the permit-releasing phase: no path finishes holding a slot.
pub proof fn lemma_no_exit_without_release(w: Worker, ev: WorkerEvent)
    ensures
        spec_worker_step(w, ev).phase is Done ==> {
            ||| w.phase is Done
            ||| w.phase is ReleasingPermit
            ||| (w.phase is CheckingExistence && ev == WorkerEvent::Exists(true))
        },
{
}

/// A fresh worker for one job's URL, about to make its existence check.
pub fn worker_new(source_url: String) -> (w: Worker)
    ensures
        w.source_url == source_url,
        w.phase is CheckingExistence,
{
    Worker { source_url, phase: WorkerPhase::CheckingExistence }
}

/// Advance the worker by one observed event. An event the current phase does
/// not expect leaves the worker unchanged.
pub fn worker_step(w: Worker, ev: WorkerEvent) -> (r: Worker)
    ensures
        r == spec_worker_step(w, ev),
{
    let Worker { source_url, phase } = w;
    let next = match (phase, ev) {
        (WorkerPhase::CheckingExistence, WorkerEvent::Exists(true)) => WorkerPhase::Done(
            DownloadOutcome::Skipped,
        ),
        (WorkerPhase::CheckingExistence, WorkerEvent::Exists(false)) => WorkerPhase::AwaitingPermit,
        (WorkerPhase::AwaitingPermit, WorkerEvent::PermitGranted) => WorkerPhase::Sending,
        (WorkerPhase::Sending, WorkerEvent::SendResult(Result::Ok(status))) => {
            if 200 <= status && status < 300 {
                WorkerPhase::ReadingBody
            } else {
                WorkerPhase::ReleasingPermit(
                    DownloadOutcome::Failed {
                        source_url: source_url.clone(),
                        reason: FailReason::HttpStatus(status),
                    },
                )
            }
        },
        (WorkerPhase::Sending, WorkerEvent::SendResult(Result::Err(m))) => {
            WorkerPhase::ReleasingPermit(
                DownloadOutcome::Failed {
                    source_url: source_url.clone(),
                    reason: FailReason::Transport(m),
                },
            )
        },
        (WorkerPhase::ReadingBody, WorkerEvent::BodyResult(Result::Ok(body))) => {
            if body.len() == 0 {
                WorkerPhase::ReleasingPermit(
                    DownloadOutcome::Failed {
                        source_url: source_url.clone(),
                        reason: FailReason::EmptyContent,
                    },
                )
            } else {
                WorkerPhase::Writing(body)
            }
        },
        (WorkerPhase::ReadingBody, WorkerEvent::BodyResult(Result::Err(m))) => {
            WorkerPhase::ReleasingPermit(
                DownloadOutcome::Failed {
                    source_url: source_url.clone(),
                    reason: FailReason::Transport(m),
                },
            )
        },
        (WorkerPhase::Writing(_), WorkerEvent::WriteResult(Result::Ok(_))) => {
            WorkerPhase::ReleasingPermit(DownloadOutcome::Succeeded)
        },
        (WorkerPhase::Writing(_), WorkerEvent::WriteResult(Result::Err(m))) => {
            WorkerPhase::ReleasingPermit(
                DownloadOutcome::Failed { source_url: source_url.clone(), reason: FailReason::Write(m) },
            )
        },
        (WorkerPhase::ReleasingPermit(outcome), WorkerEvent::PermitReleased) => WorkerPhase::Done(
            outcome,
        ),
        (other, _) => other,
    };
    Worker { source_url, phase: next }
}

} // verus!
