//! The coordinator's tally and phase machine.

use batch_fetch::batch::{
    batch_step, BatchEvent, BatchPhase, BatchProgress, Completion, FailedDownload,
};
use batch_fetch::worker::{DownloadOutcome, FailReason};

fn ok(url: &str, outcome: DownloadOutcome) -> Completion {
    Completion { source_url: url.to_string(), result: Ok(outcome) }
}

fn fault(url: &str, message: &str) -> Completion {
    Completion { source_url: url.to_string(), result: Err(message.to_string()) }
}

fn failed(url: &str, reason: FailReason) -> DownloadOutcome {
    DownloadOutcome::Failed { source_url: url.to_string(), reason }
}

#[test]
fn outcomes_are_conserved() {
    let mut p = BatchProgress::new(5);
    p.record(ok("u1", DownloadOutcome::Skipped));
    p.record(ok("u2", DownloadOutcome::Succeeded));
    p.record(ok("u3", failed("u3", FailReason::HttpStatus(500))));
    p.record(fault("u4", "task panicked"));
    p.record(ok("u5", DownloadOutcome::Succeeded));
    let r = p.finish();
    assert_eq!(r.total, 5);
    assert_eq!(r.succeeded_or_skipped, 3);
    assert_eq!(r.failed.len(), 2);
    assert_eq!(r.succeeded_or_skipped + r.failed.len(), r.total);
}

#[test]
fn failures_keep_completion_order_and_attribution() {
    let mut p = BatchProgress::new(3);
    p.record(fault("second-submitted", "worker died"));
    p.record(ok("first-submitted", failed("first-submitted", FailReason::EmptyContent)));
    p.record(ok("third", DownloadOutcome::Succeeded));
    let r = p.finish();
    let urls: Vec<&str> = r.failed.iter().map(|f| f.source_url.as_str()).collect();
    // completion order, not submission order
    assert_eq!(urls, vec!["second-submitted", "first-submitted"]);
    assert!(matches!(r.failed[0].reason, FailReason::TaskFault(_)));
    match &r.failed[0].reason {
        FailReason::TaskFault(m) => assert_eq!(m, "worker died"),
        _ => unreachable!(),
    }
}

#[test]
fn completions_beyond_total_change_nothing() {
    let mut p = BatchProgress::new(1);
    p.record(ok("u", DownloadOutcome::Succeeded));
    assert!(p.is_complete());
    p.record(ok("extra", DownloadOutcome::Succeeded));
    let r = p.finish();
    assert_eq!(r.total, 1);
    assert_eq!(r.succeeded_or_skipped, 1);
}

#[test]
fn directory_failure_aborts_before_dispatch() {
    let phase = batch_step(
        BatchPhase::Received,
        BatchEvent::DirectoryResult(Err("permission denied".to_string())),
    );
    match phase {
        BatchPhase::FatalAborted(m) => assert_eq!(m, "permission denied"),
        _ => panic!("expected a fatal abort"),
    }
}

#[test]
fn batch_drains_through_the_phases() {
    let mut phase = BatchPhase::Received;
    phase = batch_step(phase, BatchEvent::DirectoryResult(Ok(())));
    assert!(matches!(phase, BatchPhase::DirectoryEnsured));
    phase = batch_step(phase, BatchEvent::Dispatched(2));
    assert!(matches!(phase, BatchPhase::AwaitingCompletion(_)));
    phase = batch_step(phase, BatchEvent::JobCompleted(ok("a", DownloadOutcome::Succeeded)));
    assert!(matches!(phase, BatchPhase::AwaitingCompletion(_)));
    phase = batch_step(
        phase,
        BatchEvent::JobCompleted(ok("b", failed("b", FailReason::HttpStatus(404)))),
    );
    match &phase {
        BatchPhase::Reporting(res) => {
            assert_eq!(res.total, 2);
            assert_eq!(res.succeeded_or_skipped, 1);
            assert_eq!(res.failed.len(), 1);
            assert_eq!(res.failed[0].source_url, "b");
        }
        _ => panic!("expected the batch to be reporting"),
    }
    phase = batch_step(phase, BatchEvent::Reported);
    assert!(matches!(phase, BatchPhase::Done));
}

#[test]
fn empty_batch_reports_at_once() {
    let phase = batch_step(BatchPhase::DirectoryEnsured, BatchEvent::Dispatched(0));
    match phase {
        BatchPhase::Reporting(res) => {
            assert_eq!(res.total, 0);
            assert_eq!(res.succeeded_or_skipped, 0);
            assert!(res.failed.is_empty());
        }
        _ => panic!("expected an immediate report"),
    }
}

#[test]
fn unexpected_batch_event_changes_nothing() {
    let phase = batch_step(BatchPhase::Received, BatchEvent::Reported);
    assert!(matches!(phase, BatchPhase::Received));
    let phase = batch_step(BatchPhase::Done, BatchEvent::DirectoryResult(Ok(())));
    assert!(matches!(phase, BatchPhase::Done));
}

#[test]
fn failed_download_keeps_its_fields() {
    let f = FailedDownload {
        source_url: "u".to_string(),
        reason: FailReason::Transport("no route".to_string()),
    };
    assert_eq!(f.source_url, "u");
    assert!(matches!(f.reason, FailReason::Transport(_)));
}
