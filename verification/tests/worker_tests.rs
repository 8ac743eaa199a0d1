//! The fetch worker's state machine, one observation at a time.

use batch_fetch::worker::{
    worker_new, worker_step, DownloadOutcome, FailReason, Worker, WorkerEvent, WorkerPhase,
};

fn run(url: &str, events: Vec<WorkerEvent>) -> Worker {
    let mut w = worker_new(url.to_string());
    for ev in events {
        w = worker_step(w, ev);
    }
    w
}

#[test]
fn existing_destination_is_skipped_without_a_permit() {
    let w = run("http://img/1", vec![WorkerEvent::Exists(true)]);
    assert!(matches!(w.phase, WorkerPhase::Done(DownloadOutcome::Skipped)));
}

#[test]
fn successful_fetch_writes_and_succeeds() {
    let w = run(
        "http://img/1",
        vec![
            WorkerEvent::Exists(false),
            WorkerEvent::PermitGranted,
            WorkerEvent::SendResult(Ok(200)),
            WorkerEvent::BodyResult(Ok(vec![7, 7, 7])),
            WorkerEvent::WriteResult(Ok(())),
            WorkerEvent::PermitReleased,
        ],
    );
    assert!(matches!(w.phase, WorkerPhase::Done(DownloadOutcome::Succeeded)));
}

#[test]
fn body_bytes_are_handed_on_to_the_write() {
    let w = run(
        "http://img/1",
        vec![
            WorkerEvent::Exists(false),
            WorkerEvent::PermitGranted,
            WorkerEvent::SendResult(Ok(204)),
            WorkerEvent::BodyResult(Ok(vec![1, 2, 3])),
        ],
    );
    match w.phase {
        WorkerPhase::Writing(bytes) => assert_eq!(bytes, vec![1, 2, 3]),
        _ => panic!("expected the worker to be writing"),
    }
}

#[test]
fn non_success_status_fails_with_the_code() {
    let w = run(
        "http://img/bad",
        vec![
            WorkerEvent::Exists(false),
            WorkerEvent::PermitGranted,
            WorkerEvent::SendResult(Ok(404)),
            WorkerEvent::PermitReleased,
        ],
    );
    match w.phase {
        WorkerPhase::Done(DownloadOutcome::Failed { source_url, reason }) => {
            assert_eq!(source_url, "http://img/bad");
            assert!(matches!(reason, FailReason::HttpStatus(404)));
        }
        _ => panic!("expected a failed outcome"),
    }
}

#[test]
fn transport_error_fails_with_the_message() {
    let w = run(
        "http://img/x",
        vec![
            WorkerEvent::Exists(false),
            WorkerEvent::PermitGranted,
            WorkerEvent::SendResult(Err("connection refused".to_string())),
            WorkerEvent::PermitReleased,
        ],
    );
    match w.phase {
        WorkerPhase::Done(DownloadOutcome::Failed { reason, .. }) => match reason {
            FailReason::Transport(m) => assert_eq!(m, "connection refused"),
            _ => panic!("expected a transport reason"),
        },
        _ => panic!("expected a failed outcome"),
    }
}

#[test]
fn body_read_error_fails_as_transport() {
    let w = run(
        "http://img/x",
        vec![
            WorkerEvent::Exists(false),
            WorkerEvent::PermitGranted,
            WorkerEvent::SendResult(Ok(200)),
            WorkerEvent::BodyResult(Err("read timed out".to_string())),
            WorkerEvent::PermitReleased,
        ],
    );
    match w.phase {
        WorkerPhase::Done(DownloadOutcome::Failed { reason, .. }) => {
            assert!(matches!(reason, FailReason::Transport(_)));
        }
        _ => panic!("expected a failed outcome"),
    }
}

#[test]
fn empty_body_fails_even_on_success_status() {
    let w = run(
        "http://img/empty",
        vec![
            WorkerEvent::Exists(false),
            WorkerEvent::PermitGranted,
            WorkerEvent::SendResult(Ok(200)),
            WorkerEvent::BodyResult(Ok(Vec::new())),
            WorkerEvent::PermitReleased,
        ],
    );
    match w.phase {
        WorkerPhase::Done(DownloadOutcome::Failed { reason, .. }) => {
            assert!(matches!(reason, FailReason::EmptyContent));
        }
        _ => panic!("expected a failed outcome"),
    }
}

#[test]
fn write_error_fails_with_the_disk_message() {
    let w = run(
        "http://img/x",
        vec![
            WorkerEvent::Exists(false),
            WorkerEvent::PermitGranted,
            WorkerEvent::SendResult(Ok(200)),
            WorkerEvent::BodyResult(Ok(vec![9])),
            WorkerEvent::WriteResult(Err("disk full".to_string())),
            WorkerEvent::PermitReleased,
        ],
    );
    match w.phase {
        WorkerPhase::Done(DownloadOutcome::Failed { reason, .. }) => match reason {
            FailReason::Write(m) => assert_eq!(m, "disk full"),
            _ => panic!("expected a write reason"),
        },
        _ => panic!("expected a failed outcome"),
    }
}

#[test]
fn unexpected_event_leaves_the_worker_in_place() {
    let w = run("http://img/x", vec![WorkerEvent::PermitGranted]);
    assert!(matches!(w.phase, WorkerPhase::CheckingExistence));
    let w = run(
        "http://img/x",
        vec![WorkerEvent::Exists(true), WorkerEvent::Exists(false)],
    );
    // Done is terminal: the stray event changes nothing
    assert!(matches!(w.phase, WorkerPhase::Done(DownloadOutcome::Skipped)));
}
