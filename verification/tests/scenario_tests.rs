//! Whole batches driven through the library against a simulated
//! environment: an in-memory destination directory and a scripted network.

use std::collections::HashMap;

use batch_fetch::batch::{batch_step, BatchEvent, BatchPhase, BatchResult, Completion};
use batch_fetch::gate::Gate;
use batch_fetch::job::make_jobs;
use batch_fetch::report::{completion_response, report_action, report_file_name, ReportAction};
use batch_fetch::worker::{worker_new, worker_step, DownloadOutcome, WorkerEvent, WorkerPhase};

/// What the scripted network answers for one URL.
#[derive(Clone)]
enum Reply {
    Unreachable(String),
    Response(u16, Vec<u8>),
}

/// The simulated collection directory: file name to contents, with the
/// report artifact stored under its fixed name like any other file.
type Dir = HashMap<String, Vec<u8>>;

/// Run one whole batch end to end: ensure the directory,
/// build the jobs, run one worker per job under an admission gate, fold completions,
/// then apply the report decision. Returns the aggregate, the outcome of
/// each job in submission order, and the completion response.
fn run_batch(
    title: &str,
    urls: &[&str],
    page_url: &str,
    net: &HashMap<String, Reply>,
    dir: &mut Dir,
) -> (BatchResult, Vec<DownloadOutcome>, String) {
    let mut gate = Gate::new(8);
    let mut phase = BatchPhase::Received;
    phase = batch_step(phase, BatchEvent::DirectoryResult(Ok(())));
    assert!(matches!(phase, BatchPhase::DirectoryEnsured));

    let url_strings: Vec<String> = urls.iter().map(|u| u.to_string()).collect();
    let jobs = make_jobs(&url_strings);
    phase = batch_step(phase, BatchEvent::Dispatched(jobs.len()));

    let mut outcomes = Vec::new();
    for job in &jobs {
        let mut w = worker_new(job.source_url.clone());
        w = worker_step(w, WorkerEvent::Exists(dir.contains_key(&job.file_name)));
        if matches!(w.phase, WorkerPhase::AwaitingPermit) {
            assert!(gate.try_acquire());
            assert!(gate.in_flight() <= gate.capacity());
            w = worker_step(w, WorkerEvent::PermitGranted);
            let reply = net
                .get(&job.source_url)
                .cloned()
                .unwrap_or(Reply::Unreachable("no such host".to_string()));
            w = match reply {
                Reply::Unreachable(m) => worker_step(w, WorkerEvent::SendResult(Err(m))),
                Reply::Response(status, body) => {
                    let mut w = worker_step(w, WorkerEvent::SendResult(Ok(status)));
                    if matches!(w.phase, WorkerPhase::ReadingBody) {
                        w = worker_step(w, WorkerEvent::BodyResult(Ok(body)));
                    }
                    w
                }
            };
            if let WorkerPhase::Writing(bytes) = &w.phase {
                dir.insert(job.file_name.clone(), bytes.clone());
                w = worker_step(w, WorkerEvent::WriteResult(Ok(())));
            }
            gate.release();
            w = worker_step(w, WorkerEvent::PermitReleased);
        }
        let outcome = match w.phase {
            WorkerPhase::Done(o) => o,
            _ => panic!("worker did not reach a terminal phase"),
        };
        outcomes.push(outcome.clone());
        phase = batch_step(
            phase,
            BatchEvent::JobCompleted(Completion {
                source_url: job.source_url.clone(),
                result: Ok(outcome),
            }),
        );
    }

    let result = match &phase {
        BatchPhase::Reporting(res) => res.clone(),
        _ => panic!("batch did not reach the reporting phase"),
    };
    match report_action(page_url, title, &result.failed) {
        ReportAction::Persist(content) => {
            dir.insert(report_file_name().to_string(), content.into_bytes());
        }
        ReportAction::RemoveStale => {
            dir.remove(report_file_name());
        }
    }
    phase = batch_step(phase, BatchEvent::Reported);
    assert!(matches!(phase, BatchPhase::Done));
    (result, outcomes, completion_response(title))
}

#[test]
fn mixed_batch_writes_files_and_reports_the_failure() {
    let mut net = HashMap::new();
    net.insert("ok1".to_string(), Reply::Response(200, vec![1, 1]));
    net.insert("bad".to_string(), Reply::Response(404, Vec::new()));
    net.insert("ok2".to_string(), Reply::Response(200, vec![2, 2]));
    let mut dir = Dir::new();

    let (result, _, response) =
        run_batch("x", &["ok1", "bad", "ok2"], "http://ref", &net, &mut dir);

    assert_eq!(result.total, 3);
    assert_eq!(result.succeeded_or_skipped, 2);
    assert_eq!(result.failed.len(), 1);
    assert_eq!(result.failed[0].source_url, "bad");

    assert_eq!(dir.get("0001.jpg"), Some(&vec![1, 1]));
    assert!(!dir.contains_key("0002.jpg"));
    assert_eq!(dir.get("0003.jpg"), Some(&vec![2, 2]));

    let report = String::from_utf8(dir.get("failed_downloads.html").unwrap().clone()).unwrap();
    assert_eq!(
        report,
        "<html><body><h1><a href=\"http://ref\">x</a></h1><ul>\
         <li><a href=\"bad\">bad</a></li></ul></body></html>"
    );
    assert_eq!(response, "x\n已完成！");
}

#[test]
fn empty_batch_leaves_nothing_but_still_responds() {
    let net = HashMap::new();
    let mut dir = Dir::new();
    let (result, outcomes, response) = run_batch("x", &[], "http://ref", &net, &mut dir);
    assert_eq!(result.total, 0);
    assert!(outcomes.is_empty());
    assert!(dir.is_empty());
    assert_eq!(response, "x\n已完成！");
}

#[test]
fn clean_batch_removes_a_stale_report() {
    let mut net = HashMap::new();
    net.insert("ok".to_string(), Reply::Response(200, vec![5]));
    let mut dir = Dir::new();
    dir.insert(
        report_file_name().to_string(),
        b"stale report from an earlier failing run".to_vec(),
    );

    let (result, _, _) = run_batch("x", &["ok"], "http://ref", &net, &mut dir);
    assert_eq!(result.failed.len(), 0);
    assert!(!dir.contains_key(report_file_name()));
    assert!(dir.contains_key("0001.jpg"));
}

#[test]
fn resubmission_is_idempotent_even_with_the_source_unreachable() {
    let mut net = HashMap::new();
    net.insert("a".to_string(), Reply::Response(200, vec![10, 20]));
    net.insert("b".to_string(), Reply::Response(200, vec![30]));
    let mut dir = Dir::new();

    let (first, _, _) = run_batch("x", &["a", "b"], "http://ref", &net, &mut dir);
    assert_eq!(first.succeeded_or_skipped, 2);
    let snapshot = dir.clone();

    let mut dead_net = HashMap::new();
    dead_net.insert("a".to_string(), Reply::Unreachable("host down".to_string()));
    dead_net.insert("b".to_string(), Reply::Unreachable("host down".to_string()));

    let (second, outcomes, _) = run_batch("x", &["a", "b"], "http://ref", &dead_net, &mut dir);
    assert_eq!(second.succeeded_or_skipped, 2);
    assert!(second.failed.is_empty());
    assert!(outcomes.iter().all(|o| matches!(o, DownloadOutcome::Skipped)));
    // byte-identical to the first run's output
    assert_eq!(dir, snapshot);
}
