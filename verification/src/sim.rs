//! A model of running a batch against its environment: the filesystem is a
//! map from destination path to contents, and the environment says which
//! fetches deliver a non-empty payload and which writes succeed. One job runs
//! as the worker does — an existing destination is skipped untouched, a
//! failed fetch or write leaves no file, a successful fetch writes the
//! payload — and a batch folds its jobs in order. On this model resubmission
//! is proved idempotent: a second run against an unreachable network changes
//! no file, and every job that had finished is skipped, not re-fetched.

use vstd::prelude::*;

verus! {

/// Terminal classification of one modeled job run. A modeled job is the pair
/// of a job's source URL and its destination path, as `DownloadJob` views
/// them.
pub enum RunOutcome {
    Skipped,
    Succeeded,
    Failed,
}

/// The outcome of one job against filesystem `fs`: an existing destination
/// is authoritative and skipped; otherwise the job succeeds exactly when the
/// fetch delivers and the write goes through.
pub open spec fn spec_job_outcome(
    fs: Map<Seq<char>, Seq<u8>>,
    job: (Seq<char>, Seq<char>),
    net_ok: spec_fn(Seq<char>) -> bool,
    disk_ok: spec_fn(Seq<char>) -> bool,
) -> RunOutcome {
    if fs.dom().contains(job.1) {
        RunOutcome::Skipped
    } else if !net_ok(job.0) {
        RunOutcome::Failed
    } else if !disk_ok(job.1) {
        RunOutcome::Failed
    } else {
        RunOutcome::Succeeded
    }
}

/// The filesystem after one job: only a successful job writes, and only to
/// a destination that did not exist.
pub open spec fn spec_job_fs(
    fs: Map<Seq<char>, Seq<u8>>,
    job: (Seq<char>, Seq<char>),
    net_ok: spec_fn(Seq<char>) -> bool,
    net_body: spec_fn(Seq<char>) -> Seq<u8>,
    disk_ok: spec_fn(Seq<char>) -> bool,
) -> Map<Seq<char>, Seq<u8>> {
    if spec_job_outcome(fs, job, net_ok, disk_ok) is Succeeded {
        fs.insert(job.1, net_body(job.0))
    } else {
        fs
    }
}

/// The filesystem after a whole batch, jobs folded in order.
pub open spec fn spec_run_fs(
    fs: Map<Seq<char>, Seq<u8>>,
    jobs: Seq<(Seq<char>, Seq<char>)>,
    net_ok: spec_fn(Seq<char>) -> bool,
    net_body: spec_fn(Seq<char>) -> Seq<u8>,
    disk_ok: spec_fn(Seq<char>) -> bool,
) -> Map<Seq<char>, Seq<u8>>
    decreases jobs.len(),
{
    if jobs.len() == 0 {
        fs
    } else {
        spec_run_fs(
            spec_job_fs(fs, jobs[0], net_ok, net_body, disk_ok),
            jobs.drop_first(),
            net_ok,
            net_body,
            disk_ok,
        )
    }
}

/// The outcome of each job of a whole batch, in job order.
pub open spec fn spec_run_outcomes(
    fs: Map<Seq<char>, Seq<u8>>,
    jobs: Seq<(Seq<char>, Seq<char>)>,
    net_ok: spec_fn(Seq<char>) -> bool,
    net_body: spec_fn(Seq<char>) -> Seq<u8>,
    disk_ok: spec_fn(Seq<char>) -> bool,
) -> Seq<RunOutcome>
    decreases jobs.len(),
{
    if jobs.len() == 0 {
        Seq::empty()
    } else {
        seq![spec_job_outcome(fs, jobs[0], net_ok, disk_ok)] + spec_run_outcomes(
            spec_job_fs(fs, jobs[0], net_ok, net_body, disk_ok),
            jobs.drop_first(),
            net_ok,
            net_body,
            disk_ok,
        )
    }
}

/// A run reports exactly one outcome per job.
pub proof fn lemma_run_outcomes_len(
    fs: Map<Seq<char>, Seq<u8>>,
    jobs: Seq<(Seq<char>, Seq<char>)>,
    net_ok: spec_fn(Seq<char>) -> bool,
    net_body: spec_fn(Seq<char>) -> Seq<u8>,
    disk_ok: spec_fn(Seq<char>) -> bool,
)
    ensures
        spec_run_outcomes(fs, jobs, net_ok, net_body, disk_ok).len() == jobs.len(),
    decreases jobs.len(),
{
    if jobs.len() > 0 {
        let fs1 = spec_job_fs(fs, jobs[0], net_ok, net_body, disk_ok);
        lemma_run_outcomes_len(fs1, jobs.drop_first(), net_ok, net_body, disk_ok);
    }
}

/// A run never removes or rewrites a file: whatever stood in the filesystem
/// before the batch stands there unchanged, byte for byte, after it.
pub proof fn lemma_run_preserves_files(
    fs: Map<Seq<char>, Seq<u8>>,
    jobs: Seq<(Seq<char>, Seq<char>)>,
    net_ok: spec_fn(Seq<char>) -> bool,
    net_body: spec_fn(Seq<char>) -> Seq<u8>,
    disk_ok: spec_fn(Seq<char>) -> bool,
)
    ensures
        forall|p: Seq<char>|
            fs.dom().contains(p) ==> {
                &&& #[trigger] spec_run_fs(fs, jobs, net_ok, net_body, disk_ok).dom().contains(p)
                &&& spec_run_fs(fs, jobs, net_ok, net_body, disk_ok)[p] == fs[p]
            },
    decreases jobs.len(),
{
    if jobs.len() > 0 {
        let fs1 = spec_job_fs(fs, jobs[0], net_ok, net_body, disk_ok);
        lemma_run_preserves_files(fs1, jobs.drop_first(), net_ok, net_body, disk_ok);
        assert(spec_run_fs(fs, jobs, net_ok, net_body, disk_ok) == spec_run_fs(
            fs1,
            jobs.drop_first(),
            net_ok,
            net_body,
            disk_ok,
        ));
        assert forall|p: Seq<char>| fs.dom().contains(p) implies {
            &&& #[trigger] spec_run_fs(fs, jobs, net_ok, net_body, disk_ok).dom().contains(p)
            &&& spec_run_fs(fs, jobs, net_ok, net_body, disk_ok)[p] == fs[p]
        } by {
            assert(fs1.dom().contains(p));
            assert(fs1[p] == fs[p]);
            assert(spec_run_fs(fs1, jobs.drop_first(), net_ok, net_body, disk_ok).dom().contains(
                p,
            ));
        }
    }
}

/// A job that finished — skipped or succeeded — has its destination present
/// in the filesystem the batch leaves behind.
pub proof fn lemma_finished_file_present(
    fs: Map<Seq<char>, Seq<u8>>,
    jobs: Seq<(Seq<char>, Seq<char>)>,
    net_ok: spec_fn(Seq<char>) -> bool,
    net_body: spec_fn(Seq<char>) -> Seq<u8>,
    disk_ok: spec_fn(Seq<char>) -> bool,
    k: int,
)
    requires
        0 <= k < jobs.len(),
        !(spec_run_outcomes(fs, jobs, net_ok, net_body, disk_ok)[k] is Failed),
    ensures
        spec_run_fs(fs, jobs, net_ok, net_body, disk_ok).dom().contains(jobs[k].1),
    decreases jobs.len(),
{
    let fs1 = spec_job_fs(fs, jobs[0], net_ok, net_body, disk_ok);
    assert(spec_run_fs(fs, jobs, net_ok, net_body, disk_ok) == spec_run_fs(
        fs1,
        jobs.drop_first(),
        net_ok,
        net_body,
        disk_ok,
    ));
    if k == 0 {
        let head = seq![spec_job_outcome(fs, jobs[0], net_ok, disk_ok)];
        let rest = spec_run_outcomes(fs1, jobs.drop_first(), net_ok, net_body, disk_ok);
        assert(spec_run_outcomes(fs, jobs, net_ok, net_body, disk_ok) == head + rest);
        assert((head + rest)[0] == head[0]);
        assert(!(spec_job_outcome(fs, jobs[0], net_ok, disk_ok) is Failed));
        assert(fs1.dom().contains(jobs[0].1));
        lemma_run_preserves_files(fs1, jobs.drop_first(), net_ok, net_body, disk_ok);
        assert(spec_run_fs(fs1, jobs.drop_first(), net_ok, net_body, disk_ok).dom().contains(
            jobs[0].1,
        ));
    } else {
        let head = seq![spec_job_outcome(fs, jobs[0], net_ok, disk_ok)];
        let rest = spec_run_outcomes(fs1, jobs.drop_first(), net_ok, net_body, disk_ok);
        assert(spec_run_outcomes(fs, jobs, net_ok, net_body, disk_ok) == head + rest);
        assert(head.len() == 1);
        lemma_run_outcomes_len(fs1, jobs.drop_first(), net_ok, net_body, disk_ok);
        assert((head + rest)[k] == rest[k - 1]);
        lemma_finished_file_present(fs1, jobs.drop_first(), net_ok, net_body, disk_ok, k - 1);
        assert(jobs.drop_first()[k - 1] == jobs[k]);
    }
}

/// Against an unreachable network no run writes anything: the filesystem
/// comes back unchanged, and each job is skipped exactly when its
/// destination already existed, failed otherwise.
pub proof fn lemma_unreachable_run_writes_nothing(
    fs: Map<Seq<char>, Seq<u8>>,
    jobs: Seq<(Seq<char>, Seq<char>)>,
    net_ok: spec_fn(Seq<char>) -> bool,
    net_body: spec_fn(Seq<char>) -> Seq<u8>,
    disk_ok: spec_fn(Seq<char>) -> bool,
)
    requires
        forall|u: Seq<char>| !(#[trigger] net_ok(u)),
    ensures
        spec_run_fs(fs, jobs, net_ok, net_body, disk_ok) == fs,
        forall|k: int|
            0 <= k < jobs.len() ==> #[trigger] spec_run_outcomes(
                fs,
                jobs,
                net_ok,
                net_body,
                disk_ok,
            )[k] == (if fs.dom().contains(jobs[k].1) {
                RunOutcome::Skipped
            } else {
                RunOutcome::Failed
            }),
    decreases jobs.len(),
{
    if jobs.len() > 0 {
        let fs1 = spec_job_fs(fs, jobs[0], net_ok, net_body, disk_ok);
        assert(fs1 == fs);
        lemma_unreachable_run_writes_nothing(fs, jobs.drop_first(), net_ok, net_body, disk_ok);
        assert forall|k: int| 0 <= k < jobs.len() implies #[trigger] spec_run_outcomes(
            fs,
            jobs,
            net_ok,
            net_body,
            disk_ok,
        )[k] == (if fs.dom().contains(jobs[k].1) {
            RunOutcome::Skipped
        } else {
            RunOutcome::Failed
        }) by {
            let head = seq![spec_job_outcome(fs, jobs[0], net_ok, disk_ok)];
            let rest = spec_run_outcomes(fs1, jobs.drop_first(), net_ok, net_body, disk_ok);
            assert(spec_run_outcomes(fs, jobs, net_ok, net_body, disk_ok) == head + rest);
            assert(head.len() == 1);
            lemma_run_outcomes_len(fs1, jobs.drop_first(), net_ok, net_body, disk_ok);
            if k > 0 {
                assert((head + rest)[k] == rest[k - 1]);
                assert(jobs.drop_first()[k - 1] == jobs[k]);
            }
        }
    }
}

/// Idempotence of resubmission. Run a batch once; then run the same batch
/// again while every fetch fails (the source unreachable). The second run
/// changes no file — every destination is byte-identical to what the first
/// run left — and every job that had finished in the first run, succeeded or
/// skipped, is reported `Skipped` by the second run: nothing is re-fetched
/// and nothing is overwritten.
pub proof fn lemma_resubmission_idempotent(
    fs0: Map<Seq<char>, Seq<u8>>,
    jobs: Seq<(Seq<char>, Seq<char>)>,
    net_ok: spec_fn(Seq<char>) -> bool,
    net_body: spec_fn(Seq<char>) -> Seq<u8>,
    disk_ok: spec_fn(Seq<char>) -> bool,
    net_ok2: spec_fn(Seq<char>) -> bool,
    net_body2: spec_fn(Seq<char>) -> Seq<u8>,
    disk_ok2: spec_fn(Seq<char>) -> bool,
)
    requires
        forall|u: Seq<char>| !(#[trigger] net_ok2(u)),
    ensures
        spec_run_fs(
            spec_run_fs(fs0, jobs, net_ok, net_body, disk_ok),
            jobs,
            net_ok2,
            net_body2,
            disk_ok2,
        ) == spec_run_fs(fs0, jobs, net_ok, net_body, disk_ok),
        forall|k: int|
            0 <= k < jobs.len() && !(#[trigger] spec_run_outcomes(
                fs0,
                jobs,
                net_ok,
                net_body,
                disk_ok,
            )[k] is Failed) ==> spec_run_outcomes(
                spec_run_fs(fs0, jobs, net_ok, net_body, disk_ok),
                jobs,
                net_ok2,
                net_body2,
                disk_ok2,
            )[k] is Skipped,
{
    let fs1 = spec_run_fs(fs0, jobs, net_ok, net_body, disk_ok);
    lemma_unreachable_run_writes_nothing(fs1, jobs, net_ok2, net_body2, disk_ok2);
    assert forall|k: int|
        0 <= k < jobs.len() && !(#[trigger] spec_run_outcomes(
            fs0,
            jobs,
            net_ok,
            net_body,
            disk_ok,
        )[k] is Failed) implies spec_run_outcomes(fs1, jobs, net_ok2, net_body2, disk_ok2)[k]
        is Skipped by {
        lemma_finished_file_present(fs0, jobs, net_ok, net_body, disk_ok, k);
    }
}

} // verus!
