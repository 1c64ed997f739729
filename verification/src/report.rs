//! The account of a batch of jobs: which of them failed, and how.

use vstd::prelude::*;
use crate::download::{DownloadJob, FailureKind, JobStatus, JobView};

verus! {

/// One failed job: its place in the batch, its artifact, and the kind of failure.
#[derive(Debug)]
pub struct JobFailure {
    pub position: usize,
    pub mod_id: String,
    pub kind: FailureKind,
}

/// The mathematical value of a [`JobFailure`].
pub ghost struct JobFailureView {
    pub position: int,
    pub mod_id: Seq<char>,
    pub kind: FailureKind,
}

impl View for JobFailure {
    type V = JobFailureView;

    open spec fn view(&self) -> JobFailureView {
        JobFailureView { position: self.position as int, mod_id: self.mod_id@, kind: self.kind }
    }
}

/// The failure of a batch: how many jobs it had, and those that failed, in
/// the order of the batch.
#[derive(Debug)]
pub struct DownloadError {
    pub total: usize,
    pub failures: Vec<JobFailure>,
}

/// The mathematical value of a [`DownloadError`].
pub ghost struct DownloadErrorView {
    pub total: int,
    pub failures: Seq<JobFailureView>,
}

impl View for DownloadError {
    type V = DownloadErrorView;

    open spec fn view(&self) -> DownloadErrorView {
        DownloadErrorView {
            total: self.total as int,
            failures: Seq::new(self.failures@.len(), |i: int| self.failures@[i]@),
        }
    }
}

/// The views of a sequence of jobs.
pub open spec fn job_views(jobs: Seq<DownloadJob>) -> Seq<JobView> {
    Seq::new(jobs.len(), |i: int| jobs[i]@)
}

/// The failures among the first `n` jobs, in the order of the jobs.
pub open spec fn failures_among(jobs: Seq<JobView>, n: int) -> Seq<JobFailureView>
    decreases n,
{
    if n <= 0 {
        Seq::empty()
    } else {
        let earlier = failures_among(jobs, n - 1);
        match jobs[n - 1].status {
            JobStatus::Failed(kind) => earlier.push(
                JobFailureView { position: n - 1, mod_id: jobs[n - 1].mod_id, kind },
            ),
            _ => earlier,
        }
    }
}

/// The failures of a whole batch.
pub open spec fn failures_of(jobs: Seq<JobView>) -> Seq<JobFailureView> {
    failures_among(jobs, jobs.len() as int)
}

/// The account lists the jobs that failed and no others, each with its own
/// identifier and kind, each once and in the order of the batch.
pub proof fn failures_are_exact(jobs: Seq<JobView>, n: int)
    requires
        0 <= n <= jobs.len(),
    ensures
        forall|f: JobFailureView| #[trigger]
            failures_among(jobs, n).contains(f) <==> 0 <= f.position < n && jobs[f.position].status
                == JobStatus::Failed(f.kind) && jobs[f.position].mod_id == f.mod_id,
        forall|a: int, b: int|
            0 <= a < b < failures_among(jobs, n).len() ==> failures_among(jobs, n)[a].position
                < failures_among(jobs, n)[b].position,
        failures_among(jobs, n).len() <= n,
        failures_among(jobs, n).len() == 0 <==> forall|i: int|
            0 <= i < n ==> !((#[trigger] jobs[i]).status is Failed),
    decreases n,
{
    if n > 0 {
        failures_are_exact(jobs, n - 1);
        let earlier = failures_among(jobs, n - 1);
        let all = failures_among(jobs, n);
        match jobs[n - 1].status {
            JobStatus::Failed(kind) => {
                let last = JobFailureView { position: n - 1, mod_id: jobs[n - 1].mod_id, kind };
                assert(all == earlier.push(last));
                assert(all[earlier.len() as int] == last);
                assert forall|f: JobFailureView| #[trigger] all.contains(f) <==> 0 <= f.position < n
                    && jobs[f.position].status == JobStatus::Failed(f.kind) && jobs[f.position].mod_id
                    == f.mod_id by {
                    if all.contains(f) {
                        let i = choose|i: int| 0 <= i < all.len() && all[i] == f;
                        if i < earlier.len() {
                            assert(earlier[i] == f);
                            assert(earlier.contains(f));
                        }
                    }
                    if 0 <= f.position < n && jobs[f.position].status == JobStatus::Failed(f.kind)
                        && jobs[f.position].mod_id == f.mod_id {
                        if f.position < n - 1 {
                            assert(earlier.contains(f));
                            let i = choose|i: int| 0 <= i < earlier.len() && earlier[i] == f;
                            assert(all[i] == f);
                        } else {
                            assert(f == last);
                        }
                    }
                }
                assert forall|a: int, b: int| 0 <= a < b < all.len() implies all[a].position
                    < all[b].position by {
                    assert(earlier.contains(earlier[a]));
                    if b < earlier.len() {
                        assert(all[a] == earlier[a] && all[b] == earlier[b]);
                    }
                }
                assert(jobs[n - 1].status is Failed);
            },
            _ => {},
        }
    }
}

/// The result of a batch whose jobs have all ended: success where no job
/// failed, else the account of those that did.
pub fn aggregate(jobs: &Vec<DownloadJob>) -> (r: Result<(), DownloadError>)
    ensures
        match r {
            Ok(_) => failures_of(job_views(jobs@)).len() == 0,
            Err(e) => e@.failures.len() > 0 && e@ == (DownloadErrorView {
                total: jobs@.len() as int,
                failures: failures_of(job_views(jobs@)),
            }),
        },
{
    let mut failures: Vec<JobFailure> = Vec::new();
    let mut i: usize = 0;
    while i < jobs.len()
        invariant
            i <= jobs.len(),
            Seq::new(failures@.len(), |k: int| failures@[k]@) == failures_among(
                job_views(jobs@),
                i as int,
            ),
        decreases jobs.len() - i,
    {
        let ghost before = Seq::new(failures@.len(), |k: int| failures@[k]@);
        match jobs[i].status {
            JobStatus::Failed(kind) => {
                let failure = JobFailure { position: i, mod_id: jobs[i].mod_id.clone(), kind };
                failures.push(failure);
                assert(Seq::new(failures@.len(), |k: int| failures@[k]@) =~= before.push(
                    failure@,
                ));
            },
            _ => {},
        }
        i += 1;
    }
    if failures.len() == 0 {
        Ok(())
    } else {
        Err(DownloadError { total: jobs.len(), failures })
    }
}

} // verus!
