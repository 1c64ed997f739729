//! A whole batch of downloads, run over what the transport served for each
//! job.

use vstd::prelude::*;
use crate::record::ModRecord;
use crate::download::{
    DownloadJob, FailureKind, JobStatus, JobView, FALLBACK_SIZE, advanced, begun, finished,
    given_up, percent_of, planned,
};
use crate::report::{DownloadError, DownloadErrorView, aggregate, failures_of, job_views};

verus! {

/// How a response body ended.
#[derive(Clone, Copy, PartialEq, Eq, Debug)]
pub enum StreamEnd {
    /// The stream ended, and every chunk was written.
    Complete,
    /// The network or the file system failed after the chunks before it.
    Broken(FailureKind),
}

/// What the transport served for one job: the content length, if the
/// response had one, the sizes of the chunks in the order of their arrival,
/// and how the stream ended.
#[derive(Debug)]
pub struct Transfer {
    pub content_length: Option<u64>,
    pub chunks: Vec<u64>,
    pub end: StreamEnd,
}

/// The job after the first `n` of the chunks are written.
pub open spec fn advanced_by(job: JobView, chunks: Seq<u64>, n: int) -> JobView
    decreases n,
{
    if n <= 0 {
        job
    } else {
        advanced(advanced_by(job, chunks, n - 1), chunks[n - 1])
    }
}

/// The job after its stream has ended in the given way.
pub open spec fn ended(job: JobView, end: StreamEnd) -> JobView {
    match end {
        StreamEnd::Complete => finished(job),
        StreamEnd::Broken(kind) => given_up(job, kind),
    }
}

/// The job after the whole of a transfer.
pub open spec fn transferred(job: JobView, transfer: Transfer) -> JobView {
    ended(
        advanced_by(
            begun(job, transfer.content_length),
            transfer.chunks@,
            transfer.chunks@.len() as int,
        ),
        transfer.end,
    )
}

/// The end of the job at place `i`: its record's job after its transfer, or
/// a transport failure where the transport served nothing for it.
pub open spec fn outcome_at(
    records: Seq<ModRecord>,
    target_dir: Seq<char>,
    transfers: Seq<Transfer>,
    i: int,
) -> JobView {
    if i < transfers.len() {
        transferred(planned(records[i]@, target_dir), transfers[i])
    } else {
        given_up(planned(records[i]@, target_dir), FailureKind::Transport)
    }
}

/// Writing chunks leaves a streaming job streaming, and changes nothing of
/// it but the count of bytes written.
pub proof fn lemma_advanced_by_streams(job: JobView, chunks: Seq<u64>, n: int)
    requires
        job.status == JobStatus::Streaming,
    ensures
        advanced_by(job, chunks, n) == (JobView {
            bytes_written: advanced_by(job, chunks, n).bytes_written,
            ..job
        }),
    decreases n,
{
    if n > 0 {
        lemma_advanced_by_streams(job, chunks, n - 1);
    }
}

/// The sizes of the first `n` chunks, summed up.
pub open spec fn size_of(chunks: Seq<u64>, n: int) -> int
    decreases n,
{
    if n <= 0 {
        0
    } else {
        size_of(chunks, n - 1) + chunks[n - 1]
    }
}

/// A streaming job has written what it had written before and the sizes of
/// all the chunks since, held at the largest count there is.
pub proof fn written_is_the_sum(job: JobView, chunks: Seq<u64>, n: int)
    requires
        job.status == JobStatus::Streaming,
        0 <= n <= chunks.len(),
    ensures
        size_of(chunks, n) >= 0,
        advanced_by(job, chunks, n).bytes_written == if job.bytes_written + size_of(chunks, n)
            > u64::MAX {
            u64::MAX as int
        } else {
            job.bytes_written + size_of(chunks, n)
        },
    decreases n,
{
    if n > 0 {
        written_is_the_sum(job, chunks, n - 1);
        lemma_advanced_by_streams(job, chunks, n - 1);
    }
}

/// A waiting job that is taken through a transfer ends done where the stream
/// was complete and failed where it broke, expects what the response
/// reported or the fallback size, and has written the sum of the chunks.
pub proof fn transfer_of_a_waiting_job(job: JobView, transfer: Transfer)
    requires
        job.status == JobStatus::Waiting,
        job.bytes_written == 0,
    ensures
        transferred(job, transfer).status == match transfer.end {
            StreamEnd::Complete => JobStatus::Done,
            StreamEnd::Broken(kind) => JobStatus::Failed(kind),
        },
        transferred(job, transfer).expected_size == match transfer.content_length {
            Some(n) => n,
            None => FALLBACK_SIZE,
        },
        transferred(job, transfer).bytes_written == if size_of(
            transfer.chunks@,
            transfer.chunks@.len() as int,
        ) > u64::MAX {
            u64::MAX as int
        } else {
            size_of(transfer.chunks@, transfer.chunks@.len() as int)
        },
        transferred(job, transfer).mod_id == job.mod_id,
        transferred(job, transfer).file_name == job.file_name,
        transferred(job, transfer).target_dir == job.target_dir,
{
    let start = begun(job, transfer.content_length);
    written_is_the_sum(start, transfer.chunks@, transfer.chunks@.len() as int);
    lemma_advanced_by_streams(start, transfer.chunks@, transfer.chunks@.len() as int);
}

/// A job whose response reports no length expects the fallback size, and
/// still is done, with its progress all the way, once its stream has ended,
/// whatever the chunks summed up to.
pub proof fn fallback_job_completes(job: JobView, chunks: Seq<u64>)
    requires
        job.status == JobStatus::Waiting,
    ensures
        begun(job, None).expected_size == FALLBACK_SIZE,
        advanced_by(begun(job, None), chunks, chunks.len() as int).expected_size == FALLBACK_SIZE,
        finished(advanced_by(begun(job, None), chunks, chunks.len() as int)).status
            == JobStatus::Done,
        percent_of(finished(advanced_by(begun(job, None), chunks, chunks.len() as int))) == 100,
{
    lemma_advanced_by_streams(begun(job, None), chunks, chunks.len() as int);
}

impl DownloadJob {
    /// Takes the job through a whole transfer: the response, each chunk in
    /// turn, and the end of the stream.
    pub fn run(&mut self, transfer: &Transfer)
        ensures
            final(self)@ == transferred(old(self)@, *transfer),
    {
        self.begin(transfer.content_length);
        let ghost start = self@;
        let mut i: usize = 0;
        while i < transfer.chunks.len()
            invariant
                i <= transfer.chunks.len(),
                self@ == advanced_by(start, transfer.chunks@, i as int),
            decreases transfer.chunks.len() - i,
        {
            self.advance(transfer.chunks[i]);
            i += 1;
        }
        match transfer.end {
            StreamEnd::Complete => self.finish(),
            StreamEnd::Broken(kind) => self.fail(kind),
        }
    }
}

/// Downloads every record into `target_dir`, over what the transport served:
/// `transfers[i]` for `records[i]`. Every job runs to its end, whatever
/// became of the others.
///
/// Hands back the jobs as they ended, one per record and in the order of the
/// records, and the result of the batch: the account of the failed jobs, or
/// success where there is none.
pub fn download_all(records: &Vec<ModRecord>, target_dir: &String, transfers: &Vec<Transfer>) -> (r:
    (Vec<DownloadJob>, Result<(), DownloadError>))
    ensures
        r.0@.len() == records@.len(),
        forall|i: int|
            0 <= i < records@.len() ==> (#[trigger] r.0@[i])@ == outcome_at(
                records@,
                target_dir@,
                transfers@,
                i,
            ),
        match r.1 {
            Ok(_) => failures_of(job_views(r.0@)).len() == 0,
            Err(e) => e@.failures.len() > 0 && e@ == (DownloadErrorView {
                total: records@.len() as int,
                failures: failures_of(job_views(r.0@)),
            }),
        },
{
    let mut jobs: Vec<DownloadJob> = Vec::new();
    let mut i: usize = 0;
    while i < records.len()
        invariant
            i <= records.len(),
            jobs@.len() == i,
            forall|k: int|
                0 <= k < i ==> (#[trigger] jobs@[k])@ == outcome_at(
                    records@,
                    target_dir@,
                    transfers@,
                    k,
                ),
        decreases records.len() - i,
    {
        let mut job = DownloadJob::new(&records[i], target_dir);
        if i < transfers.len() {
            job.run(&transfers[i]);
        } else {
            job.fail(FailureKind::Transport);
        }
        jobs.push(job);
        i += 1;
    }
    let result = aggregate(&jobs);
    (jobs, result)
}

} // verus!
