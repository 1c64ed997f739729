//! The bookkeeping of the downloads: file names, expected sizes, the state
//! of each job, and the account of the jobs that failed.

use vstd::prelude::*;
use vstd::string::StringExecFns;
use crate::record::{ModRecord, ModRecordView};

verus! {

/// The size assumed for an artifact whose response does not say how long it is.
pub const FALLBACK_SIZE: u64 = 2_500_000;

/// The length a job's progress starts with, before its response has arrived.
pub const INITIAL_SIZE: u64 = 1_100_000;

/// The extension that every artifact's file name ends in.
pub open spec fn artifact_extension() -> Seq<char> {
    seq!['.', 'j', 'a', 'r']
}

/// `text` ends in `suffix`.
pub open spec fn is_suffix(suffix: Seq<char>, text: Seq<char>) -> bool {
    suffix.len() <= text.len() && text.subrange(text.len() - suffix.len(), text.len() as int)
        == suffix
}

/// The name of the file on disk: the file name, with the extension where it
/// does not carry it yet.
pub open spec fn normalized(file_name: Seq<char>) -> Seq<char> {
    if is_suffix(artifact_extension(), file_name) {
        file_name
    } else {
        file_name + artifact_extension()
    }
}

/// `str::ends_with` of std, with a string for the pattern. Trusted: the
/// result says whether the characters of `suffix` are the last ones of `text`.
#[verifier::external_body]
fn ends_with(text: &str, suffix: &str) -> (b: bool)
    ensures
        b == is_suffix(suffix@, text@),
{
    text.ends_with(suffix)
}

/// The name of the file on disk for an artifact's file name.
pub fn normalize_file_name(file_name: &str) -> (r: String)
    ensures
        r@ == normalized(file_name@),
{
    proof {
        reveal_strlit(".jar");
        assert(".jar"@ =~= artifact_extension());
    }
    if ends_with(file_name, ".jar") {
        file_name.to_owned()
    } else {
        file_name.to_owned().concat(".jar")
    }
}

/// A name that carries the extension stays as it is, one that does not gets
/// it once, and normalizing a second time changes nothing.
pub proof fn normalization_is_idempotent(file_name: Seq<char>)
    ensures
        is_suffix(artifact_extension(), file_name) ==> normalized(file_name) == file_name,
        !is_suffix(artifact_extension(), file_name) ==> normalized(file_name) == file_name
            + artifact_extension(),
        is_suffix(artifact_extension(), normalized(file_name)),
        normalized(normalized(file_name)) == normalized(file_name),
{
    let ext = artifact_extension();
    let longer = file_name + ext;
    assert(longer.subrange(longer.len() - ext.len(), longer.len() as int) =~= ext);
}

/// The size a job's progress is scaled to: what the response reports, or the
/// fallback where it reports nothing.
pub open spec fn size_for(content_length: Option<u64>) -> u64 {
    match content_length {
        Some(n) => n,
        None => FALLBACK_SIZE,
    }
}

/// The size a job's progress is scaled to.
pub fn expected_size(content_length: Option<u64>) -> (n: u64)
    ensures
        n == size_for(content_length),
{
    match content_length {
        Some(n) => n,
        None => FALLBACK_SIZE,
    }
}

/// Why a job failed.
#[derive(Clone, Copy, PartialEq, Eq, Debug)]
pub enum FailureKind {
    /// The network failed.
    Transport,
    /// The destination file could not be created or written.
    Filesystem,
}

/// Where a job stands.
#[derive(Clone, Copy, PartialEq, Eq, Debug)]
pub enum JobStatus {
    /// No response yet.
    Waiting,
    /// The response has arrived and the body is being written.
    Streaming,
    /// The stream has ended and the file is whole.
    Done,
    /// The job was given up.
    Failed(FailureKind),
}

/// One download: where the file goes, how large it is expected to be, how
/// much of it is written.
#[derive(Debug)]
pub struct DownloadJob {
    pub mod_id: String,
    pub target_dir: String,
    pub file_name: String,
    pub expected_size: u64,
    pub bytes_written: u64,
    pub status: JobStatus,
}

/// The mathematical value of a [`DownloadJob`].
pub ghost struct JobView {
    pub mod_id: Seq<char>,
    pub target_dir: Seq<char>,
    pub file_name: Seq<char>,
    pub expected_size: u64,
    pub bytes_written: u64,
    pub status: JobStatus,
}

impl View for DownloadJob {
    type V = JobView;

    open spec fn view(&self) -> JobView {
        JobView {
            mod_id: self.mod_id@,
            target_dir: self.target_dir@,
            file_name: self.file_name@,
            expected_size: self.expected_size,
            bytes_written: self.bytes_written,
            status: self.status,
        }
    }
}

/// The job that a record enters the downloader as.
pub open spec fn planned(record: ModRecordView, target_dir: Seq<char>) -> JobView {
    JobView {
        mod_id: record.mod_id,
        target_dir,
        file_name: normalized(record.file_name),
        expected_size: INITIAL_SIZE,
        bytes_written: 0,
        status: JobStatus::Waiting,
    }
}

/// The sum of two byte counts, held at the largest count there is.
pub open spec fn capped_sum(a: u64, b: u64) -> u64 {
    if a + b > u64::MAX {
        u64::MAX
    } else {
        (a + b) as u64
    }
}

/// The job once its response has arrived. Only a waiting job takes one.
pub open spec fn begun(job: JobView, content_length: Option<u64>) -> JobView {
    match job.status {
        JobStatus::Waiting => JobView {
            expected_size: size_for(content_length),
            status: JobStatus::Streaming,
            ..job
        },
        _ => job,
    }
}

/// The job once a chunk of `bytes` bytes is written. Only a streaming job
/// writes.
pub open spec fn advanced(job: JobView, bytes: u64) -> JobView {
    match job.status {
        JobStatus::Streaming => JobView {
            bytes_written: capped_sum(job.bytes_written, bytes),
            ..job
        },
        _ => job,
    }
}

/// The job once its stream has ended.
pub open spec fn finished(job: JobView) -> JobView {
    match job.status {
        JobStatus::Streaming => JobView { status: JobStatus::Done, ..job },
        _ => job,
    }
}

/// The job once the network or the file system has failed it. A job that
/// has ended stays as it ended.
pub open spec fn given_up(job: JobView, kind: FailureKind) -> JobView {
    match job.status {
        JobStatus::Waiting | JobStatus::Streaming => JobView {
            status: JobStatus::Failed(kind),
            ..job
        },
        _ => job,
    }
}

/// How far the progress of a job is, in percent: all the way once it is
/// done or has written what was expected, else the written part of the
/// expected size, rounded down.
pub open spec fn percent_of(job: JobView) -> u64 {
    if job.status == JobStatus::Done || job.bytes_written >= job.expected_size {
        100
    } else {
        ((job.bytes_written * 100) / (job.expected_size as int)) as u64
    }
}

impl DownloadJob {
    /// The job for one record, with its file under `target_dir`.
    pub fn new(record: &ModRecord, target_dir: &String) -> (job: DownloadJob)
        ensures
            job@ == planned(record@, target_dir@),
    {
        DownloadJob {
            mod_id: record.mod_id.clone(),
            target_dir: target_dir.clone(),
            file_name: normalize_file_name(record.file_name.as_str()),
            expected_size: INITIAL_SIZE,
            bytes_written: 0,
            status: JobStatus::Waiting,
        }
    }

    /// The response has arrived, with or without a content length.
    pub fn begin(&mut self, content_length: Option<u64>)
        ensures
            final(self)@ == begun(old(self)@, content_length),
    {
        match self.status {
            JobStatus::Waiting => {
                self.expected_size = expected_size(content_length);
                self.status = JobStatus::Streaming;
            },
            _ => {},
        }
    }

    /// A chunk of `bytes` bytes is written.
    pub fn advance(&mut self, bytes: u64)
        ensures
            final(self)@ == advanced(old(self)@, bytes),
    {
        match self.status {
            JobStatus::Streaming => {
                if bytes > u64::MAX - self.bytes_written {
                    self.bytes_written = u64::MAX;
                } else {
                    self.bytes_written = self.bytes_written + bytes;
                }
            },
            _ => {},
        }
    }

    /// The stream has ended.
    pub fn finish(&mut self)
        ensures
            final(self)@ == finished(old(self)@),
    {
        match self.status {
            JobStatus::Streaming => {
                self.status = JobStatus::Done;
            },
            _ => {},
        }
    }

    /// The network or the file system has failed the job.
    pub fn fail(&mut self, kind: FailureKind)
        ensures
            final(self)@ == given_up(old(self)@, kind),
    {
        match self.status {
            JobStatus::Waiting | JobStatus::Streaming => {
                self.status = JobStatus::Failed(kind);
            },
            _ => {},
        }
    }

    /// Whether the job has ended well.
    pub fn is_done(&self) -> (b: bool)
        ensures
            b == (self.status == JobStatus::Done),
    {
        match self.status {
            JobStatus::Done => true,
            _ => false,
        }
    }

    /// How far the progress is, in percent.
    pub fn percent(&self) -> (p: u64)
        ensures
            p == percent_of(self@),
            p <= 100,
    {
        let done = self.is_done();
        if done || self.bytes_written >= self.expected_size {
            100
        } else {
            let written: u128 = self.bytes_written as u128;
            let expected: u128 = self.expected_size as u128;
            assert((written * 100) / (expected as int) < 100) by (nonlinear_arith)
                requires
                    0 <= written < expected,
            ;
            let p: u128 = (written * 100) / expected;
            p as u64
        }
    }
}

/// One job per record, in the order of the records.
pub fn plan_downloads(records: &Vec<ModRecord>, target_dir: &String) -> (jobs: Vec<DownloadJob>)
    ensures
        jobs@.len() == records@.len(),
        forall|i: int| 0 <= i < jobs@.len() ==> (#[trigger] jobs@[i])@ == planned(records@[i]@, target_dir@),
{
    let mut jobs: Vec<DownloadJob> = Vec::new();
    let mut i: usize = 0;
    while i < records.len()
        invariant
            i <= records.len(),
            jobs@.len() == i,
            forall|k: int| 0 <= k < i ==> (#[trigger] jobs@[k])@ == planned(records@[k]@, target_dir@),
        decreases records.len() - i,
    {
        jobs.push(DownloadJob::new(&records[i], target_dir));
        i += 1;
    }
    jobs
}

} // verus!
