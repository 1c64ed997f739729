use mod_install::download::{
    expected_size, normalize_file_name, plan_downloads, DownloadJob, FailureKind, JobStatus,
    FALLBACK_SIZE, INITIAL_SIZE,
};
use mod_install::record::ModRecord;
use mod_install::report::aggregate;
use mod_install::transfer::{download_all, StreamEnd, Transfer};

fn text(t: &str) -> String {
    t.to_string()
}

fn artifact(id: &str, file_name: &str) -> ModRecord {
    ModRecord::new(
        text(id),
        text(id),
        text(file_name),
        format!("https://mods.example/{}", id),
        Vec::new(),
    )
}

fn served(content_length: Option<u64>, chunks: &[u64]) -> Transfer {
    Transfer { content_length, chunks: chunks.to_vec(), end: StreamEnd::Complete }
}

fn broken(chunks: &[u64], kind: FailureKind) -> Transfer {
    Transfer { content_length: None, chunks: chunks.to_vec(), end: StreamEnd::Broken(kind) }
}

#[test]
fn a_name_with_the_extension_stays() {
    assert_eq!(normalize_file_name("jei-4.15.jar"), "jei-4.15.jar");
    assert_eq!(normalize_file_name(".jar"), ".jar");
}

#[test]
fn a_name_without_the_extension_gets_it_once() {
    assert_eq!(normalize_file_name("jei-4.15"), "jei-4.15.jar");
    assert_eq!(normalize_file_name(""), ".jar");
    assert_eq!(normalize_file_name("jar"), "jar.jar");
    assert_eq!(normalize_file_name("mod.JAR"), "mod.JAR.jar");
    assert_eq!(normalize_file_name("mod.jar.zip"), "mod.jar.zip.jar");
    assert_eq!(normalize_file_name("módjar"), "módjar.jar");
}

#[test]
fn normalizing_twice_is_normalizing_once() {
    for name in ["a", "a.jar", "", "x.jar.jar", "ja"] {
        let once = normalize_file_name(name);
        let twice = normalize_file_name(&once);
        assert_eq!(once, twice);
    }
}

#[test]
fn expected_size_is_the_content_length_or_the_fallback() {
    assert_eq!(FALLBACK_SIZE, 2_500_000);
    assert_eq!(INITIAL_SIZE, 1_100_000);
    assert_eq!(expected_size(None), 2_500_000);
    assert_eq!(expected_size(Some(1000)), 1000);
    assert_eq!(expected_size(Some(0)), 0);
}

#[test]
fn a_new_job_waits_under_the_normalized_name() {
    let job = DownloadJob::new(&artifact("modA", "modA-1.0"), &text("/mods"));
    assert_eq!(job.mod_id, "modA");
    assert_eq!(job.target_dir, "/mods");
    assert_eq!(job.file_name, "modA-1.0.jar");
    assert_eq!(job.expected_size, 1_100_000);
    assert_eq!(job.bytes_written, 0);
    assert_eq!(job.status, JobStatus::Waiting);
    assert_eq!(job.percent(), 0);
}

#[test]
fn a_job_counts_its_chunks() {
    let mut job = DownloadJob::new(&artifact("modA", "a.jar"), &text("/mods"));
    job.advance(10);
    assert_eq!(job.bytes_written, 0);
    job.begin(Some(1000));
    assert_eq!(job.status, JobStatus::Streaming);
    assert_eq!(job.expected_size, 1000);
    job.advance(250);
    assert_eq!(job.bytes_written, 250);
    assert_eq!(job.percent(), 25);
    job.advance(83);
    assert_eq!(job.bytes_written, 333);
    assert_eq!(job.percent(), 33);
    job.begin(None);
    assert_eq!(job.expected_size, 1000);
    job.advance(667);
    assert_eq!(job.percent(), 100);
    assert!(!job.is_done());
    job.finish();
    assert!(job.is_done());
    job.advance(5);
    job.fail(FailureKind::Transport);
    assert_eq!(job.bytes_written, 1000);
    assert_eq!(job.status, JobStatus::Done);
}

#[test]
fn a_job_without_content_length_still_completes() {
    let mut job = DownloadJob::new(&artifact("modA", "a.jar"), &text("/mods"));
    job.begin(None);
    assert_eq!(job.expected_size, 2_500_000);
    job.advance(1000);
    assert_eq!(job.percent(), 0);
    job.advance(24_000);
    assert_eq!(job.percent(), 1);
    job.finish();
    assert_eq!(job.status, JobStatus::Done);
    assert_eq!(job.percent(), 100);
    assert_eq!(job.bytes_written, 25_000);
}

#[test]
fn a_job_holds_its_count_at_the_largest() {
    let mut job = DownloadJob::new(&artifact("modA", "a.jar"), &text("/mods"));
    job.begin(Some(u64::MAX));
    job.advance(u64::MAX - 1);
    assert_eq!(job.percent(), 99);
    job.advance(5);
    assert_eq!(job.bytes_written, u64::MAX);
    assert_eq!(job.percent(), 100);
}

#[test]
fn a_failed_job_stays_failed() {
    let mut job = DownloadJob::new(&artifact("modA", "a.jar"), &text("/mods"));
    job.fail(FailureKind::Transport);
    assert_eq!(job.status, JobStatus::Failed(FailureKind::Transport));
    job.begin(Some(10));
    job.advance(10);
    job.finish();
    job.fail(FailureKind::Filesystem);
    assert_eq!(job.status, JobStatus::Failed(FailureKind::Transport));
    assert_eq!(job.bytes_written, 0);
    assert_eq!(job.expected_size, 1_100_000);
}

#[test]
fn one_job_per_record_in_order() {
    let records = vec![artifact("a", "a"), artifact("b", "b.jar"), artifact("c", "c.zip")];
    let jobs = plan_downloads(&records, &text("/srv/mods"));
    let names: Vec<&str> = jobs.iter().map(|j| j.file_name.as_str()).collect();
    assert_eq!(names, vec!["a.jar", "b.jar", "c.zip.jar"]);
    let ids: Vec<&str> = jobs.iter().map(|j| j.mod_id.as_str()).collect();
    assert_eq!(ids, vec!["a", "b", "c"]);
    assert!(jobs.iter().all(|j| j.target_dir == "/srv/mods" && j.status == JobStatus::Waiting));
    assert!(plan_downloads(&Vec::new(), &text("/srv/mods")).is_empty());
}

#[test]
fn a_batch_without_failures_succeeds() {
    let mut jobs = plan_downloads(&vec![artifact("a", "a"), artifact("b", "b")], &text("/m"));
    for job in jobs.iter_mut() {
        job.begin(None);
        job.finish();
    }
    assert!(aggregate(&jobs).is_ok());
    assert!(aggregate(&Vec::new()).is_ok());
}

#[test]
fn a_batch_reports_each_failed_job_with_its_kind() {
    let records: Vec<ModRecord> =
        ["m0", "m1", "m2", "m3", "m4"].iter().map(|id| artifact(id, id)).collect();
    let mut jobs = plan_downloads(&records, &text("/m"));
    jobs[0].begin(Some(10));
    jobs[0].advance(10);
    jobs[0].finish();
    jobs[1].fail(FailureKind::Transport);
    jobs[2].begin(None);
    jobs[2].fail(FailureKind::Filesystem);
    jobs[3].begin(Some(4));
    jobs[3].advance(4);
    jobs[3].finish();
    jobs[4].begin(Some(8));
    jobs[4].advance(3);
    jobs[4].fail(FailureKind::Transport);
    let error = aggregate(&jobs).unwrap_err();
    assert_eq!(error.total, 5);
    let listed: Vec<(usize, &str, FailureKind)> =
        error.failures.iter().map(|f| (f.position, f.mod_id.as_str(), f.kind)).collect();
    assert_eq!(
        listed,
        vec![
            (1, "m1", FailureKind::Transport),
            (2, "m2", FailureKind::Filesystem),
            (4, "m4", FailureKind::Transport),
        ]
    );
    assert_eq!(jobs[0].bytes_written, 10);
    assert_eq!(jobs[3].bytes_written, 4);
}

#[test]
fn downloads_two_mods_to_their_full_size() {
    let records = vec![artifact("modA", "modA"), artifact("modB", "modB.jar")];
    let transfers = vec![served(Some(1000), &[400, 400, 200]), served(Some(500), &[500])];
    let (jobs, result) = download_all(&records, &text("D"), &transfers);
    assert!(result.is_ok());
    assert_eq!(jobs.len(), 2);
    assert_eq!(jobs[0].file_name, "modA.jar");
    assert_eq!(jobs[0].target_dir, "D");
    assert_eq!(jobs[0].bytes_written, 1000);
    assert_eq!(jobs[0].percent(), 100);
    assert!(jobs[0].is_done());
    assert_eq!(jobs[1].file_name, "modB.jar");
    assert_eq!(jobs[1].bytes_written, 500);
    assert_eq!(jobs[1].percent(), 100);
    assert!(jobs[1].is_done());
}

#[test]
fn a_failing_download_does_not_stop_the_others() {
    let records = vec![artifact("a", "a"), artifact("b", "b"), artifact("c", "c"), artifact("d", "d")];
    let transfers = vec![
        broken(&[100], FailureKind::Filesystem),
        served(None, &[7, 8]),
        broken(&[], FailureKind::Transport),
    ];
    let (jobs, result) = download_all(&records, &text("D"), &transfers);
    let error = result.unwrap_err();
    assert_eq!(error.total, 4);
    let listed: Vec<(usize, &str, FailureKind)> =
        error.failures.iter().map(|f| (f.position, f.mod_id.as_str(), f.kind)).collect();
    assert_eq!(
        listed,
        vec![
            (0, "a", FailureKind::Filesystem),
            (2, "c", FailureKind::Transport),
            (3, "d", FailureKind::Transport),
        ]
    );
    assert_eq!(jobs[0].bytes_written, 100);
    assert_eq!(jobs[1].status, JobStatus::Done);
    assert_eq!(jobs[1].bytes_written, 15);
    assert_eq!(jobs[1].expected_size, 2_500_000);
    assert_eq!(jobs[1].percent(), 100);
    assert_eq!(jobs[3].status, JobStatus::Failed(FailureKind::Transport));
    assert_eq!(jobs[3].bytes_written, 0);
}

#[test]
fn a_job_runs_through_a_whole_transfer() {
    let mut job = DownloadJob::new(&artifact("a", "a"), &text("D"));
    job.run(&served(Some(30), &[10, 0, 20]));
    assert_eq!(job.status, JobStatus::Done);
    assert_eq!(job.expected_size, 30);
    assert_eq!(job.bytes_written, 30);
}
