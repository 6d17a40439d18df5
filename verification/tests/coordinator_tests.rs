use scroll_dump::coordinator::{
    consolidation_plan, Coordinator, Destination, ExportJob, JobPhase,
};
use scroll_dump::errors::ExportError;
use scroll_dump::lines::{join_lines, merge_lines, split_lines};
use scroll_dump::names::shard_name;
use scroll_dump::record::Hit;
use scroll_dump::session::{Page, PartitionTask, ScrollSession, SessionPhase};

fn b(s: &str) -> Vec<u8> {
    s.as_bytes().to_vec()
}

fn job(destination: Destination, compress: bool) -> ExportJob {
    ExportJob { collection: b("logs"), partitions: 3, destination, compress }
}

#[test]
fn tasks_cover_every_partition() {
    let c = Coordinator::new(job(Destination::Disk, false));
    let tasks = c.partition_tasks();
    assert_eq!(tasks.len(), 3);
    for (i, t) in tasks.iter().enumerate() {
        assert_eq!(t.slice_id, i as u64);
        assert_eq!(t.max_slices, 3);
    }
}

#[test]
fn three_partitions_make_three_thousand_lines() {
    // Collection `logs`, 3 partitions, each yielding one page of 500
    // alternating-pattern records and then a terminating empty page.
    let mut c = Coordinator::new(job(Destination::Disk, false));
    let tasks = c.partition_tasks();
    let mut shards: Vec<Vec<Vec<u8>>> = Vec::new();
    for t in tasks {
        let mut s = ScrollSession::new(PartitionTask {
            slice_id: t.slice_id,
            max_slices: t.max_slices,
        });
        let hits: Vec<Hit> = (0..500)
            .map(|k| Hit {
                index: b("logs"),
                id: b(&format!("doc-{}", k)),
                source: b(&format!("{{\"@timestamp\":\"2024-01-01T00:00:{:02}Z\"}}", k % 60)),
            })
            .collect();
        let page = Page { hits, total: 1500, cursor: Some(b("cur")) };
        s.absorb_page(&page);
        assert_eq!(s.phase, SessionPhase::Paging);
        let empty = Page { hits: Vec::new(), total: 1500, cursor: Some(b("cur")) };
        s.absorb_page(&empty);
        assert_eq!(s.phase, SessionPhase::Done);
        assert_eq!(s.records, 500);
        c.record_session(None);
        shards.push(split_lines(&s.shard_bytes()));
    }
    c.sessions_done();
    let merged = merge_lines(&shards);
    assert_eq!(merged.len(), 3000);
    for (i, line) in merged.iter().enumerate() {
        let text = String::from_utf8(line.clone()).unwrap();
        if i % 2 == 0 {
            assert!(text.contains("index"), "line {} lacks \"index\"", i);
        } else {
            assert!(text.contains("@timestamp"), "line {} lacks \"@timestamp\"", i);
        }
    }
    let combined = join_lines(&merged);
    c.on_consolidated(true, combined.len() as u64);
    assert_eq!(c.phase, JobPhase::Finished);
    let report = c.report();
    assert_eq!(report.partitions_ok, 3);
    assert_eq!(report.partitions_failed, 0);
    assert!(report.error.is_none());
}

#[test]
fn consolidation_plan_takes_shards_only() {
    let listing = vec![
        b("logs-0.json"),
        b("logs-1.json"),
        b("logs.json"),
        b("metrics-0.json"),
        b("logs-2.json"),
    ];
    let plan = consolidation_plan(&listing, &b("logs"));
    assert_eq!(plan, vec![b("logs-0.json"), b("logs-1.json"), b("logs-2.json")]);
    for i in 0..3u64 {
        assert!(plan.contains(&shard_name(&b("logs"), i)));
    }
}

#[test]
fn second_scan_finds_nothing() {
    // After a successful consolidation the shards are gone: a fresh scan
    // of what remains plans no reads and no deletions, and the combined
    // artifact is left untouched.
    let listing = vec![b("logs.json"), b("metrics-0.json"), b("notes.txt")];
    let plan = consolidation_plan(&listing, &b("logs"));
    assert!(plan.is_empty());
}

#[test]
fn remote_status_500_surfaces_and_keeps_files() {
    // Remote upload with compression; the put call answers 500.
    let mut c = Coordinator::new(job(Destination::Remote, true));
    for _ in 0..3 {
        c.record_session(None);
    }
    c.sessions_done();
    c.on_consolidated(true, 4096);
    assert_eq!(c.phase, JobPhase::Compressing);
    c.on_compressed(true, 512);
    assert_eq!(c.phase, JobPhase::Uploading);
    assert_eq!(c.upload_key(), b("logs.gz"));
    c.on_upload_status(500);
    // The failure is surfaced and the deletion phase is never entered, so
    // both the combined and the compressed file stay on disk.
    assert_eq!(c.phase, JobPhase::Finished);
    let report = c.report();
    assert_eq!(report.error, Some(ExportError::RemoteStatus(500)));
    assert!(!report.uploaded);
}

#[test]
fn confirmed_upload_deletes_both_artifacts() {
    let mut c = Coordinator::new(job(Destination::Remote, true));
    for _ in 0..3 {
        c.record_session(None);
    }
    c.sessions_done();
    c.on_consolidated(true, 4096);
    c.on_compressed(true, 512);
    c.on_upload_status(200);
    assert_eq!(c.phase, JobPhase::Deleting);
    assert_eq!(c.files_to_delete(), vec![b("logs.gz"), b("logs.json")]);
    c.on_deleted();
    let report = c.report();
    assert!(report.uploaded);
    assert!(report.error.is_none());
}

#[test]
fn empty_artifact_is_never_uploaded() {
    let mut c = Coordinator::new(job(Destination::Remote, false));
    for _ in 0..3 {
        c.record_session(None);
    }
    c.sessions_done();
    c.on_consolidated(true, 0);
    // Nothing to deliver: the job finishes without a put call.
    assert_eq!(c.phase, JobPhase::Finished);
    assert!(c.report().error.is_none());
}

#[test]
fn failed_partition_is_partial_not_total() {
    let mut c = Coordinator::new(job(Destination::Disk, false));
    c.record_session(None);
    c.record_session(Some(ExportError::Transport));
    c.record_session(None);
    c.sessions_done();
    c.on_consolidated(true, 100);
    let report = c.report();
    assert_eq!(report.partitions_ok, 2);
    assert_eq!(report.partitions_failed, 1);
    assert_eq!(report.partition_error, Some(ExportError::Transport));
    assert!(report.error.is_none());
}

#[test]
fn failed_consolidation_is_fatal() {
    let mut c = Coordinator::new(job(Destination::Disk, false));
    for _ in 0..3 {
        c.record_session(None);
    }
    c.sessions_done();
    c.on_consolidated(false, 0);
    assert_eq!(c.report().error, Some(ExportError::LocalStorage));
}
