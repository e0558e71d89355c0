use tape_backup::acl::{AccessControl, AclEntry, PRIV_DATASTORE_READ, PRIV_TAPE_WRITE};
use tape_backup::cloud::media_location::MediaLocation;
use tape_backup::cloud::media_pool::{MediaSetPolicy, RetentionPolicy};
use tape_backup::datastore::{BackupGroup, BackupNamespace, BackupType, Chunk, Datastore,
    GroupData, SnapshotData};
use tape_backup::job::{backup, backup_worker, DriveLocks, DriveStates, JobError, LogEvent,
    TapeBackupJobSummary};
use tape_backup::jobs::{GroupFilter, TapeBackupJobSetup};
use tape_backup::pipeline::AbortSignal;
use tape_backup::pool::{MediaContentItem, MediaPool, MediaStatus, Medium};
use tape_backup::pool_writer::PoolWriter;
use tape_backup::selection::{filter_selected, sort_groups};

fn medium(label: &str, uuid: u64, capacity: u64) -> Medium {
    Medium {
        label: label.to_string(),
        uuid,
        capacity,
        used: 0,
        status: MediaStatus::Unknown,
        location: MediaLocation::Online("svc".to_string()),
        media_set: None,
        set_ctime: 0,
        content: Vec::new(),
    }
}

fn pool_of(media: Vec<Medium>) -> MediaPool {
    MediaPool {
        name: "pool1".to_string(),
        allocation: MediaSetPolicy::ContinueCurrent,
        retention: RetentionPolicy::OverwriteAlways,
        media,
        current_set: None,
        next_set_id: 1,
    }
}

fn snapshot(time: i64, sizes: &[u64], archive_size: u64) -> SnapshotData {
    let chunks: Vec<Chunk> = sizes
        .iter()
        .enumerate()
        .map(|(i, s)| Chunk { digest: time as u64 * 1000 + i as u64, size: *s })
        .collect();
    SnapshotData {
        time,
        finished: true,
        readable: true,
        vanished: false,
        chunks,
        read_error_at: None,
        snapshot_archive_size: archive_size,
    }
}

fn group(ty: BackupType, id: &str, snapshots: Vec<SnapshotData>) -> GroupData {
    GroupData {
        ns: BackupNamespace { path: Vec::new() },
        group: BackupGroup { ty, id: id.to_string() },
        snapshots,
    }
}

fn store_of(groups: Vec<GroupData>) -> Datastore {
    Datastore { name: "store1".to_string(), groups }
}

fn setup() -> TapeBackupJobSetup {
    TapeBackupJobSetup {
        store: "store1".to_string(),
        pool: "pool1".to_string(),
        drive: "drive1".to_string(),
        ns: None,
        max_depth: None,
        latest_only: None,
        group_filter: None,
        export_media_set: None,
        eject_media: None,
        notify_user: None,
    }
}

fn run(
    pool: MediaPool,
    store: Datastore,
    setup: &TapeBackupJobSetup,
    abort: &mut AbortSignal,
) -> (PoolWriter, Result<(), JobError>, TapeBackupJobSummary, Vec<LogEvent>) {
    let mut summary = TapeBackupJobSummary::new();
    let mut log: Vec<LogEvent> = Vec::new();
    let (writer, result) =
        backup_worker(pool, store, setup, false, &None, abort, 1000, &mut summary, &mut log);
    (writer, result, summary, log)
}

fn chunk_archive_digests(item: &MediaContentItem) -> Vec<u64> {
    match item {
        MediaContentItem::ChunkArchive { chunks, .. } => chunks.iter().map(|c| c.digest).collect(),
        other => panic!("expected chunk archive, got {:?}", other),
    }
}

#[test]
fn leom_rotation_splits_chunks_across_two_media() {
    let pool = pool_of(vec![medium("tape-a", 1, 3), medium("tape-b", 2, 100)]);
    let store = store_of(vec![group(BackupType::Vm, "100", vec![snapshot(5, &[1, 1, 1, 1], 2)])]);
    let mut abort = AbortSignal::never();
    let (writer, result, summary, _log) = run(pool, store, &setup(), &mut abort);
    assert!(result.is_ok());
    assert_eq!(summary.snapshot_list.len(), 1);

    let media = &writer.pool.media;
    // first medium filled to capacity with the first three chunks, then marked full
    assert_eq!(media[0].status, MediaStatus::Full);
    assert_eq!(media[0].used, 3);
    assert_eq!(media[0].content.len(), 1);
    assert_eq!(chunk_archive_digests(&media[0].content[0]), vec![5000, 5001, 5002]);
    // the stream resumed on the second medium with the remaining chunk, in order
    assert_eq!(chunk_archive_digests(&media[1].content[0]), vec![5003]);
    assert!(matches!(media[1].content[1], MediaContentItem::SnapshotArchive { .. }));
    assert!(matches!(media[1].content[2], MediaContentItem::CatalogArchive { entries: 1 }));
    // exactly one rotation: both media belong to the set, in order
    assert_eq!(media[0].media_set.unwrap().seq_nr, 0);
    assert_eq!(media[1].media_set.unwrap().seq_nr, 1);
}

#[test]
fn snapshot_archive_never_split_and_retried_whole() {
    let pool = pool_of(vec![medium("tape-a", 1, 5), medium("tape-b", 2, 10)]);
    let store = store_of(vec![group(BackupType::Vm, "100", vec![snapshot(7, &[1, 1, 1, 1], 3)])]);
    let mut abort = AbortSignal::never();
    let (writer, result, summary, _log) = run(pool, store, &setup(), &mut abort);
    assert!(result.is_ok());
    assert_eq!(summary.snapshot_list.len(), 1);

    let media = &writer.pool.media;
    // chunks went to the first medium, which then lacked room for the archive
    assert_eq!(media[0].status, MediaStatus::Full);
    assert_eq!(media[0].content.len(), 1);
    assert!(matches!(media[0].content[0], MediaContentItem::ChunkArchive { .. }));
    // the archive was written whole on the second medium, never split
    assert!(matches!(media[1].content[0], MediaContentItem::SnapshotArchive { .. }));
}

#[test]
fn snapshot_archive_fails_on_second_medium_is_fatal() {
    let pool = pool_of(vec![medium("tape-a", 1, 10), medium("tape-b", 2, 10)]);
    let store = store_of(vec![group(BackupType::Vm, "100", vec![snapshot(7, &[], 15)])]);
    let mut abort = AbortSignal::never();
    let (writer, result, summary, _log) = run(pool, store, &setup(), &mut abort);
    assert_eq!(result, Err(JobError::SnapshotArchiveFailed));
    // the snapshot is not counted as successful and no archive was written
    assert_eq!(summary.snapshot_list.len(), 0);
    for m in &writer.pool.media {
        assert!(m.content.iter().all(|i| !matches!(i, MediaContentItem::SnapshotArchive { .. })));
    }
}

#[test]
fn abort_between_appends_stops_all_writing() {
    let pool = pool_of(vec![medium("tape-a", 1, 1), medium("tape-b", 2, 100)]);
    let store = store_of(vec![group(BackupType::Vm, "100", vec![snapshot(5, &[1, 1], 2)])]);
    // two clear polls: the start-of-iteration check and the pre-append check;
    // the signal fires at the next checkpoint, between the two appends
    let mut abort = AbortSignal::after(2);
    let (writer, result, summary, _log) = run(pool, store, &setup(), &mut abort);
    assert_eq!(result, Err(JobError::Aborted));
    assert_eq!(summary.snapshot_list.len(), 0);

    let media = &writer.pool.media;
    // the first archive was already on the first medium
    assert_eq!(chunk_archive_digests(&media[0].content[0]), vec![5000]);
    assert_eq!(media[0].status, MediaStatus::Full);
    // no further medium was loaded and nothing further was appended
    assert!(media[1].media_set.is_none());
    assert!(media[1].content.is_empty());
}

#[test]
fn rerun_skips_contained_snapshots_and_keeps_tapes() {
    let pool = pool_of(vec![medium("tape-a", 1, 100)]);
    let snap = snapshot(5, &[1], 1);
    let store = store_of(vec![group(BackupType::Vm, "100", vec![snap.clone()])]);
    let mut abort = AbortSignal::never();
    let (writer1, result1, summary1, _log1) = run(pool, store, &setup(), &mut abort);
    assert!(result1.is_ok());
    assert_eq!(summary1.snapshot_list.len(), 1);
    assert_eq!(summary1.used_tapes, Some(vec!["tape-a".to_string()]));
    let media_after_first: Vec<Medium> = writer1.pool.media.clone();

    // the second run sees the same datastore against the pool state the
    // first run left behind; the allocation policy continues the set
    let store_again = store_of(vec![group(BackupType::Vm, "100", vec![snap])]);
    let mut abort = AbortSignal::never();
    let (writer2, result2, summary2, log2) = run(writer1.pool, store_again, &setup(), &mut abort);
    assert!(result2.is_ok());
    assert_eq!(summary2.snapshot_list.len(), 0);
    assert_eq!(summary2.used_tapes, Some(vec!["tape-a".to_string()]));
    assert_eq!(writer2.pool.media, media_after_first);
    assert!(log2.iter().any(|e| matches!(e, LogEvent::SkipSnapshot { .. })));
}

#[test]
fn groups_process_in_identity_order() {
    let mk = |id: &str| group(BackupType::Vm, id, vec![snapshot(1, &[], 1)]);
    let anchor = BackupNamespace { path: Vec::new() };
    let no_filters: Vec<GroupFilter> = Vec::new();

    let discovery_one = vec![mk("b"), mk("a"), mk("c")];
    let discovery_two = vec![mk("c"), mk("b"), mk("a")];
    let plan_one = sort_groups(filter_selected(discovery_one, &anchor, None, &no_filters));
    let plan_two = sort_groups(filter_selected(discovery_two, &anchor, None, &no_filters));

    let ids_one: Vec<&str> = plan_one.iter().map(|g| g.group.id.as_str()).collect();
    let ids_two: Vec<&str> = plan_two.iter().map(|g| g.group.id.as_str()).collect();
    assert_eq!(ids_one, vec!["a", "b", "c"]);
    assert_eq!(ids_two, vec!["a", "b", "c"]);
}

#[test]
fn worker_processes_groups_in_identity_order() {
    let pool = pool_of(vec![medium("tape-a", 1, 1000)]);
    let store = store_of(vec![
        group(BackupType::Vm, "b", vec![snapshot(1, &[], 1)]),
        group(BackupType::Vm, "a", vec![snapshot(2, &[], 1)]),
        group(BackupType::Vm, "c", vec![snapshot(3, &[], 1)]),
    ]);
    let mut abort = AbortSignal::never();
    let (_writer, result, summary, _log) = run(pool, store, &setup(), &mut abort);
    assert!(result.is_ok());
    let ids: Vec<&str> = summary.snapshot_list.iter().map(|s| s.id.as_str()).collect();
    assert_eq!(ids, vec!["a", "b", "c"]);
}

#[test]
fn latest_only_transfers_single_newest_snapshot() {
    let pool = pool_of(vec![medium("tape-a", 1, 1000)]);
    let store = store_of(vec![group(
        BackupType::Vm,
        "100",
        vec![snapshot(1, &[1], 1), snapshot(2, &[1], 1), snapshot(3, &[1], 1)],
    )]);
    let mut cfg = setup();
    cfg.latest_only = Some(true);
    let mut abort = AbortSignal::never();
    let (writer, result, summary, log) = run(pool, store, &cfg, &mut abort);
    assert!(result.is_ok());
    assert_eq!(summary.snapshot_list.len(), 1);
    assert_eq!(summary.snapshot_list[0].time, 3);
    // exactly one done-unit for the group: progress reaches completion in one step
    assert!(log.contains(&LogEvent::LatestOnly));
    assert!(log.contains(&LogEvent::Progress { permille: 1000 }));
    // only the newest snapshot's archive is on the media
    let archives: Vec<i64> = writer.pool.media[0]
        .content
        .iter()
        .filter_map(|i| match i {
            MediaContentItem::SnapshotArchive { snapshot, .. } => Some(snapshot.time),
            _ => None,
        })
        .collect();
    assert_eq!(archives, vec![3]);
}

#[test]
fn unreadable_snapshot_surfaces_as_job_failure_with_partial_success() {
    let pool = pool_of(vec![medium("tape-a", 1, 1000)]);
    let mut bad = snapshot(2, &[1], 1);
    bad.readable = false;
    let store = store_of(vec![
        group(BackupType::Vm, "g1", vec![snapshot(1, &[1], 1)]),
        group(BackupType::Vm, "g2", vec![bad]),
        group(BackupType::Vm, "g3", vec![snapshot(3, &[1], 1)]),
    ]);
    let mut abort = AbortSignal::never();
    let (_writer, result, summary, log) = run(pool, store, &setup(), &mut abort);
    assert_eq!(result, Err(JobError::JobErrors));
    let ids: Vec<&str> = summary.snapshot_list.iter().map(|s| s.id.as_str()).collect();
    assert_eq!(ids, vec!["g1", "g3"]);
    assert!(log.iter().any(|e| matches!(e, LogEvent::SnapshotOpenFailed { .. })));
}

#[test]
fn vanished_snapshot_is_ignored_without_error() {
    let pool = pool_of(vec![medium("tape-a", 1, 1000)]);
    let mut gone = snapshot(2, &[1], 1);
    gone.readable = false;
    gone.vanished = true;
    let store = store_of(vec![group(BackupType::Vm, "g1", vec![gone])]);
    let mut abort = AbortSignal::never();
    let (_writer, result, summary, log) = run(pool, store, &setup(), &mut abort);
    assert!(result.is_ok());
    assert_eq!(summary.snapshot_list.len(), 0);
    assert!(log.iter().any(|e| matches!(e, LogEvent::SnapshotVanished { .. })));
}

#[test]
fn chunk_read_error_is_fatal() {
    let pool = pool_of(vec![medium("tape-a", 1, 1000)]);
    let mut snap = snapshot(2, &[1, 1, 1], 1);
    snap.read_error_at = Some(2);
    let store = store_of(vec![group(BackupType::Vm, "g1", vec![snap])]);
    let mut abort = AbortSignal::never();
    let (_writer, result, summary, _log) = run(pool, store, &setup(), &mut abort);
    assert_eq!(result, Err(JobError::ChunkReadError));
    assert_eq!(summary.snapshot_list.len(), 0);
}

#[test]
fn unfinished_snapshots_are_not_transferred() {
    let pool = pool_of(vec![medium("tape-a", 1, 1000)]);
    let mut unfinished = snapshot(9, &[1], 1);
    unfinished.finished = false;
    let store = store_of(vec![group(
        BackupType::Vm,
        "g1",
        vec![snapshot(1, &[1], 1), unfinished],
    )]);
    let mut abort = AbortSignal::never();
    let (_writer, result, summary, _log) = run(pool, store, &setup(), &mut abort);
    assert!(result.is_ok());
    let times: Vec<i64> = summary.snapshot_list.iter().map(|s| s.time).collect();
    assert_eq!(times, vec![1]);
}

#[test]
fn group_filters_select_and_exclude() {
    let mk_store = || {
        store_of(vec![
            group(BackupType::Vm, "100", vec![snapshot(1, &[], 1)]),
            group(BackupType::Ct, "200", vec![snapshot(2, &[], 1)]),
        ])
    };
    // an include filter keeps only what it matches
    let mut cfg = setup();
    cfg.group_filter = Some(vec![GroupFilter::parse("type:vm").unwrap()]);
    let mut abort = AbortSignal::never();
    let (_w, result, summary, log) =
        run(pool_of(vec![medium("t", 1, 1000)]), mk_store(), &cfg, &mut abort);
    assert!(result.is_ok());
    let ids: Vec<&str> = summary.snapshot_list.iter().map(|s| s.id.as_str()).collect();
    assert_eq!(ids, vec!["100"]);
    assert!(log.contains(&LogEvent::FoundGroups { kept: 1, total: 2 }));

    // an exclude filter alone keeps everything else
    let mut cfg = setup();
    cfg.group_filter = Some(vec![GroupFilter::parse("exclude:type:vm").unwrap()]);
    let mut abort = AbortSignal::never();
    let (_w, result, summary, _log) =
        run(pool_of(vec![medium("t", 1, 1000)]), mk_store(), &cfg, &mut abort);
    assert!(result.is_ok());
    let ids: Vec<&str> = summary.snapshot_list.iter().map(|s| s.id.as_str()).collect();
    assert_eq!(ids, vec!["200"]);

    // an exclude vetoes even what an include matches
    let mut cfg = setup();
    cfg.group_filter = Some(vec![
        GroupFilter::parse("regex:^vm/.*$").unwrap(),
        GroupFilter::parse("exclude:group:vm/100").unwrap(),
    ]);
    let mut abort = AbortSignal::never();
    let (_w, result, summary, _log) =
        run(pool_of(vec![medium("t", 1, 1000)]), mk_store(), &cfg, &mut abort);
    assert!(result.is_ok());
    assert_eq!(summary.snapshot_list.len(), 0);
}

#[test]
fn namespace_scope_limits_groups() {
    let inner = GroupData {
        ns: BackupNamespace { path: vec!["prod".to_string(), "db".to_string()] },
        group: BackupGroup { ty: BackupType::Vm, id: "1".to_string() },
        snapshots: vec![snapshot(1, &[], 1)],
    };
    let outer = GroupData {
        ns: BackupNamespace { path: vec!["dev".to_string()] },
        group: BackupGroup { ty: BackupType::Vm, id: "2".to_string() },
        snapshots: vec![snapshot(2, &[], 1)],
    };
    let store = Datastore { name: "store1".to_string(), groups: vec![inner, outer] };
    let mut cfg = setup();
    cfg.ns = Some(BackupNamespace { path: vec!["prod".to_string()] });
    let mut abort = AbortSignal::never();
    let (_w, result, summary, log) =
        run(pool_of(vec![medium("t", 1, 1000)]), store, &cfg, &mut abort);
    assert!(result.is_ok());
    let ids: Vec<&str> = summary.snapshot_list.iter().map(|s| s.id.as_str()).collect();
    assert_eq!(ids, vec!["1"]);
    assert!(log.contains(&LogEvent::FoundGroups { kept: 1, total: 1 }));
}

#[test]
fn no_usable_media_fails_the_job() {
    let mut m = medium("tape-a", 1, 1000);
    m.location = MediaLocation::Offline;
    let pool = pool_of(vec![m]);
    let store = store_of(vec![group(BackupType::Vm, "100", vec![snapshot(1, &[1], 1)])]);
    let mut abort = AbortSignal::never();
    let (_w, result, summary, _log) = run(pool, store, &setup(), &mut abort);
    assert_eq!(result, Err(JobError::NoUsableMedia));
    assert_eq!(summary.snapshot_list.len(), 0);
}

#[test]
fn retention_protects_written_media() {
    // a medium of an older set, still under protection, cannot be reused
    let mut m = medium("tape-a", 1, 1000);
    m.media_set = Some(tape_backup::pool::MediaSetRef { set_id: 0, seq_nr: 0 });
    m.set_ctime = 900;
    let mut pool = pool_of(vec![m]);
    pool.retention = RetentionPolicy::ProtectFor(10_000);
    pool.allocation = MediaSetPolicy::AlwaysCreate;
    let store = store_of(vec![group(BackupType::Vm, "100", vec![snapshot(1, &[1], 1)])]);
    let mut abort = AbortSignal::never();
    let (_w, result, _summary, _log) = run(pool, store, &setup(), &mut abort);
    assert_eq!(result, Err(JobError::NoUsableMedia));
}

#[test]
fn empty_job_writes_no_catalog() {
    let pool = pool_of(vec![medium("tape-a", 1, 1000)]);
    let store = store_of(vec![]);
    let mut abort = AbortSignal::never();
    let (writer, result, summary, _log) = run(pool, store, &setup(), &mut abort);
    assert!(result.is_ok());
    assert_eq!(summary.snapshot_list.len(), 0);
    assert!(writer.pool.media[0].content.is_empty());
    assert!(writer.committed);
}

#[test]
fn export_takes_media_offline() {
    let pool = pool_of(vec![medium("tape-a", 1, 1000)]);
    let store = store_of(vec![group(BackupType::Vm, "100", vec![snapshot(1, &[1], 1)])]);
    let mut cfg = setup();
    cfg.export_media_set = Some(true);
    let mut abort = AbortSignal::never();
    let (writer, result, _summary, _log) = run(pool, store, &cfg, &mut abort);
    assert!(result.is_ok());
    assert_eq!(writer.pool.media[0].location, MediaLocation::Offline);
    assert!(writer.loaded.is_none());
}

fn full_acl() -> AccessControl {
    AccessControl {
        entries: vec![
            AclEntry {
                auth_id: "alice@pbs".to_string(),
                path: vec!["datastore".to_string(), "store1".to_string()],
                privs: PRIV_DATASTORE_READ,
            },
            AclEntry {
                auth_id: "alice@pbs".to_string(),
                path: vec!["tape".to_string(), "drive".to_string(), "drive1".to_string()],
                privs: PRIV_TAPE_WRITE,
            },
            AclEntry {
                auth_id: "alice@pbs".to_string(),
                path: vec!["tape".to_string(), "pool".to_string(), "pool1".to_string()],
                privs: PRIV_TAPE_WRITE,
            },
        ],
    }
}

#[test]
fn backup_runs_end_to_end_with_cleanup() {
    let pool = pool_of(vec![medium("tape-a", 1, 1000)]);
    let store = store_of(vec![group(BackupType::Vm, "100", vec![snapshot(1, &[1], 1)])]);
    let mut locks = DriveLocks::new();
    let mut states = DriveStates::new();
    let mut abort = AbortSignal::never();
    let outcome = backup(
        setup(),
        false,
        "alice@pbs",
        &full_acl(),
        store,
        pool,
        &None,
        &mut locks,
        &mut states,
        &mut abort,
        1000,
    )
    .unwrap();
    assert_eq!(outcome.job_id, "store1:pool1:drive1");
    assert!(outcome.result.is_ok());
    assert_eq!(outcome.notification.recipient, "root@pam");
    assert!(outcome.notification.success);
    assert_eq!(outcome.summary.snapshot_list.len(), 1);
    // the lock was released and the drive state cleared on the way out
    assert!(locks.locked.is_empty());
    assert_eq!(states.entries, vec![("drive1".to_string(), "".to_string())]);
}

#[test]
fn backup_refuses_unauthorized_callers() {
    let pool = pool_of(vec![medium("tape-a", 1, 1000)]);
    let store = store_of(vec![]);
    let mut locks = DriveLocks::new();
    let mut states = DriveStates::new();
    let mut abort = AbortSignal::never();
    let r = backup(
        setup(),
        false,
        "mallory@pbs",
        &full_acl(),
        store,
        pool,
        &None,
        &mut locks,
        &mut states,
        &mut abort,
        1000,
    );
    assert!(matches!(r, Err(JobError::Unauthorized)));
    assert!(locks.locked.is_empty());
    assert!(states.entries.is_empty());
}

#[test]
fn backup_fails_fast_when_drive_is_busy() {
    let pool = pool_of(vec![medium("tape-a", 1, 1000)]);
    let store = store_of(vec![]);
    let mut locks = DriveLocks::new();
    assert!(locks.acquire("drive1"));
    let mut states = DriveStates::new();
    let mut abort = AbortSignal::never();
    let r = backup(
        setup(),
        false,
        "alice@pbs",
        &full_acl(),
        store,
        pool,
        &None,
        &mut locks,
        &mut states,
        &mut abort,
        1000,
    );
    assert!(matches!(r, Err(JobError::DriveBusy)));
    assert_eq!(locks.locked, vec!["drive1".to_string()]);
}

#[test]
fn notification_reports_failure() {
    let pool = pool_of(vec![medium("tape-a", 1, 10)]);
    let mut bad = snapshot(2, &[1], 1);
    bad.readable = false;
    let store = store_of(vec![group(BackupType::Vm, "g2", vec![bad])]);
    let mut locks = DriveLocks::new();
    let mut states = DriveStates::new();
    let mut abort = AbortSignal::never();
    let mut cfg = setup();
    cfg.notify_user = Some("admin@pbs".to_string());
    let outcome = backup(
        cfg,
        false,
        "alice@pbs",
        &full_acl(),
        store,
        pool,
        &None,
        &mut locks,
        &mut states,
        &mut abort,
        1000,
    )
    .unwrap();
    assert_eq!(outcome.result, Err(JobError::JobErrors));
    assert_eq!(outcome.notification.recipient, "admin@pbs");
    assert!(!outcome.notification.success);
}
