use airshipper::compare::{build_compared, Compared, LocalFileInfo};
use airshipper::error::ClientError;
use airshipper::manifest::RemoteFileInfo;
use airshipper::remote::{parse_end_of_central_directory, RemoteError};
use airshipper::update::{check_downloads, Action, Event, Progress, Stage, Tick, Updater};
use airshipper::download::SyncError;

fn entry(name: &str, method: u16, start: u32, end: u32) -> RemoteFileInfo {
    RemoteFileInfo {
        crc32: 5,
        compressed_size: end - start,
        compression_method: method,
        file_name: name.to_string(),
        start_offset: start,
        end_offset: end,
    }
}

fn tick(batches_finished: usize, bytes: u64, now_ms: u64) -> Tick {
    Tick {
        batches_finished,
        unzips_started: 0,
        unzips_finished: 0,
        deletion_finished: false,
        bytes,
        now_ms,
    }
}

#[test]
fn escaping_entry_aborts_before_any_write() {
    let c = build_compared(vec![entry("../../evil", 0, 0, 10)], Vec::new(), &Vec::new());
    assert_eq!(check_downloads(&c.needs_download), Err(SyncError::UnsafePath));
    let (u, p, a) = Updater::new(0).step(Event::Evaluated(c));
    assert_eq!(u.stage, Stage::Finished);
    assert!(matches!(p, Some(Progress::Errored(ClientError::Custom(_)))));
    assert!(matches!(a, Action::Nothing));
    let (u, p, a) = u.step(Event::Tick(tick(0, 0, 10)));
    assert_eq!(u.stage, Stage::Finished);
    assert!(p.is_none());
    assert!(matches!(a, Action::Nothing));
}

#[test]
fn unknown_compression_aborts() {
    let c = build_compared(vec![entry("a", 14, 0, 10)], Vec::new(), &Vec::new());
    assert_eq!(check_downloads(&c.needs_download), Err(SyncError::UnsupportedCompressionMethod));
    let (u, p, _) = Updater::new(0).step(Event::Evaluated(c));
    assert_eq!(u.stage, Stage::Finished);
    match p {
        Some(Progress::Errored(ClientError::Custom(m))) => {
            assert_eq!(m, "Unsupported compression method found")
        },
        other => panic!("unexpected {:?}", other),
    }
}

#[test]
fn truncated_archive_ends_in_error_without_actions() {
    let err = parse_end_of_central_directory(&[0u8; 64]).unwrap_err();
    assert_eq!(err, RemoteError::NoEocdFound);
    let (u, p, a) = Updater::new(0).step(Event::Failed(err.to_client_error()));
    assert_eq!(u.stage, Stage::Finished);
    match p {
        Some(Progress::Errored(ClientError::Custom(m))) => {
            assert_eq!(m, "Remote Zip invalid, no EOCD found")
        },
        other => panic!("unexpected {:?}", other),
    }
    assert!(matches!(a, Action::Nothing));
}

#[test]
fn offline_ends_the_sync() {
    let (u, p, a) = Updater::new(0).step(Event::Offline);
    assert_eq!(u.stage, Stage::Finished);
    assert!(matches!(p, Some(Progress::Offline)));
    assert!(matches!(a, Action::Nothing));
}

#[test]
fn up_to_date_tree_succeeds_at_once() {
    let c = Compared { needs_download: Vec::new(), needs_deletion: Vec::new(), needs_download_bytes: 0 };
    let (u, p, _) = Updater::new(0).step(Event::Evaluated(c));
    assert_eq!(u.stage, Stage::Finished);
    assert!(matches!(p, Some(Progress::Successful)));
}

#[test]
fn deletions_only_go_straight_to_syncing() {
    let c = Compared {
        needs_download: Vec::new(),
        needs_deletion: vec![LocalFileInfo { local_unix_path: "old.bin".to_string(), crc32: 1 }],
        needs_download_bytes: 0,
    };
    let (u, _, a) = Updater::new(0).step(Event::Evaluated(c));
    assert_eq!(u.stage, Stage::Sync);
    match a {
        Action::DeleteFiles(f) => assert_eq!(f[0].local_unix_path, "old.bin"),
        other => panic!("unexpected {:?}", other),
    }
    let (u, _, a) = u.step(Event::Tick(tick(0, 0, 50)));
    assert_eq!(u.stage, Stage::Sync);
    assert!(matches!(a, Action::Nothing));
    let mut deleted = tick(0, 0, 100);
    deleted.deletion_finished = true;
    let (u, _, a) = u.step(Event::Tick(deleted));
    assert_eq!(u.stage, Stage::Finalizing);
    assert!(matches!(a, Action::Finalize));
    let (u, p, _) = u.step(Event::Finalized);
    assert_eq!(u.stage, Stage::Finished);
    assert!(matches!(p, Some(Progress::Successful)));
}

#[test]
fn full_run_tops_up_downloads_and_finishes() {
    // twenty separate batches: gaps between all entries
    let remote: Vec<RemoteFileInfo> =
        (0..20u32).map(|i| entry(&format!("f{i}"), 0, i * 100, i * 100 + 50)).collect();
    let c = build_compared(remote, vec![LocalFileInfo { local_unix_path: "stale".to_string(), crc32: 0 }], &Vec::new());
    assert_eq!(c.needs_download.len(), 20);
    assert_eq!(c.needs_download_bytes, 20 * 50);

    let (u, p, a) = Updater::new(0).step(Event::Evaluated(c));
    assert_eq!(u.stage, Stage::InitializeSync);
    assert!(matches!(p, Some(Progress::ReadyToSync { total_bytes: 1000 })));
    assert!(matches!(a, Action::Nothing));

    let (u, p, a) = u.step(Event::Confirmed { now_ms: 1000 });
    assert_eq!(u.stage, Stage::Sync);
    assert!(u.deletion_pending);
    assert!(matches!(p, Some(Progress::Syncing { processed_bytes: 0, total_bytes: 1000, bytes_per_sec: 0 })));
    assert!(matches!(a, Action::DeleteFiles(_)));

    let (u, _, a) = u.step(Event::Tick(tick(0, 0, 1000)));
    match a {
        Action::StartBatches(b) => {
            assert_eq!(b.len(), 15);
            assert_eq!(b[0][0].file_name, "f19");
        },
        other => panic!("unexpected {:?}", other),
    }
    assert_eq!(u.in_flight, 15);
    assert_eq!(u.queued.len(), 5);

    let (u, p, a) = u.step(Event::Tick(tick(4, 400, 1500)));
    match a {
        Action::StartBatches(b) => assert_eq!(b.len(), 4),
        other => panic!("unexpected {:?}", other),
    }
    assert!(matches!(p, Some(Progress::Syncing { processed_bytes: 400, total_bytes: 1000, bytes_per_sec: 800 })));
    assert_eq!(u.in_flight, 15);
    assert_eq!(u.queued.len(), 1);

    let (u, _, a) = u.step(Event::Tick(tick(15, 0, 1600)));
    assert!(matches!(a, Action::StartBatches(_)));
    assert_eq!(u.in_flight, 1);
    let done = Tick {
        batches_finished: 1,
        unzips_started: 20,
        unzips_finished: 20,
        deletion_finished: true,
        bytes: 600,
        now_ms: 2000,
    };
    let (u, p, a) = u.step(Event::Tick(done));
    assert_eq!(u.stage, Stage::Finalizing);
    assert!(matches!(a, Action::Finalize));
    assert!(matches!(p, Some(Progress::Syncing { processed_bytes: 1000, .. })));
    let (u, p, _) = u.step(Event::Finalized);
    assert_eq!(u.stage, Stage::Finished);
    assert!(matches!(p, Some(Progress::Successful)));
}

#[test]
fn unexpected_event_aborts() {
    let (u, p, _) = Updater::new(0).step(Event::Finalized);
    assert_eq!(u.stage, Stage::Finished);
    assert!(matches!(p, Some(Progress::Errored(ClientError::Task(_)))));
}
