use airshipper::error::ClientError;
use airshipper::download::SyncError;
use airshipper::locations::{log_file, log_path_file, savedstate_file};
use airshipper::panels::{
    changed_offset, default_display_count, PostOffsetChange, ChangelogPanelComponent, ChangelogVersion, DownloadButtonState, LauncherView,
    RuleStyle,
};
use airshipper::progress::{OverallProgress, ProgressDetails, StepProgress, UpdateContent};
use airshipper::remote::RemoteError;
use airshipper::unpack::is_launcher_executable;

#[test]
fn rate_is_sampled_and_smoothed() {
    let mut p = ProgressDetails::new(10_000, 0);
    p.add_chunk(100, 0);
    assert_eq!(p.bytes_per_sec(), 0);
    p.add_chunk(100, 100);
    // first sample taken as it is: 200 bytes in 0.1 s
    assert_eq!(p.bytes_per_sec(), 2000);
    p.add_chunk(500, 400);
    assert_eq!(p.bytes_per_sec(), 2000);
    p.add_chunk(500, 600);
    // 1000 bytes in 0.5 s = 2000/s blended with 2000
    assert_eq!(p.bytes_per_sec(), 2000);
    p.add_chunk(3000, 1100);
    // 6000/s blended 3:1 with 2000/s
    assert_eq!(p.bytes_per_sec(), 3000);
    assert_eq!(p.processed_bytes(), 4200);
    assert_eq!(p.total_bytes(), 10_000);
    assert_eq!(p.percent_complete(), 42);
    assert_eq!(p.time_remaining(), 1);
}

#[test]
fn percent_and_eta_edges() {
    let p = ProgressDetails::new(0, 0);
    assert_eq!(p.percent_complete(), 100);
    assert_eq!(p.time_remaining(), 0);
    let q = ProgressDetails::new(5000, 0);
    assert_eq!(q.time_remaining(), 5000);
    let mut r = ProgressDetails::new(100, 0);
    r.add_chunk(u64::MAX, 0);
    r.add_chunk(5, 0);
    assert_eq!(r.processed_bytes(), u64::MAX);
}

#[test]
fn step_progress_hands_buffer_to_overall() {
    let mut s = StepProgress::new(200, UpdateContent::DownloadFile("a.bin".to_string()));
    s.add_chunk(50);
    assert_eq!(s.percent_complete(), 25);
    let mut o = OverallProgress::new(0);
    assert_eq!(o.add_from_step(&mut s, 250), 50);
    assert_eq!(o.bytes_per_sec(), 200);
    assert_eq!(o.add_from_step(&mut s, 300), 0);
    assert_eq!(s.processed_bytes, 50);
    assert_eq!(s.content.show(), "a.bin");
    assert_eq!(UpdateContent::Decompress("b".to_string()).show(), "b");
    assert_eq!(StepProgress::new(0, UpdateContent::Decompress("c".to_string())).percent_complete(), 100);
}

#[test]
fn changelog_grows_on_scroll() {
    let v = |s: &str, d: Option<&str>| ChangelogVersion {
        version: s.to_string(),
        date: d.map(|x| x.to_string()),
        notes: Vec::new(),
        sections: Vec::new(),
    };
    assert_eq!(v("0.16.0", Some("2024-06-01")).title(), "v0.16.0 (2024-06-01)");
    assert_eq!(v("Unreleased", None).title(), "Nightly");
    assert_eq!(v("0.15.0", None).title(), "v0.15.0");
    let mut c = ChangelogPanelComponent {
        versions: vec![v("a", None), v("b", None), v("c", None)],
        etag: String::new(),
        display_count: default_display_count(),
    };
    assert_eq!(c.shown(), 2);
    c.scrolled(false);
    assert_eq!(c.display_count, 2);
    c.scrolled(true);
    assert_eq!(c.display_count, 3);
    c.scrolled(true);
    assert_eq!(c.display_count, 3);
    c.display_count = 10;
    assert_eq!(c.shown(), 3);
}

#[test]
fn small_gui_state() {
    assert_eq!(LauncherView::default(), LauncherView::Default);
    assert_eq!(RuleStyle::default(), RuleStyle::Default);
    assert_ne!(DownloadButtonState::Checking, DownloadButtonState::InProgress);
}

#[test]
fn launcher_files() {
    assert_eq!(savedstate_file("/home/a/.local/share/airshipper"), "/home/a/.local/share/airshipper/airshipper_state.ron");
    assert_eq!(log_file("/base"), "/base/airshipper.log");
    assert_eq!(log_path_file("/base"), ("/base".to_string(), "airshipper.log".to_string()));
    assert!(is_launcher_executable("veloren-voxygen"));
    assert!(is_launcher_executable("veloren-server-cli"));
    assert!(!is_launcher_executable("assets/veloren-voxygen"));
}

#[test]
fn errors_map_onto_client_errors() {
    assert!(matches!(RemoteError::Network.to_client_error(), ClientError::Network(_)));
    assert!(!RemoteError::Network.is_format_error());
    assert!(!RemoteError::ContentLengthUnavailable.is_format_error());
    assert!(RemoteError::InvalidSignature.is_format_error());
    match RemoteError::InvalidFileName.to_client_error() {
        ClientError::Custom(m) => assert_eq!(m, "Remote Zip invalid, CentralDirectoryHeader has invalid file name"),
        other => panic!("unexpected {:?}", other),
    }
    assert!(matches!(SyncError::InvalidStatus(404).to_client_error(), ClientError::Network(_)));
    assert!(matches!(SyncError::FileError.to_client_error(), ClientError::Io(_)));
    assert!(matches!(SyncError::JoinFailure.to_client_error(), ClientError::Task(_)));
    match SyncError::InvalidHash.to_client_error() {
        ClientError::Custom(m) => assert_eq!(m, "The remote file hash doesn't match its calculated one"),
        other => panic!("unexpected {:?}", other),
    }
}

#[test]
fn showcase_offset_stays_within_posts() {
    assert_eq!(changed_offset(0, 3, PostOffsetChange::Increment), 1);
    assert_eq!(changed_offset(2, 3, PostOffsetChange::Increment), 2);
    assert_eq!(changed_offset(0, 3, PostOffsetChange::Decrement), 0);
    assert_eq!(changed_offset(2, 3, PostOffsetChange::Decrement), 1);
    assert_eq!(changed_offset(5, 0, PostOffsetChange::Increment), 0);
}
