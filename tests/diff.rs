use airshipper::compare::{build_compared, split_into_batches, LocalFileInfo, PatchRecord};
use airshipper::manifest::{sort_by_start, RemoteFileInfo};
use airshipper::paths::{is_ignored, is_safe_relative};

fn remote(name: &str, crc32: u32, start: u32, end: u32) -> RemoteFileInfo {
    RemoteFileInfo {
        crc32,
        compressed_size: end - start,
        compression_method: 0,
        file_name: name.to_string(),
        start_offset: start,
        end_offset: end,
    }
}

fn local(path: &str, crc32: u32) -> LocalFileInfo {
    LocalFileInfo { local_unix_path: path.to_string(), crc32 }
}

fn names(batches: &[Vec<RemoteFileInfo>]) -> Vec<Vec<String>> {
    batches.iter().map(|b| b.iter().map(|e| e.file_name.clone()).collect()).collect()
}

#[test]
fn missing_file_is_downloaded_and_then_converges() {
    let r = vec![RemoteFileInfo {
        crc32: 111,
        compressed_size: 10,
        compression_method: 0,
        file_name: "a.txt".to_string(),
        start_offset: 0,
        end_offset: 40,
    }];
    let c = build_compared(r.clone(), Vec::new(), &Vec::new());
    assert_eq!(names(&c.needs_download), vec![vec!["a.txt".to_string()]]);
    assert!(c.needs_deletion.is_empty());
    assert_eq!(c.needs_download_bytes, 40);

    let after = vec![local("a.txt", 111)];
    let again = build_compared(r, after, &Vec::new());
    assert!(again.needs_download.is_empty());
    assert!(again.needs_deletion.is_empty());
    assert_eq!(again.needs_download_bytes, 0);
}

#[test]
fn extra_local_file_is_deleted_but_user_content_is_kept() {
    let r = vec![remote("a.txt", 1, 0, 40)];
    let l = vec![
        local("a.txt", 1),
        local("old.bin", 7),
        local("screenshots/x.png", 9),
        local("userdata/save.ron", 9),
        local("maps", 9),
    ];
    let c = build_compared(r, l, &Vec::new());
    assert!(c.needs_download.is_empty());
    let deleted: Vec<String> = c.needs_deletion.iter().map(|l| l.local_unix_path.clone()).collect();
    assert_eq!(deleted, vec!["old.bin".to_string()]);
}

#[test]
fn changed_file_is_downloaded() {
    let r = vec![remote("a.txt", 1, 0, 40), remote("b.txt", 2, 40, 80)];
    let l = vec![local("a.txt", 1), local("b.txt", 3)];
    let c = build_compared(r, l, &Vec::new());
    assert_eq!(names(&c.needs_download), vec![vec!["b.txt".to_string()]]);
    assert_eq!(c.needs_download_bytes, 40);
}

#[test]
fn patched_executable_counts_as_current() {
    let r = vec![remote("veloren-voxygen", 0xA, 0, 100)];
    let l = vec![local("veloren-voxygen", 0xB)];
    let patches = vec![PatchRecord {
        local_unix_path: "veloren-voxygen".to_string(),
        pre_crc32: 0xA,
        post_crc32: 0xB,
    }];
    let c = build_compared(r.clone(), l.clone(), &patches);
    assert!(c.needs_download.is_empty());
    assert!(c.needs_deletion.is_empty());

    let without = build_compared(r, l, &Vec::new());
    assert_eq!(names(&without.needs_download), vec![vec!["veloren-voxygen".to_string()]]);
}

#[test]
fn patch_record_for_other_checksum_is_ignored() {
    let r = vec![remote("veloren-voxygen", 0xA, 0, 100)];
    let l = vec![local("veloren-voxygen", 0xC)];
    let patches = vec![PatchRecord {
        local_unix_path: "veloren-voxygen".to_string(),
        pre_crc32: 0xA,
        post_crc32: 0xB,
    }];
    let c = build_compared(r, l, &patches);
    assert_eq!(c.needs_download.len(), 1);
}

#[test]
fn batches_break_only_at_gaps() {
    let r = vec![
        remote("d", 4, 300, 400),
        remote("a", 1, 0, 100),
        remote("c", 3, 200, 300),
        remote("b", 2, 100, 200),
        remote("f", 6, 600, 700),
        remote("e", 5, 400, 500),
    ];
    let l = vec![local("e", 5)];
    let c = build_compared(r, l, &Vec::new());
    assert_eq!(
        names(&c.needs_download),
        vec![
            vec!["a".to_string(), "b".to_string(), "c".to_string(), "d".to_string()],
            vec!["f".to_string()],
        ]
    );
    assert_eq!(c.needs_download_bytes, 400 + 100);
    let flat: Vec<u32> = c.needs_download.iter().flatten().map(|e| e.start_offset).collect();
    assert_eq!(flat, vec![0, 100, 200, 300, 600]);
}

#[test]
fn split_into_batches_of_empty_list() {
    assert!(split_into_batches(&Vec::new()).is_empty());
}

#[test]
fn sort_keeps_equal_offsets_in_order() {
    let v = vec![remote("x", 1, 50, 60), remote("y", 2, 10, 20), remote("z", 3, 50, 60)];
    let s = sort_by_start(v);
    let order: Vec<&str> = s.iter().map(|e| e.file_name.as_str()).collect();
    assert_eq!(order, vec!["y", "x", "z"]);
}

#[test]
fn ignore_rules_match_whole_components() {
    assert!(is_ignored("userdata"));
    assert!(is_ignored("userdata/voxygen/settings.ron"));
    assert!(is_ignored("screenshots/x.png"));
    assert!(is_ignored("maps/world.bin"));
    assert!(!is_ignored("userdata2/file"));
    assert!(!is_ignored("assets/maps/x"));
    assert!(!is_ignored("map"));
}

#[test]
fn escaping_paths_are_unsafe() {
    assert!(!is_safe_relative("../../evil"));
    assert!(!is_safe_relative("assets/../../evil"));
    assert!(!is_safe_relative("assets\\..\\evil"));
    assert!(!is_safe_relative("/etc/passwd"));
    assert!(!is_safe_relative("C:\\Windows"));
    assert!(!is_safe_relative(""));
    assert!(!is_safe_relative(".."));
    assert!(is_safe_relative("assets/voxygen/a.png"));
    assert!(is_safe_relative("a..b/c"));
    assert!(is_safe_relative("./x"));
}
