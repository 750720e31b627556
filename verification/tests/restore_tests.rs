use rusty_rebase::restorer::{
    archive_done_log, archive_missing_log, check_entry_integrity, extracting_caption,
    found_files_log, is_dir_entry, manifest_path, no_archives_log, register_restored_file,
    restore_done_log, restore_header_log, sha256_hex, to_hex, BackupIndexEntry, BackupInfo,
    RestoreProgress,
};
use rusty_rebase::runner::InstallMsg;

fn entry(rel: &str, hash: &str) -> BackupIndexEntry {
    BackupIndexEntry {
        relative_path: rel.to_string(),
        original_size: 5,
        sha256_hash: hash.to_string(),
        zip_file: Some("part_1.zip".to_string()),
    }
}

#[test]
fn sha256_matches_known_vectors() {
    assert_eq!(
        sha256_hex(b""),
        "e3b0c44298fc1c149afbf4c8996fb92427ae41e4649b934ca495991b7852b855"
    );
    assert_eq!(
        sha256_hex(b"abc"),
        "ba7816bf8f01cfea414140de5dae2223b00361a396177a9cb410ff61f20015ad"
    );
    assert_eq!(to_hex(&vec![0x00, 0xff, 0x0a]), "00ff0a");
    assert_eq!(to_hex(&Vec::new()), "");
}

#[test]
fn integrity_mismatch_warns_but_restores() {
    let data = b"hello world";
    let right = sha256_hex(data);
    let index = Some(vec![entry("etc/config.toml", &right), entry("other.txt", "0000")]);

    // A matching hash earns no warning.
    assert!(check_entry_integrity(&index, "etc/config.toml", data).is_none());

    // A recorded hash that does not match the extracted bytes warns...
    let bad_index = Some(vec![entry("etc/config.toml", "deadbeef")]);
    let mut progress = RestoreProgress::begin(2);
    let (warning, msg) =
        register_restored_file(&mut progress, &bad_index, "etc/config.toml", data);
    assert_eq!(
        warning,
        Some("[WARNING] Integrity check FAILED for etc/config.toml".to_string())
    );
    // ...and the file still counts as restored, with its progress event.
    assert_eq!(progress.restored, 1);
    match msg {
        InstallMsg::SubProgress(num, den) => {
            assert_eq!(num, 1);
            assert_eq!(den, 2);
        },
        _ => panic!("a restored file reports sub-progress"),
    }

    // A file the index does not list is restored without any check.
    let (no_warning, _) = register_restored_file(&mut progress, &bad_index, "unlisted.txt", data);
    assert!(no_warning.is_none());
    assert_eq!(progress.restored, 2);

    // An absent index disables integrity checking entirely.
    assert!(check_entry_integrity(&None, "etc/config.toml", data).is_none());
}

#[test]
fn index_lookup_takes_the_first_entry() {
    let data = b"payload";
    let right = sha256_hex(data);
    let index = Some(vec![entry("dup.txt", "wrong"), entry("dup.txt", &right)]);
    let warning = check_entry_integrity(&index, "dup.txt", data);
    assert_eq!(warning, Some("[WARNING] Integrity check FAILED for dup.txt".to_string()));
}

#[test]
fn restore_logs_and_paths() {
    assert_eq!(manifest_path("/backups/2024"), "/backups/2024/.rusty_sync_info.json");
    assert_eq!(
        restore_header_log("/backups/2024", "/home/user/docs"),
        "Restoring backup from '/backups/2024' to '/home/user/docs'"
    );
    assert_eq!(no_archives_log(), "No zip files found in metadata.");
    assert_eq!(found_files_log(17, 2), "[info] Found 17 files across 2 archives.");
    assert_eq!(archive_missing_log("part_2.zip"), "[error] Zip archive missing: part_2.zip");
    assert_eq!(archive_done_log("part_1.zip"), "[done] Restored archive: part_1.zip");
    assert_eq!(extracting_caption("part_1.zip", 0, 2), "Extracting part_1.zip (1/2)");
    assert_eq!(restore_done_log(), "Restore completed successfully!");
    assert!(is_dir_entry("nested/dir/"));
    assert!(!is_dir_entry("nested/file.txt"));
    assert!(!is_dir_entry(""));
}

#[test]
fn manifest_model_round_trip() {
    let info = BackupInfo {
        source_path: "/home/user/docs".to_string(),
        backup_time: "2024-01-01T00:00:00Z".to_string(),
        zip_files: vec!["part_1.zip".to_string(), "part_2.zip".to_string()],
        index: None,
    };
    assert_eq!(info.zip_files.len(), 2);
    assert!(info.index.is_none());

    let mut progress = RestoreProgress::begin(1);
    let first = progress.file_restored();
    match first {
        InstallMsg::SubProgress(num, den) => {
            assert_eq!((num, den), (1, 1));
        },
        _ => panic!("a restored file reports sub-progress"),
    }
    // A pre-scan that undercounted never drives the ratio past the whole.
    let over = progress.file_restored();
    match over {
        InstallMsg::SubProgress(num, den) => {
            assert_eq!((num, den), (1, 1));
        },
        _ => panic!("a restored file reports sub-progress"),
    }
}
