use moondream_launcher::disk::{DirEntry, Disk};
use moondream_launcher::migrate::{apply_pending_migration, backup_path, parent_path, MigrationOutcome};
use moondream_launcher::settings::{AppSettings, MigrationSettings, StorageSettings};
use moondream_launcher::text::u64_to_string;

fn dir(path: &str, files: &[&str]) -> DirEntry {
    DirEntry {
        path: String::from(path),
        files: files.iter().map(|f| String::from(*f)).collect(),
    }
}

fn settings_with_migration(from: &str, to: &str) -> AppSettings {
    AppSettings {
        storage: Some(StorageSettings {
            mode: Some(String::from("local")),
            icloud_path: None,
            migration: Some(MigrationSettings {
                from: String::from(from),
                to: String::from(to),
                requested_at: None,
            }),
        }),
        ai: None,
    }
}

fn files_of<'a>(disk: &'a Disk, path: &str) -> Option<&'a Vec<String>> {
    disk.dirs.iter().find(|d| d.path == path).map(|d| &d.files)
}

#[test]
fn no_request_is_a_no_op() {
    let cfg = String::from("/cfg");
    let mut settings = AppSettings { storage: None, ai: None };
    let mut disk = Disk { dirs: vec![dir("/old", &["a"])], protected: vec![] };
    let r = apply_pending_migration(&cfg, &mut settings, &mut disk, 1);
    assert!(matches!(r, MigrationOutcome::NoRequest));
    assert!(settings.storage.is_none());
    assert_eq!(files_of(&disk, "/old").unwrap().len(), 1);
}

#[test]
fn same_source_and_destination_clears_request() {
    let cfg = String::from("/cfg");
    let mut settings = settings_with_migration("/data", "/data");
    let mut disk = Disk { dirs: vec![dir("/data", &["a"])], protected: vec![] };
    let r = apply_pending_migration(&cfg, &mut settings, &mut disk, 1);
    assert!(matches!(r, MigrationOutcome::Cleared));
    assert!(settings.storage.as_ref().unwrap().migration.is_none());
    assert_eq!(settings.storage.as_ref().unwrap().mode.as_deref(), Some("local"));
    assert_eq!(files_of(&disk, "/data").unwrap(), &vec![String::from("a")]);
}

#[test]
fn missing_source_clears_request() {
    let cfg = String::from("/cfg");
    let mut settings = settings_with_migration("/gone", "/new");
    let mut disk = Disk { dirs: vec![], protected: vec![] };
    let r = apply_pending_migration(&cfg, &mut settings, &mut disk, 1);
    assert!(matches!(r, MigrationOutcome::Cleared));
    assert!(settings.storage.as_ref().unwrap().migration.is_none());
    assert!(disk.dirs.is_empty());
}

#[test]
fn plain_move_into_fresh_destination() {
    let cfg = String::from("/cfg");
    let mut settings = settings_with_migration("/old/data", "/new/data");
    let mut disk = Disk { dirs: vec![dir("/old/data", &["a.txt", "sub/b.txt"])], protected: vec![] };
    let r = apply_pending_migration(&cfg, &mut settings, &mut disk, 9);
    assert!(matches!(r, MigrationOutcome::Migrated));
    assert!(settings.storage.as_ref().unwrap().migration.is_none());
    assert!(files_of(&disk, "/old/data").is_none());
    assert_eq!(
        files_of(&disk, "/new/data").unwrap(),
        &vec![String::from("a.txt"), String::from("sub/b.txt")]
    );
}

#[test]
fn occupied_destination_is_backed_up_first() {
    // the scenario: /new/data already holds x.txt; after the run it holds
    // exactly what /old/data held, x.txt lives in the timestamped backup
    // sibling, /old/data is gone and the request is cleared
    let cfg = String::from("/cfg");
    let mut settings = settings_with_migration("/old/data", "/new/data");
    let mut disk = Disk {
        dirs: vec![dir("/old/data", &["a.txt", "sub/b.txt"]), dir("/new/data", &["x.txt"])],
        protected: vec![],
    };
    let r = apply_pending_migration(&cfg, &mut settings, &mut disk, 1700000000);
    assert!(matches!(r, MigrationOutcome::Migrated));
    assert!(settings.storage.as_ref().unwrap().migration.is_none());
    assert!(files_of(&disk, "/old/data").is_none());
    assert_eq!(
        files_of(&disk, "/new/data").unwrap(),
        &vec![String::from("a.txt"), String::from("sub/b.txt")]
    );
    assert_eq!(
        files_of(&disk, "/new/data-backup-1700000000").unwrap(),
        &vec![String::from("x.txt")]
    );
}

#[test]
fn write_protected_destination_keeps_request_and_overrides() {
    let cfg = String::from("/cfg");
    let mut settings = settings_with_migration("/old/data", "/new/data");
    let before = settings.clone();
    let mut disk = Disk {
        dirs: vec![dir("/old/data", &["a.txt"])],
        protected: vec![String::from("/new/data")],
    };
    let r = apply_pending_migration(&cfg, &mut settings, &mut disk, 5);
    match r {
        MigrationOutcome::Failed { use_dir } => assert_eq!(use_dir, "/old/data"),
        other => panic!("expected a failed migration, got {:?}", outcome_name(&other)),
    }
    assert_eq!(settings, before);
    assert_eq!(files_of(&disk, "/old/data").unwrap(), &vec![String::from("a.txt")]);
    assert!(files_of(&disk, "/new/data").is_none());
}

fn outcome_name(r: &MigrationOutcome) -> &'static str {
    match r {
        MigrationOutcome::NoRequest => "NoRequest",
        MigrationOutcome::Cleared => "Cleared",
        MigrationOutcome::Migrated => "Migrated",
        MigrationOutcome::Failed { .. } => "Failed",
    }
}

#[test]
fn blocked_backup_fails_without_touching_destination() {
    // the destination is occupied and the backup sibling cannot be created:
    // the engine must fail rather than merge, keeping both trees intact
    let cfg = String::from("/cfg");
    let mut settings = settings_with_migration("/old/data", "/new/data");
    let mut disk = Disk {
        dirs: vec![dir("/old/data", &["a.txt"]), dir("/new/data", &["x.txt"])],
        protected: vec![String::from("/new/data-backup-5")],
    };
    let r = apply_pending_migration(&cfg, &mut settings, &mut disk, 5);
    match r {
        MigrationOutcome::Failed { use_dir } => assert_eq!(use_dir, "/old/data"),
        _ => panic!("expected a failed migration"),
    }
    assert!(settings.storage.as_ref().unwrap().migration.is_some());
    assert_eq!(files_of(&disk, "/new/data").unwrap(), &vec![String::from("x.txt")]);
    assert_eq!(files_of(&disk, "/old/data").unwrap(), &vec![String::from("a.txt")]);
}

#[test]
fn occupied_backup_sibling_fails_without_merging() {
    let cfg = String::from("/cfg");
    let mut settings = settings_with_migration("/old/data", "/new/data");
    let mut disk = Disk {
        dirs: vec![
            dir("/old/data", &["a.txt"]),
            dir("/new/data", &["x.txt"]),
            dir("/new/data-backup-5", &["stale"]),
        ],
        protected: vec![],
    };
    let r = apply_pending_migration(&cfg, &mut settings, &mut disk, 5);
    assert!(matches!(r, MigrationOutcome::Failed { .. }));
    assert!(settings.storage.as_ref().unwrap().migration.is_some());
    assert_eq!(files_of(&disk, "/new/data").unwrap(), &vec![String::from("x.txt")]);
}

#[test]
fn write_protected_source_keeps_request() {
    let cfg = String::from("/cfg");
    let mut settings = settings_with_migration("/old/data", "/new/data");
    let mut disk = Disk {
        dirs: vec![dir("/old/data", &["a.txt"])],
        protected: vec![String::from("/old/data")],
    };
    let r = apply_pending_migration(&cfg, &mut settings, &mut disk, 5);
    assert!(matches!(r, MigrationOutcome::Failed { .. }));
    assert!(settings.storage.as_ref().unwrap().migration.is_some());
    assert_eq!(files_of(&disk, "/old/data").unwrap(), &vec![String::from("a.txt")]);
}

#[test]
fn copy_fallback_preserves_source_until_delete() {
    let mut disk = Disk { dirs: vec![dir("/src", &["f1", "f2"])], protected: vec![] };
    let from = String::from("/src");
    let to = String::from("/dst");
    assert!(disk.copy_dir_all(&from, &to));
    assert_eq!(files_of(&disk, "/src").unwrap(), &vec![String::from("f1"), String::from("f2")]);
    assert_eq!(files_of(&disk, "/dst").unwrap(), &vec![String::from("f1"), String::from("f2")]);
    assert!(disk.remove_dir_all(&from));
    assert!(files_of(&disk, "/src").is_none());
}

#[test]
fn rename_refuses_occupied_destination() {
    let mut disk = Disk {
        dirs: vec![dir("/a", &["f"]), dir("/b", &["g"])],
        protected: vec![],
    };
    assert!(!disk.rename_dir(&String::from("/a"), &String::from("/b")));
    assert_eq!(files_of(&disk, "/b").unwrap(), &vec![String::from("g")]);
    let empty = String::from("/c");
    assert!(disk.create_dir_all(&empty));
    assert!(disk.rename_dir(&String::from("/a"), &empty));
    assert_eq!(files_of(&disk, "/c").unwrap(), &vec![String::from("f")]);
}

#[test]
fn backup_path_shapes() {
    assert_eq!(backup_path(&String::from("/cfg"), &String::from("/new/data"), 7), "/new/data-backup-7");
    assert_eq!(backup_path(&String::from("/cfg"), &String::from("plain"), 12), "/cfg/plain-backup-12");
    assert_eq!(backup_path(&String::from("/cfg"), &String::from("/x/"), 3), "/x/data-backup-3");
}

#[test]
fn parent_path_shapes() {
    assert_eq!(parent_path(&String::from("/new/data")).as_deref(), Some("/new"));
    assert_eq!(parent_path(&String::from("plain")), None);
    assert_eq!(parent_path(&String::from("/x")).as_deref(), Some(""));
}

#[test]
fn decimal_rendering() {
    assert_eq!(u64_to_string(0), "0");
    assert_eq!(u64_to_string(42), "42");
    assert_eq!(u64_to_string(3210), "3210");
    assert_eq!(u64_to_string(18446744073709551615), "18446744073709551615");
}
