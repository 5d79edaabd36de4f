use aethersync::crypto::decrypted_path_for;
use aethersync::crypto::encrypted_path_for;
use aethersync::crypto::join_bytes;
use aethersync::crypto::split_prefix;
use aethersync::crypto::NONCE_SIZE;
use aethersync::errors::SyncError;
use aethersync::media::extension_of;
use aethersync::media::media_type_for_extension;
use aethersync::media::str_eq;
use aethersync::mirror::CopyAttempt;
use aethersync::mirror::MirrorModel;
use aethersync::paths::base_name;
use aethersync::paths::join_path;
use aethersync::paths::replication_target;
use aethersync::sync::SyncManager;
use aethersync::sync::POLL_INTERVAL_SECS;
use aethersync::worker::plan_copies;
use aethersync::worker::worker_step;
use aethersync::worker::PathEvent;
use aethersync::worker::PathKind;

fn file_event(path: &str) -> PathEvent {
    PathEvent { path: path.to_string(), kind: PathKind::File }
}

// ---- lifecycle ----

#[test]
fn start_twice_returns_already_running() {
    let mut m = SyncManager::new("W".to_string(), "T".to_string());
    let req = m.start_sync().unwrap();
    assert_eq!(req.path, "W");
    assert!(req.recursive);
    let launch = m.watcher_ready();
    assert_eq!(launch.target_path, "T");
    assert_eq!(launch.poll_interval_secs, POLL_INTERVAL_SECS);
    assert!(m.is_running());
    let second = m.start_sync();
    assert!(matches!(second, Err(SyncError::AlreadyRunning)));
    assert_eq!(second.unwrap_err().message(), "Sync already running");
}

#[test]
fn stop_without_session_returns_not_running() {
    let mut m = SyncManager::new("W".to_string(), "T".to_string());
    let r = m.stop_sync();
    assert!(matches!(r, Err(SyncError::NotRunning)));
    assert_eq!(r.unwrap_err().message(), "Sync is not running");
}

#[test]
fn stop_then_restart() {
    let mut m = SyncManager::new("W".to_string(), "T".to_string());
    m.start_sync().unwrap();
    m.watcher_ready();
    assert!(m.stop_sync().is_ok());
    assert!(!m.is_running());
    assert!(matches!(m.stop_sync(), Err(SyncError::NotRunning)));
    assert!(m.start_sync().is_ok());
}

#[test]
fn watcher_failure_aborts_start() {
    let mut m = SyncManager::new("missing".to_string(), "T".to_string());
    m.start_sync().unwrap();
    let err = m.watcher_failed("No path was found.".to_string());
    assert!(matches!(&err, SyncError::WatcherInit(_)));
    assert_eq!(err.message(), "No path was found.");
    assert!(!m.is_running());
    assert!(matches!(m.stop_sync(), Err(SyncError::NotRunning)));
    assert!(m.start_sync().is_ok());
}

#[test]
fn paths_are_recorded() {
    let m = SyncManager::new("/data/in".to_string(), "/data/out".to_string());
    assert_eq!(m.watch_path(), "/data/in");
    assert_eq!(m.target_path(), "/data/out");
    assert!(!m.is_running());
}

// ---- path flattening ----

#[test]
fn base_name_takes_last_component() {
    assert_eq!(base_name("W/sub/b.txt"), Some("b.txt".to_string()));
    assert_eq!(base_name("b.txt"), Some("b.txt".to_string()));
    assert_eq!(base_name("/top"), Some("top".to_string()));
    assert_eq!(base_name("W/"), None);
    assert_eq!(base_name(""), None);
}

#[test]
fn join_path_inserts_one_separator() {
    assert_eq!(join_path("T", "b.txt"), "T/b.txt");
    assert_eq!(join_path("T/", "b.txt"), "T/b.txt");
    assert_eq!(join_path("", "b.txt"), "b.txt");
}

#[test]
fn replication_target_flattens_subdirectories() {
    assert_eq!(replication_target("W/sub/b.txt", "T"), Some("T/b.txt".to_string()));
    assert_eq!(replication_target("W/a.txt", "T"), Some("T/a.txt".to_string()));
    assert_eq!(replication_target("W/sub/", "T"), None);
}

// ---- worker decisions ----

#[test]
fn plan_keeps_only_regular_files_in_order() {
    let events = vec![
        file_event("W/a.txt"),
        PathEvent { path: "W/sub".to_string(), kind: PathKind::Directory },
        file_event("W/sub/b.txt"),
        PathEvent { path: "W/gone.txt".to_string(), kind: PathKind::Missing },
        PathEvent { path: "W/link".to_string(), kind: PathKind::Other },
    ];
    let plan = plan_copies(&events, &"T".to_string());
    assert_eq!(plan.len(), 2);
    assert_eq!(plan[0].source, "W/a.txt");
    assert_eq!(plan[0].dest, "T/a.txt");
    assert_eq!(plan[1].source, "W/sub/b.txt");
    assert_eq!(plan[1].dest, "T/b.txt");
}

#[test]
fn directory_only_batch_plans_nothing() {
    let events = vec![PathEvent { path: "W/newdir".to_string(), kind: PathKind::Directory }];
    let plan = plan_copies(&events, &"T".to_string());
    assert!(plan.is_empty());
}

#[test]
fn stopped_worker_terminates_without_copying() {
    let pending = vec![file_event("W/late.txt")];
    let step = worker_step(false, Some(&pending), &"T".to_string());
    assert!(step.terminate);
    assert!(step.copies.is_empty());
}

#[test]
fn running_worker_survives_timeout() {
    let step = worker_step(true, None, &"T".to_string());
    assert!(!step.terminate);
    assert!(step.copies.is_empty());
}

#[test]
fn running_worker_plans_batch() {
    let batch = vec![file_event("W/a.txt")];
    let step = worker_step(true, Some(&batch), &"T".to_string());
    assert!(!step.terminate);
    assert_eq!(step.copies.len(), 1);
    assert_eq!(step.copies[0].dest, "T/a.txt");
}

// ---- mirror of the target directory ----

#[test]
fn copy_is_byte_identical() {
    let mut t = MirrorModel::new();
    t.apply_copy("T/a.txt".to_string(), vec![1, 2, 3]);
    assert_eq!(t.lookup(&"T/a.txt".to_string()), Some(&vec![1, 2, 3]));
    assert_eq!(t.lookup(&"T/b.txt".to_string()), None);
}

#[test]
fn later_copy_overwrites_same_name() {
    let mut t = MirrorModel::new();
    t.apply_copy("T/b.txt".to_string(), vec![1]);
    t.apply_copy("T/b.txt".to_string(), vec![2, 2]);
    assert_eq!(t.lookup(&"T/b.txt".to_string()), Some(&vec![2, 2]));
}

#[test]
fn deletion_propagates_nothing() {
    let mut t = MirrorModel::new();
    t.apply_copy("T/a.txt".to_string(), vec![7]);
    // Deleting W/a.txt afterwards yields a path that is no longer a regular
    // file, so the worker plans no copy for it and the mirror is untouched.
    let events = vec![PathEvent { path: "W/a.txt".to_string(), kind: PathKind::Missing }];
    let plan = plan_copies(&events, &"T".to_string());
    assert!(plan.is_empty());
    assert_eq!(t.lookup(&"T/a.txt".to_string()), Some(&vec![7]));
}

#[test]
fn failed_copy_leaves_rest_of_batch_intact() {
    let mut t = MirrorModel::new();
    let batch = vec![
        CopyAttempt { dest: "T/a.txt".to_string(), data: vec![1], ok: true },
        CopyAttempt { dest: "T/locked.txt".to_string(), data: vec![2], ok: false },
        CopyAttempt { dest: "T/c.txt".to_string(), data: vec![3], ok: true },
    ];
    t.apply_batch(&batch);
    assert_eq!(t.lookup(&"T/a.txt".to_string()), Some(&vec![1]));
    assert_eq!(t.lookup(&"T/locked.txt".to_string()), None);
    assert_eq!(t.lookup(&"T/c.txt".to_string()), Some(&vec![3]));
    // and a later batch still lands
    let later = vec![CopyAttempt { dest: "T/d.txt".to_string(), data: vec![4], ok: true }];
    t.apply_batch(&later);
    assert_eq!(t.lookup(&"T/d.txt".to_string()), Some(&vec![4]));
}

// ---- error messages ----

#[test]
fn error_messages_match_host_interface() {
    assert_eq!(SyncError::AlreadyRunning.message(), "Sync already running");
    assert_eq!(SyncError::NotRunning.message(), "Sync is not running");
    assert_eq!(SyncError::WatcherInit("boom".to_string()).message(), "boom");
}

// ---- media metadata rules ----

#[test]
fn extension_is_after_last_dot() {
    assert_eq!(extension_of("photo.png"), Some("png".to_string()));
    assert_eq!(extension_of("archive.tar.gz"), Some("gz".to_string()));
    assert_eq!(extension_of("noext"), None);
    assert_eq!(extension_of(".gitignore"), None);
}

#[test]
fn media_types_by_extension() {
    assert_eq!(media_type_for_extension(Some("png")), "image/png");
    assert_eq!(media_type_for_extension(Some("jpg")), "image/jpeg");
    assert_eq!(media_type_for_extension(Some("jpeg")), "image/jpeg");
    assert_eq!(media_type_for_extension(Some("gif")), "image/gif");
    assert_eq!(media_type_for_extension(Some("mp4")), "video/mp4");
    assert_eq!(media_type_for_extension(Some("mp3")), "audio/mpeg");
    assert_eq!(media_type_for_extension(Some("wav")), "audio/wav");
    assert_eq!(media_type_for_extension(Some("dat")), "application/octet-stream");
    assert_eq!(media_type_for_extension(None), "application/octet-stream");
}

#[test]
fn str_eq_compares_contents() {
    assert!(str_eq("abc", "abc"));
    assert!(!str_eq("abc", "abd"));
    assert!(!str_eq("abc", "ab"));
    assert!(str_eq("", ""));
}

// ---- encrypted-file framing ----

#[test]
fn nonce_prefix_round_trip() {
    let nonce: Vec<u8> = (0..NONCE_SIZE as u8).collect();
    let ciphertext = vec![9, 8, 7];
    let framed = join_bytes(&nonce, &ciphertext);
    assert_eq!(framed.len(), NONCE_SIZE + 3);
    let (prefix, rest) = split_prefix(&framed, NONCE_SIZE).unwrap();
    assert_eq!(prefix, nonce);
    assert_eq!(rest, ciphertext);
}

#[test]
fn short_data_has_no_nonce_prefix() {
    assert!(split_prefix(&vec![1, 2, 3], NONCE_SIZE).is_none());
    assert!(split_prefix(&Vec::new(), NONCE_SIZE).is_none());
    let exact = vec![0; NONCE_SIZE];
    let (prefix, rest) = split_prefix(&exact, NONCE_SIZE).unwrap();
    assert_eq!(prefix.len(), NONCE_SIZE);
    assert!(rest.is_empty());
}

#[test]
fn encrypted_and_decrypted_names() {
    assert_eq!(encrypted_path_for("notes.txt"), "notes.txt.enc");
    assert_eq!(decrypted_path_for("notes.txt.enc"), "notes.txt.dec");
    assert_eq!(decrypted_path_for("notes.txt.enc.enc"), "notes.txt.dec");
    assert_eq!(decrypted_path_for("plain"), "plain.dec");
}
