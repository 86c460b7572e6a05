use anolisa::ws_ckpt::index::{SnapshotIndex, SnapshotMeta};
use anolisa::ws_ckpt::protocol::{error_resp, ErrorCode, Response, Workspace};
use anolisa::ws_ckpt::scheduler::{
    auto_cleanup_done, auto_cleanup_victims, auto_cleanup_wait, cleanup_orphans,
    health_check_step, health_check_wait, is_orphan, pass_is_due, CleanupRetention, HealthStep,
    LoopStep, OrphanEntry, Wake,
};
use anolisa::ws_ckpt::snapshot_mgr::record_parsed;
use anolisa::ws_ckpt::workspace_mgr::{
    base_of_digest, delete_done, delete_plan, format_candidate, generate_ws_id_base,
    initial_index, needs_rebuild, recover_done, recover_plan, recovered_index,
    strip_trailing_slashes, InitAction, InitEvent, InitRun,
};
use sha2::{Digest, Sha256};

fn meta(pinned: bool, created_at: i128) -> SnapshotMeta {
    SnapshotMeta { message: None, metadata: None, pinned, created_at, missing: false }
}

fn workspace(ws_id: &str, path: &str) -> Workspace {
    Workspace {
        ws_id: ws_id.to_string(),
        path: path.to_string(),
        index: SnapshotIndex::new(path.to_string()),
    }
}

// ── numbers ──

#[test]
fn ws_id_format_is_workspace_dash_6hex() {
    let id = generate_ws_id_base("/home/user/project");
    assert!(id.starts_with("ws-"), "ws-id should start with 'ws-'");
    let hash_part = id.strip_prefix("ws-").unwrap();
    assert_eq!(hash_part.len(), 6, "hash part should be 6 hex chars (3 bytes)");
    assert!(
        hash_part.chars().all(|c| c.is_ascii_hexdigit()),
        "hash part should be valid hex"
    );
}

#[test]
fn ws_id_same_path_produces_same_id() {
    let id1 = generate_ws_id_base("/home/user/project");
    let id2 = generate_ws_id_base("/home/user/project");
    assert_eq!(id1, id2);
}

#[test]
fn ws_id_different_paths_produce_different_ids() {
    let id1 = generate_ws_id_base("/home/user/project-a");
    let id2 = generate_ws_id_base("/home/user/project-b");
    assert_ne!(id1, id2);
}

#[test]
fn ws_id_hash_matches_sha256_first_3_bytes() {
    let path = "/some/test/path";
    let expected_hash = hex::encode(&Sha256::digest(path.as_bytes())[..3]);
    let id = generate_ws_id_base(path);
    assert_eq!(id, format!("ws-{}", expected_hash));
}

#[test]
fn ws_id_collision_suffix_format() {
    let base = generate_ws_id_base("/some/path");
    let suffixed_2 = format_candidate(&base, 2);
    let suffixed_3 = format_candidate(&base, 3);
    assert_eq!(suffixed_2, format!("{}-2", base));
    assert_eq!(suffixed_3, format!("{}-3", base));
    assert!(suffixed_2.starts_with("ws-"));
    assert!(suffixed_2.ends_with("-2"));
    assert!(suffixed_3.ends_with("-3"));
}

#[test]
fn error_resp_constructs_correct_response() {
    let resp = error_resp(ErrorCode::WorkspaceNotFound, "not found".to_string());
    match resp {
        Response::Error { code, message } => {
            assert_eq!(code, ErrorCode::WorkspaceNotFound);
            assert_eq!(message, "not found");
        }
        _ => panic!("expected Error variant"),
    }
}

#[test]
fn confirmation_required_delete_pinned_snapshot_response() {
    let resp = error_resp(
        ErrorCode::ConfirmationRequired,
        "快照已标记为 pinned，使用 --force 确认删除".to_string(),
    );
    match resp {
        Response::Error { code, message } => {
            assert_eq!(code, ErrorCode::ConfirmationRequired);
            assert!(message.contains("pinned"));
            assert!(message.contains("--force"));
        }
        _ => panic!("expected ConfirmationRequired error"),
    }
}

// ── init ──

/// Starts a run for a path that is no link.
fn start(workspace: &str, mount_path: &str) -> InitRun {
    let (mut run, first) = InitRun::init(workspace, mount_path, "/data/ws-ckpt");
    assert!(matches!(first, InitAction::ReadLink(_)));
    assert!(matches!(run.advance(InitEvent::Text(None)), InitAction::Canonicalize(_)));
    run
}

fn text(s: &str) -> InitEvent {
    InitEvent::Text(Some(s.to_string()))
}

#[test]
fn init_nonexistent_path_returns_invalid_path() {
    let mut run = start("/nonexistent/path/12345", "/tmp/test-mount");
    match run.advance(InitEvent::Text(None)) {
        InitAction::Reply(Response::Error { code, .. }) => {
            assert_eq!(code, ErrorCode::InvalidPath);
        }
        _ => panic!("expected InvalidPath error"),
    }
}

#[test]
fn init_already_initialized_returns_ok() {
    let mut run = start("/tmp/dir", "/tmp/test-mount");
    assert!(matches!(run.advance(text("/tmp/dir")), InitAction::Stat(p) if p == "/tmp/dir"));
    assert!(matches!(run.advance(InitEvent::Kind(Some(true))), InitAction::FindByPath(_)));
    match run.advance(text("ws-exist")) {
        InitAction::Reply(Response::InitOk { ws_id }) => assert_eq!(ws_id, "ws-exist"),
        _ => panic!("expected InitOk for already-initialized workspace"),
    }
}

#[test]
fn init_path_inside_mount_path_returns_invalid_path() {
    let mut run = start("/tmp/mnt/subdir", "/tmp/mnt");
    run.advance(text("/tmp/mnt/subdir"));
    run.advance(InitEvent::Kind(Some(true)));
    match run.advance(InitEvent::Text(None)) {
        InitAction::Reply(Response::Error { code, message }) => {
            assert_eq!(code, ErrorCode::InvalidPath);
            assert!(message.contains("inside mount_path"));
        }
        _ => panic!("expected InvalidPath error for path inside mount_path"),
    }
}

#[test]
fn init_non_directory_returns_invalid_path() {
    let mut run = start("/tmp/d/not-a-dir.txt", "/tmp/test-mount");
    run.advance(text("/tmp/d/not-a-dir.txt"));
    match run.advance(InitEvent::Kind(Some(false))) {
        InitAction::Reply(Response::Error { code, message }) => {
            assert_eq!(code, ErrorCode::InvalidPath);
            assert!(message.contains("not a directory"));
        }
        _ => panic!("expected InvalidPath error for non-directory"),
    }
}

#[test]
fn delete_snapshot_unregistered_workspace_returns_not_found() {
    let resp = delete_plan(None, "/tmp/unregistered", "msg1-step0", false).unwrap_err();
    match resp {
        Response::Error { code, .. } => assert_eq!(code, ErrorCode::WorkspaceNotFound),
        _ => panic!("expected WorkspaceNotFound error"),
    }
}

#[test]
fn ws_id_empty_path() {
    let id = generate_ws_id_base("");
    assert!(id.starts_with("ws-"));
    let hash_part = id.strip_prefix("ws-").unwrap();
    assert_eq!(hash_part.len(), 6);
}

#[test]
fn ws_id_special_characters_in_path() {
    let id = generate_ws_id_base("/home/user/my project (2)/src");
    assert!(id.starts_with("ws-"));
    let hash_part = id.strip_prefix("ws-").unwrap();
    assert_eq!(hash_part.len(), 6);
    assert!(hash_part.chars().all(|c| c.is_ascii_hexdigit()));
}

#[test]
fn ws_id_very_long_path() {
    let long_path = format!("/home/{}", "a".repeat(1000));
    let id = generate_ws_id_base(&long_path);
    assert!(id.starts_with("ws-"));
    let hash_part = id.strip_prefix("ws-").unwrap();
    assert_eq!(hash_part.len(), 6);
}

#[test]
fn ws_id_unicode_path() {
    let id = generate_ws_id_base("/home/用户/项目");
    assert!(id.starts_with("ws-"));
    let hash_part = id.strip_prefix("ws-").unwrap();
    assert_eq!(hash_part.len(), 6);
    assert!(hash_part.chars().all(|c| c.is_ascii_hexdigit()));
}

#[test]
fn recover_unregistered_workspace_returns_not_found() {
    let resp = recover_plan(None, "/nonexistent/path/12345").unwrap_err();
    match resp {
        Response::Error { code, .. } => assert_eq!(code, ErrorCode::WorkspaceNotFound),
        _ => panic!("expected WorkspaceNotFound error"),
    }
}

#[test]
fn recover_registered_workspace_returns_recover_ok_or_backend_error() {
    let ws = workspace("ws-test", "/tmp/dir");
    let plan = recover_plan(Some(&ws), "/tmp/dir").expect("should not be WsNotFound");
    assert_eq!(plan.ws_id, "ws-test");
    match recover_done(plan) {
        Response::RecoverOk { workspace } => assert_eq!(workspace, "/tmp/dir"),
        _ => panic!("unexpected response variant"),
    }
}

#[test]
fn init_of_a_new_workspace_runs_to_the_end() {
    let mut run = start("/home/u/p///", "/mnt/ckpt");
    run.advance(text("/home/u/p"));
    run.advance(InitEvent::Kind(Some(true)));
    assert!(matches!(run.advance(InitEvent::Text(None)), InitAction::CheckRsync));
    let base = generate_ws_id_base("/home/u/p");
    let first = run.advance(InitEvent::Kind(Some(true)));
    assert!(matches!(first, InitAction::TryId(id) if id == base));
    let second = run.advance(InitEvent::Flag(true));
    assert!(matches!(second, InitAction::TryId(id) if id == format!("{base}-2")));
    let third = run.advance(InitEvent::Flag(true));
    assert!(matches!(third, InitAction::TryId(id) if id == format!("{base}-3")));
    match run.advance(InitEvent::Flag(false)) {
        InitAction::Create { path, ws_id } => {
            assert_eq!(path, "/home/u/p");
            assert_eq!(ws_id, format!("{base}-3"));
        }
        other => panic!("got: {:?}", other),
    }
    assert!(matches!(run.advance(InitEvent::Flag(true)), InitAction::Finish { .. }));
    match run.advance(InitEvent::Flag(true)) {
        InitAction::Reply(Response::InitOk { ws_id }) => assert_eq!(ws_id, format!("{base}-3")),
        other => panic!("got: {:?}", other),
    }
}

#[test]
fn init_that_cannot_be_created_fails() {
    let mut run = start("/home/u/p", "/mnt/ckpt");
    run.advance(text("/home/u/p"));
    run.advance(InitEvent::Kind(Some(true)));
    run.advance(InitEvent::Text(None));
    run.advance(InitEvent::Kind(Some(true)));
    run.advance(InitEvent::Flag(false));
    assert!(matches!(run.advance(InitEvent::Flag(false)), InitAction::Fail));
}

#[test]
fn init_without_the_copying_tool_is_refused() {
    let mut run = start("/home/u/p", "/mnt/ckpt");
    run.advance(text("/home/u/p"));
    run.advance(InitEvent::Kind(Some(true)));
    run.advance(InitEvent::Text(None));
    match run.advance(InitEvent::Kind(Some(false))) {
        InitAction::Reply(Response::Error { code, .. }) => {
            assert_eq!(code, ErrorCode::InternalError);
        }
        other => panic!("got: {:?}", other),
    }
}

#[test]
fn init_of_a_link_of_ours_finds_the_workspace_again() {
    let (mut run, first) = InitRun::init("/home/u/p", "/mnt/ckpt", "/data/ws-ckpt");
    assert!(matches!(first, InitAction::ReadLink(p) if p == "/home/u/p"));
    let stat = run.advance(text("/data/ws-ckpt/ws-abc123"));
    assert!(matches!(stat, InitAction::StatTarget(p) if p == "/data/ws-ckpt/ws-abc123"));
    let find = run.advance(InitEvent::Flag(true));
    assert!(matches!(find, InitAction::FindId(id) if id == "ws-abc123"));
    let recover = run.advance(InitEvent::Flag(false));
    assert!(matches!(recover, InitAction::RecoverIndex(id) if id == "ws-abc123"));
    match run.advance(InitEvent::Flag(true)) {
        InitAction::Reply(Response::InitOk { ws_id }) => assert_eq!(ws_id, "ws-abc123"),
        other => panic!("got: {:?}", other),
    }
}

#[test]
fn init_of_a_broken_link_removes_it() {
    let (mut run, _) = InitRun::init("/home/u/p", "/mnt/ckpt", "/data/ws-ckpt");
    run.advance(text("/data/ws-ckpt/ws-abc123"));
    let remove = run.advance(InitEvent::Flag(false));
    assert!(matches!(remove, InitAction::RemoveLink(p) if p == "/home/u/p"));
    assert!(matches!(run.advance(InitEvent::Flag(false)), InitAction::Canonicalize(_)));
}

#[test]
fn init_of_a_foreign_link_follows_it() {
    let (mut run, _) = InitRun::init("/home/u/p", "/mnt/ckpt", "/data/ws-ckpt");
    // The name only begins alike: it is another directory.
    let next = run.advance(text("/data/ws-ckpt-other/x"));
    assert!(matches!(next, InitAction::Canonicalize(_)));
}

#[test]
fn init_of_a_managed_path_below_the_mount_is_answered() {
    let (mut run, _) = InitRun::init("/mnt/ckpt/p/", "/mnt/ckpt", "/data/ws-ckpt");
    assert!(matches!(run.advance(text("/elsewhere")), InitAction::Canonicalize(p) if p == "/mnt/ckpt/p"));
    assert!(matches!(run.advance(text("/mnt/ckpt/p")), InitAction::Stat(_)));
    assert!(matches!(run.advance(InitEvent::Kind(Some(true))), InitAction::FindByPath(_)));
    match run.advance(text("ws-000001")) {
        InitAction::Reply(Response::InitOk { ws_id }) => assert_eq!(ws_id, "ws-000001"),
        other => panic!("got: {:?}", other),
    }
}

#[test]
fn init_of_a_path_that_cannot_be_looked_at_is_refused() {
    let mut run = start("/home/u/p", "/mnt/ckpt");
    run.advance(text("/home/u/p"));
    match run.advance(InitEvent::Kind(None)) {
        InitAction::Reply(Response::Error { code, message }) => {
            assert_eq!(code, ErrorCode::InvalidPath);
            assert_eq!(message, "cannot stat path: /home/u/p");
        }
        other => panic!("got: {:?}", other),
    }
}

#[test]
fn slashes_at_the_end_are_dropped_but_for_the_root() {
    assert_eq!(strip_trailing_slashes("/a/b///"), "/a/b");
    assert_eq!(strip_trailing_slashes("/"), "/");
    assert_eq!(strip_trailing_slashes("///"), "/");
    assert_eq!(strip_trailing_slashes("a"), "a");
}

#[test]
fn number_of_a_digest_is_its_first_three_bytes() {
    for path in ["", "/home/user", "/home/用户/项目"] {
        assert_eq!(generate_ws_id_base(path).len(), 9);
    }
    assert_eq!(base_of_digest(&vec![0xab, 0x00, 0x1f, 0xff]), "ws-ab001f");
    assert_eq!(format_candidate("ws-ab001f", 10), "ws-ab001f-10");
}

#[test]
fn recovered_index_is_loaded_rebuilt_or_empty() {
    let mut loaded = SnapshotIndex::new("/l".to_string());
    loaded.snapshots.insert("s".to_string(), meta(false, 1));
    assert!(!needs_rebuild(&Some(loaded.clone())));
    assert!(needs_rebuild(&Some(SnapshotIndex::new("/l".to_string()))));
    assert!(needs_rebuild(&None));
    let (i, _) = recovered_index(Some(loaded.clone()), None, "/p");
    assert_eq!(i.snapshots.len(), 1);
    let (i, _) = recovered_index(None, Some(loaded.clone()), "/p");
    assert_eq!(i.snapshots.len(), 1);
    let (i, _) = recovered_index(None, None, "/p");
    assert_eq!((i.snapshots.len(), i.workspace_path.as_str()), (0, "/p"));
    assert_eq!(initial_index(Some(loaded), "/p").workspace_path, "/l");
    let empty = SnapshotIndex::new("/e".to_string());
    assert_eq!(initial_index(Some(empty), "/p").workspace_path, "/p");
}

// ── delete ──

#[test]
fn pinned_snapshot_is_only_deleted_with_force() {
    let mut ws = workspace("ws-1", "/p");
    ws.index.snapshots.insert("keep".to_string(), meta(true, 1));
    ws.index.snapshots.insert("drop".to_string(), meta(false, 2));
    match delete_plan(Some(&ws), "ws-1", "keep", false) {
        Err(Response::Error { code, .. }) => assert_eq!(code, ErrorCode::ConfirmationRequired),
        other => panic!("got: {:?}", other),
    }
    let plan = delete_plan(Some(&ws), "ws-1", "ke", true).unwrap();
    assert_eq!(plan.snapshot_id, "keep");
    let resp = delete_done(&mut ws.index, plan);
    assert!(matches!(resp, Response::DeleteOk { target } if target == "keep"));
    assert!(!ws.index.snapshots.contains_key("keep"));
    assert!(ws.index.snapshots.contains_key("drop"));
    match delete_plan(Some(&ws), "ws-1", "keep", true) {
        Err(Response::Error { code, .. }) => assert_eq!(code, ErrorCode::SnapshotNotFound),
        other => panic!("got: {:?}", other),
    }
}

#[test]
fn deleting_a_checkpoint_undoes_it() {
    let mut ws = workspace("ws-1", "/p");
    ws.index.snapshots.insert("old".to_string(), meta(false, 1));
    record_parsed(&mut ws.index, "new", None, None, false, 2);
    assert_eq!(ws.index.snapshots.len(), 2);
    let plan = delete_plan(Some(&ws), "ws-1", "new", false).unwrap();
    delete_done(&mut ws.index, plan);
    assert_eq!(ws.index.snapshots.len(), 1);
    assert_eq!(ws.index.snapshots.get("old").map(|m| m.created_at), Some(1));
}

// ── background work ──

fn dir_entry(name: &str, subvolume_deleted: bool, directory_removed: bool) -> OrphanEntry {
    OrphanEntry {
        name: name.to_string(),
        path: format!("/data/{name}"),
        subvolume_deleted,
        directory_removed,
    }
}

#[test]
fn cleanup_orphans_removes_rollback_tmp() {
    let cleaned = cleanup_orphans(&vec![
        dir_entry("ws-abc123.rollback-tmp", false, true),
        dir_entry("ws-normal", false, true),
    ]);
    assert_eq!(cleaned.len(), 1);
    assert!(is_orphan("ws-abc123.rollback-tmp"), "rollback-tmp should be removed");
    assert!(!is_orphan("ws-normal"), "normal directory should remain");
}

#[test]
fn cleanup_orphans_empty_dir() {
    let cleaned = cleanup_orphans(&vec![]);
    assert!(cleaned.is_empty());
}

#[test]
fn cleanup_orphans_only_normal_dirs() {
    let cleaned = cleanup_orphans(&vec![
        dir_entry("ws-abc", false, true),
        dir_entry("snapshots", false, true),
    ]);
    assert!(cleaned.is_empty());
}

#[test]
fn orphan_that_could_not_be_removed_is_not_reported() {
    let cleaned = cleanup_orphans(&vec![
        dir_entry("a.rollback-tmp", true, false),
        dir_entry("b.rollback-tmp", false, false),
    ]);
    assert_eq!(cleaned, vec!["/data/a.rollback-tmp".to_string()]);
}

#[test]
fn loops_park_where_there_is_nothing_to_do() {
    assert_eq!(auto_cleanup_wait(true, 60, false), LoopStep::Sleep(60));
    assert_eq!(auto_cleanup_wait(false, 60, false), LoopStep::Park);
    assert_eq!(auto_cleanup_wait(true, 0, false), LoopStep::Park);
    assert_eq!(auto_cleanup_wait(true, 60, true), LoopStep::Park);
    assert_eq!(health_check_wait(0), LoopStep::Park);
    assert_eq!(health_check_wait(5), LoopStep::Sleep(5));
    assert!(pass_is_due(Wake::Slept));
    assert!(!pass_is_due(Wake::ConfigChanged));
}

#[test]
fn automatic_cleanup_by_age_takes_exactly_the_older_ones() {
    let now: i128 = 1_700_000_000_000_000_000;
    let mut index = SnapshotIndex::new("/p".to_string());
    index.snapshots.insert("old".to_string(), meta(false, now - 61_000_000_000));
    index.snapshots.insert("edge".to_string(), meta(false, now - 60_000_000_000));
    index.snapshots.insert("new".to_string(), meta(false, now));
    index.snapshots.insert("pin".to_string(), meta(true, 0));
    let victims = auto_cleanup_victims(&index, CleanupRetention::Age { secs: 60 }, now);
    assert_eq!(victims, vec!["old".to_string()]);
    let victims = auto_cleanup_victims(&index, CleanupRetention::Count(1), now);
    assert_eq!(victims, vec!["old".to_string(), "edge".to_string()]);
    assert_eq!(auto_cleanup_done(&mut index, victims), 2);
    assert_eq!(index.snapshots.len(), 2);
}

#[test]
fn age_before_all_time_takes_nothing() {
    let now: i128 = 1_700_000_000_000_000_000;
    let mut index = SnapshotIndex::new("/p".to_string());
    index.snapshots.insert("new".to_string(), meta(false, now));
    index.snapshots.insert("old".to_string(), meta(false, 0));
    for secs in [u64::MAX, 1 << 63, i64::MAX as u64, 1_700_000_000] {
        let victims = auto_cleanup_victims(&index, CleanupRetention::Age { secs }, now);
        assert!(victims.is_empty(), "{secs}");
    }
    let victims = auto_cleanup_victims(&index, CleanupRetention::Age { secs: 1_699_999_999 }, now);
    assert_eq!(victims, vec!["old".to_string()]);
    let first = auto_cleanup_victims(&index, CleanupRetention::Age { secs: 1 }, i128::MIN);
    assert!(first.is_empty());
}

#[test]
fn health_check_compares_where_there_is_something_to_compare() {
    assert_eq!(health_check_step(0, Some((10, 5))), HealthStep::Skip);
    assert_eq!(health_check_step(1, None), HealthStep::Failed);
    assert_eq!(health_check_step(1, Some((0, 0))), HealthStep::Nothing);
    assert_eq!(
        health_check_step(1, Some((10, 5))),
        HealthStep::Compare { total: 10, used: 5 }
    );
}
