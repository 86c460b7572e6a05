use anolisa::ws_ckpt::index::{
    sort_by_age, ResolveError, SnapshotEntry, SnapshotIndex, SnapshotMeta,
};
use anolisa::ws_ckpt::protocol::{
    snapshot_resolve_error_response, ErrorCode, Response, Workspace,
};
use anolisa::ws_ckpt::snapshot_mgr::{
    checkpoint_check, checkpoint_empty, checkpoint_record, cleanup_done, cleanup_plan, diff_plan,
    list_all_snapshots, list_snapshots, oldest_beyond, oldest_first, parse_metadata,
    record_parsed, resolve_snapshot_id, rollback_done, rollback_plan,
};

/// A moment, in nanoseconds since the epoch.
const NOW: i128 = 1_700_000_000_000_000_000;
const SECOND: i128 = 1_000_000_000;

fn make_snapshot_meta(pinned: bool) -> SnapshotMeta {
    make_snapshot_meta_at(pinned, NOW)
}

fn make_snapshot_meta_at(pinned: bool, created_at: i128) -> SnapshotMeta {
    SnapshotMeta { message: None, metadata: None, pinned, created_at, missing: false }
}

fn workspace(ws_id: &str, path: &str, index: SnapshotIndex) -> Workspace {
    Workspace { ws_id: ws_id.to_string(), path: path.to_string(), index }
}

fn refusal(resp: Response) -> (ErrorCode, String) {
    match resp {
        Response::Error { code, message } => (code, message),
        other => panic!("expected a refusal, got: {:?}", other),
    }
}

#[test]
fn snapshot_id_uniqueness_check() {
    let mut index = SnapshotIndex::new("/ws".to_string());
    index.snapshots.insert("existing-id".to_string(), make_snapshot_meta(false));
    assert!(index.snapshots.contains_key("existing-id"));
    assert!(!index.snapshots.contains_key("new-id"));
}

#[test]
fn rollback_target_by_id_found() {
    let mut index = SnapshotIndex::new("/ws".to_string());
    index.snapshots.insert(
        "abcdef1234567890abcdef1234567890abcdef12".to_string(),
        make_snapshot_meta(false),
    );

    // Resolve by exact ID
    assert!(index.resolve_by_prefix("abcdef1234567890abcdef1234567890abcdef12").is_ok());
}

#[test]
fn rollback_target_by_prefix_found() {
    let mut index = SnapshotIndex::new("/ws".to_string());
    index.snapshots.insert(
        "abcdef1234567890abcdef1234567890abcdef12".to_string(),
        make_snapshot_meta(true),
    );

    // Resolve by prefix
    let result = index.resolve_by_prefix("abcdef");
    assert!(result.is_ok());
    let (id, _) = result.unwrap();
    assert_eq!(id, "abcdef1234567890abcdef1234567890abcdef12");
}

#[test]
fn rollback_target_not_found() {
    let mut index = SnapshotIndex::new("/ws".to_string());
    index.snapshots.insert(
        "abcdef1234567890abcdef1234567890abcdef12".to_string(),
        make_snapshot_meta(false),
    );

    // Target doesn't match any prefix
    assert!(index.resolve_by_prefix("zzz999").is_err());
}

#[test]
fn rollback_resolution_prefers_exact_over_prefix() {
    // If target matches as exact ID, it should be preferred over prefix
    let mut index = SnapshotIndex::new("/ws".to_string());
    index.snapshots.insert(
        "abcdef1234567890abcdef1234567890abcdef12".to_string(),
        make_snapshot_meta(false),
    );

    // Exact match
    let result = index.resolve_by_prefix("abcdef1234567890abcdef1234567890abcdef12");
    assert!(result.is_ok());
}

#[test]
fn checkpoint_duplicate_id_returns_already_exists() {
    // A workspace with an existing snapshot
    let mut index = SnapshotIndex::new("/home/user/ws".to_string());
    index.snapshots.insert("existing-id".to_string(), make_snapshot_meta(false));
    let ws = workspace("ws-dup", "/home/user/ws", index);

    let resp = checkpoint_check(Some(&ws), "ws-dup", "existing-id", true).unwrap_err();
    match resp {
        Response::Error { code, message } => {
            assert_eq!(code, ErrorCode::SnapshotAlreadyExists);
            assert!(message.contains("existing-id"));
        }
        _ => panic!("expected SnapshotAlreadyExists error"),
    }
}

#[test]
fn snapshot_pinned_flag_logic() {
    // Pinned is set directly via `pin`
    let meta_pinned = make_snapshot_meta(true);
    assert!(meta_pinned.pinned);

    let meta_unpinned = make_snapshot_meta(false);
    assert!(!meta_unpinned.pinned);
}

#[test]
fn checkpoint_nonexistent_path_returns_workspace_not_found() {
    let resp = checkpoint_check(None, "/nonexistent/ws/12345", "snap-1", true).unwrap_err();
    match resp {
        Response::Error { code, .. } => assert_eq!(code, ErrorCode::WorkspaceNotFound),
        _ => panic!("expected WorkspaceNotFound error"),
    }
}

#[test]
fn checkpoint_unregistered_workspace_returns_workspace_not_found() {
    let resp = checkpoint_check(None, "/tmp/unregistered", "snap-1", true).unwrap_err();
    match resp {
        Response::Error { code, .. } => assert_eq!(code, ErrorCode::WorkspaceNotFound),
        _ => panic!("expected WorkspaceNotFound error"),
    }
}

#[test]
fn rollback_nonexistent_path_returns_workspace_not_found() {
    let resp = rollback_plan(None, "/nonexistent/ws/12345", None, "msg1-step0").unwrap_err();
    match resp {
        Response::Error { code, .. } => assert_eq!(code, ErrorCode::WorkspaceNotFound),
        _ => panic!("expected WorkspaceNotFound error"),
    }
}

#[test]
fn rollback_unregistered_workspace_returns_workspace_not_found() {
    let resp = rollback_plan(None, "/tmp/unregistered", None, "msg1-step0").unwrap_err();
    match resp {
        Response::Error { code, .. } => assert_eq!(code, ErrorCode::WorkspaceNotFound),
        _ => panic!("expected WorkspaceNotFound error"),
    }
}

#[test]
fn snapshot_id_uniqueness_in_index() {
    let mut index = SnapshotIndex::new("/ws".to_string());
    index.snapshots.insert("snap-1".to_string(), make_snapshot_meta(false));
    // Duplicate check should detect existing ID
    assert!(index.snapshots.contains_key("snap-1"));
    // New ID should not exist
    assert!(!index.snapshots.contains_key("snap-2"));
}

#[test]
fn resolve_by_prefix_with_multiple_snapshots() {
    let mut index = SnapshotIndex::new("/ws".to_string());
    index.snapshots.insert(
        "aaa1111111111111111111111111111111111111".to_string(),
        make_snapshot_meta(true),
    );
    index.snapshots.insert(
        "bbb2222222222222222222222222222222222222".to_string(),
        make_snapshot_meta(true),
    );
    index.snapshots.insert(
        "ccc3333333333333333333333333333333333333".to_string(),
        make_snapshot_meta(false),
    );

    let result = index.resolve_by_prefix("bbb");
    assert!(result.is_ok());
    let (id, _) = result.unwrap();
    assert_eq!(id, "bbb2222222222222222222222222222222222222");
}

#[test]
fn snapshot_meta_pinned_logic() {
    let pinned = SnapshotMeta {
        message: Some("Release v1".to_string()),
        metadata: None,
        pinned: true,
        created_at: NOW,
        missing: false,
    };
    assert!(pinned.pinned);

    let unpinned = SnapshotMeta {
        message: None,
        metadata: None,
        pinned: false,
        created_at: NOW,
        missing: false,
    };
    assert!(!unpinned.pinned);
}

#[test]
fn list_sorting_by_created_at() {
    let mut index = SnapshotIndex::new("/ws".to_string());
    index
        .snapshots
        .insert("snap-b".to_string(), make_snapshot_meta_at(false, NOW - 10 * SECOND));
    index
        .snapshots
        .insert("snap-a".to_string(), make_snapshot_meta_at(false, NOW - 30 * SECOND));
    index.snapshots.insert("snap-c".to_string(), make_snapshot_meta_at(false, NOW));

    let snapshots = sort_by_age(index.entries(false));

    assert_eq!(snapshots[0].id, "snap-a");
    assert_eq!(snapshots[1].id, "snap-b");
    assert_eq!(snapshots[2].id, "snap-c");
}

#[test]
fn list_empty_index_returns_empty() {
    let index = SnapshotIndex::new("/ws".to_string());
    let snapshots = index.entries(false);
    assert!(snapshots.is_empty());
}

#[test]
fn cleanup_strategy_keeps_recent_unpinned() {
    let mut index = SnapshotIndex::new("/ws".to_string());
    // Add 5 unpinned snapshots
    for i in 0..5 {
        index.snapshots.insert(
            format!("snap{}", i),
            make_snapshot_meta_at(false, NOW - (50 - i * 10) * SECOND),
        );
    }

    let keep = 3usize;
    let to_remove = oldest_beyond(&index, keep);

    assert_eq!(to_remove.len(), 2); // 5 - 3 = 2 to remove
    assert_eq!(to_remove, vec!["snap0".to_string(), "snap1".to_string()]);
}

#[test]
fn cleanup_strategy_pinned_snapshots_are_protected() {
    let mut index = SnapshotIndex::new("/ws".to_string());
    // 2 pinned (old) + 3 unpinned
    index
        .snapshots
        .insert("snap-old1".to_string(), make_snapshot_meta_at(true, NOW - 100 * SECOND));
    index
        .snapshots
        .insert("snap-old2".to_string(), make_snapshot_meta_at(true, NOW - 200 * SECOND));
    for i in 2..5 {
        index.snapshots.insert(
            format!("snap{}", i),
            make_snapshot_meta_at(false, NOW - (50 - i * 10) * SECOND),
        );
    }

    let keep = 2usize;
    let to_remove = oldest_beyond(&index, keep);

    // Only 1 unpinned should be removed (3 unpinned - 2 keep = 1)
    assert_eq!(to_remove.len(), 1);
    // Pinned snapshots should NOT appear in to_remove
    assert!(!to_remove.iter().any(|id| id == "snap-old1" || id == "snap-old2"));
}

#[test]
fn cleanup_strategy_fewer_than_keep_removes_nothing() {
    let mut index = SnapshotIndex::new("/ws".to_string());
    for i in 0..3 {
        index.snapshots.insert(
            format!("snap{}", i),
            make_snapshot_meta_at(false, NOW - i * 10 * SECOND),
        );
    }

    let keep = 20usize;
    let to_remove = oldest_beyond(&index, keep);

    assert!(to_remove.is_empty());
}

#[test]
fn resolve_snapshot_id_by_id() {
    let mut index = SnapshotIndex::new("/ws".to_string());
    index.snapshots.insert(
        "abcdef1234567890abcdef1234567890abcdef12".to_string(),
        make_snapshot_meta(false),
    );
    let result = resolve_snapshot_id(&index, "abcdef1234567890abcdef1234567890abcdef12");
    assert_eq!(result.unwrap(), "abcdef1234567890abcdef1234567890abcdef12");
}

#[test]
fn resolve_snapshot_id_by_prefix() {
    let mut index = SnapshotIndex::new("/ws".to_string());
    index.snapshots.insert(
        "abcdef1234567890abcdef1234567890abcdef12".to_string(),
        make_snapshot_meta(false),
    );
    let result = resolve_snapshot_id(&index, "abcdef");
    assert_eq!(result.unwrap(), "abcdef1234567890abcdef1234567890abcdef12");
}

#[test]
fn resolve_snapshot_id_not_found() {
    let index = SnapshotIndex::new("/ws".to_string());
    let result = resolve_snapshot_id(&index, "nonexistent");
    assert_eq!(result.unwrap_err(), ResolveError::NotFound);
}

#[test]
fn resolve_snapshot_id_ambiguous_prefix() {
    let mut index = SnapshotIndex::new("/ws".to_string());
    index.snapshots.insert("abcd111".to_string(), make_snapshot_meta(false));
    index.snapshots.insert("abcd222".to_string(), make_snapshot_meta(false));
    assert_eq!(
        resolve_snapshot_id(&index, "abcd").unwrap_err(),
        ResolveError::Ambiguous(2)
    );
}

#[test]
fn diff_snapshots_missing_id_returns_snapshot_not_found() {
    let mut index = SnapshotIndex::new("/home/user/ws".to_string());
    index.snapshots.insert("real-id".to_string(), make_snapshot_meta(false));
    let ws = workspace("ws-diff", "/home/user/ws", index);

    let resp = diff_plan(Some(&ws), "ws-diff", "does-not-exist", "real-id").unwrap_err();
    match resp {
        Response::Error { code, message } => {
            assert_eq!(code, ErrorCode::SnapshotNotFound);
            assert!(message.contains("does-not-exist"), "got: {}", message);
        }
        other => panic!("expected SnapshotNotFound, got: {:?}", other),
    }

    // Also covers the `to`-side branch.
    let resp = diff_plan(Some(&ws), "ws-diff", "real-id", "missing-to").unwrap_err();
    match resp {
        Response::Error { code, message } => {
            assert_eq!(code, ErrorCode::SnapshotNotFound);
            assert!(message.contains("missing-to"), "got: {}", message);
        }
        other => panic!("expected SnapshotNotFound, got: {:?}", other),
    }
}

fn sample() -> Workspace {
    let mut index = SnapshotIndex::new("/home/user/ws".to_string());
    index.snapshots.insert("abc-1".to_string(), make_snapshot_meta_at(false, NOW - 3 * SECOND));
    index.snapshots.insert("abc-2".to_string(), make_snapshot_meta_at(true, NOW - 2 * SECOND));
    index.snapshots.insert("abc".to_string(), make_snapshot_meta_at(false, NOW - SECOND));
    let mut lost = make_snapshot_meta(false);
    lost.missing = true;
    index.snapshots.insert("lost".to_string(), lost);
    workspace("ws-1", "/home/user/ws", index)
}

#[test]
fn exact_number_wins_over_longer_ones() {
    let ws = sample();
    assert_eq!(resolve_snapshot_id(&ws.index, "abc").unwrap(), "abc");
    assert_eq!(
        resolve_snapshot_id(&ws.index, "ab").unwrap_err(),
        ResolveError::Ambiguous(3)
    );
    assert_eq!(resolve_snapshot_id(&ws.index, "abc-2").unwrap(), "abc-2");
}

#[test]
fn busy_workspace_gets_no_checkpoint() {
    let ws = sample();
    let (code, message) = refusal(checkpoint_check(Some(&ws), "ws-1", "abc", false).unwrap_err());
    assert_eq!(code, ErrorCode::WriteLockConflict);
    assert_eq!(message, "Workspace has active write operations. Please wait and retry.");
    assert!(checkpoint_check(Some(&ws), "ws-1", "new", true).is_ok());
}

#[test]
fn empty_workspace_gets_no_checkpoint() {
    assert!(checkpoint_empty(false).is_none());
    match checkpoint_empty(true) {
        Some(Response::CheckpointSkipped { reason }) => {
            assert_eq!(reason, "Empty workspace, no snapshot created.");
        }
        other => panic!("expected a skip, got: {:?}", other),
    }
}

#[test]
fn metadata_is_read_and_written_compactly() {
    assert_eq!(parse_metadata(&None), Ok(None));
    assert_eq!(
        parse_metadata(&Some(" { \"b\" : [ 1, 2 ] , \"a\" : null } ".to_string())),
        Ok(Some("{\"a\":null,\"b\":[1,2]}".to_string()))
    );
    assert_eq!(
        parse_metadata(&Some("{".to_string())).unwrap_err().text,
        "EOF while parsing an object at line 1 column 1"
    );
    assert_eq!(
        parse_metadata(&Some("[1]\n x".to_string())).unwrap_err().text,
        "trailing characters at line 2 column 2"
    );
}

#[test]
fn recorded_checkpoint_can_be_listed_and_named() {
    let mut ws = sample();
    let resp = checkpoint_record(
        &mut ws.index,
        "new-1",
        Some("hello".to_string()),
        &Some("[ 1 ]".to_string()),
        true,
        NOW,
    )
    .unwrap();
    assert!(matches!(resp, Response::CheckpointOk { snapshot_id } if snapshot_id == "new-1"));
    let meta = ws.index.snapshots.get("new-1").unwrap();
    assert_eq!(meta.message.as_deref(), Some("hello"));
    assert_eq!(meta.metadata.as_deref(), Some("[1]"));
    assert!(meta.pinned && !meta.missing);
    assert_eq!(meta.created_at, NOW);
    assert_eq!(resolve_snapshot_id(&ws.index, "new").unwrap(), "new-1");
    assert_eq!(ws.index.snapshots.len(), 5);
}

#[test]
fn bad_metadata_records_nothing() {
    let mut ws = sample();
    let r = checkpoint_record(&mut ws.index, "new-1", None, &Some("{".to_string()), false, NOW);
    assert_eq!(r.unwrap_err().text, "EOF while parsing an object at line 1 column 1");
    assert_eq!(ws.index.snapshots.len(), 4);
}

#[test]
fn entries_of_the_same_time_keep_their_order() {
    let entry = |id: &str, created_at: i128| SnapshotEntry {
        id: id.to_string(),
        workspace: "/ws".to_string(),
        meta: make_snapshot_meta_at(false, created_at),
    };
    let sorted = sort_by_age(vec![
        entry("c", 5),
        entry("z", 3),
        entry("b", 5),
        entry("a", 3),
        entry("d", 5),
        entry("first", 1),
    ]);
    let ids: Vec<&str> = sorted.iter().map(|e| e.id.as_str()).collect();
    assert_eq!(ids, vec!["first", "z", "a", "c", "b", "d"]);
}

#[test]
fn record_of_read_metadata_keeps_it() {
    let mut index = SnapshotIndex::new("/ws".to_string());
    let resp = record_parsed(&mut index, "s", None, Some("{}".to_string()), false, NOW);
    assert!(matches!(resp, Response::CheckpointOk { .. }));
    assert_eq!(index.snapshots.get("s").unwrap().metadata.as_deref(), Some("{}"));
}

#[test]
fn rollback_goes_to_the_resolved_snapshot() {
    let ws = sample();
    let plan = rollback_plan(Some(&ws), "ws-1", None, "abc-1").unwrap();
    assert_eq!((plan.ws_id.as_str(), plan.snapshot_id.as_str()), ("ws-1", "abc-1"));
    match rollback_done(plan) {
        Response::RollbackOk { from, to } => {
            assert_eq!((from.as_str(), to.as_str()), ("ws-1", "abc-1"));
        }
        other => panic!("got: {:?}", other),
    }
}

#[test]
fn rollback_into_an_occupied_workspace_is_refused() {
    let ws = sample();
    let busy = Response::Error { code: ErrorCode::WriteLockConflict, message: "busy".to_string() };
    let (code, message) =
        refusal(rollback_plan(Some(&ws), "ws-1", Some(busy), "nope").unwrap_err());
    assert_eq!(code, ErrorCode::WriteLockConflict);
    assert_eq!(message, "busy");
}

#[test]
fn rollback_to_a_lost_snapshot_is_refused() {
    let ws = sample();
    let (code, message) = refusal(rollback_plan(Some(&ws), "ws-1", None, "lo").unwrap_err());
    assert_eq!(code, ErrorCode::SnapshotNotFound);
    assert_eq!(
        message,
        "Snapshot 'lost' subvolume is missing (data lost). Use 'ws-ckpt delete --force \
         -w <workspace> -s lost' to remove the record."
    );
}

#[test]
fn unresolved_references_are_explained() {
    let (code, message) =
        refusal(snapshot_resolve_error_response("x", ResolveError::NotFound));
    assert_eq!(code, ErrorCode::SnapshotNotFound);
    assert_eq!(message, "snapshot not found: x");
    let (_, message) = refusal(snapshot_resolve_error_response("x", ResolveError::Ambiguous(12)));
    assert_eq!(message, "ambiguous snapshot prefix 'x': 12 matches");
}

fn ids(entries: &[SnapshotEntry]) -> Vec<&str> {
    entries.iter().map(|e| e.id.as_str()).collect()
}

#[test]
fn lists_run_from_the_oldest_to_the_newest() {
    let ws = sample();
    match list_snapshots(Some(&ws), "ws-1") {
        Response::ListOk { snapshots } => {
            assert_eq!(ids(&snapshots), vec!["abc-1", "abc-2", "abc", "lost"]);
            assert_eq!(snapshots[0].workspace, "/home/user/ws");
        }
        other => panic!("got: {:?}", other),
    }
    let (code, _) = refusal(list_snapshots(None, "ws-9"));
    assert_eq!(code, ErrorCode::WorkspaceNotFound);
    assert_eq!(ids(&oldest_first(&ws.index, true)), vec!["abc-1", "abc", "lost"]);
}

#[test]
fn list_of_all_workspaces_is_sorted_as_a_whole() {
    let mut a = SnapshotIndex::new("/a".to_string());
    a.snapshots.insert("a1".to_string(), make_snapshot_meta_at(false, NOW));
    let mut b = SnapshotIndex::new("/b".to_string());
    b.snapshots.insert("b1".to_string(), make_snapshot_meta_at(false, NOW - SECOND));
    b.snapshots.insert("b2".to_string(), make_snapshot_meta_at(false, NOW + SECOND));
    match list_all_snapshots(&vec![a, b]) {
        Response::ListOk { snapshots } => {
            assert_eq!(ids(&snapshots), vec!["b1", "a1", "b2"]);
            assert_eq!(snapshots[1].workspace, "/a");
        }
        other => panic!("got: {:?}", other),
    }
}

#[test]
fn diff_resolves_both_sides() {
    let ws = sample();
    let plan = diff_plan(Some(&ws), "ws-1", "abc-1", "lo").unwrap();
    assert_eq!(
        (plan.ws_id.as_str(), plan.from_id.as_str(), plan.to_id.as_str()),
        ("ws-1", "abc-1", "lost")
    );
    let (code, _) = refusal(diff_plan(None, "ws-9", "a", "b").unwrap_err());
    assert_eq!(code, ErrorCode::WorkspaceNotFound);
}

#[test]
fn cleanup_keeps_twenty_where_nothing_is_said() {
    let mut index = SnapshotIndex::new("/ws".to_string());
    for i in 0..23 {
        index.snapshots.insert(format!("s{i:02}"), make_snapshot_meta_at(false, NOW + i));
    }
    let ws = workspace("ws-1", "/ws", index);
    let plan = cleanup_plan(Some(&ws), "ws-1", None).unwrap();
    assert_eq!(plan.to_remove, vec!["s00".to_string(), "s01".to_string(), "s02".to_string()]);
    assert_eq!(cleanup_plan(Some(&ws), "ws-1", Some(22)).unwrap().to_remove.len(), 1);
    assert_eq!(cleanup_plan(Some(&ws), "ws-1", Some(0)).unwrap().to_remove.len(), 23);
    let (code, _) = refusal(cleanup_plan(None, "x", None).unwrap_err());
    assert_eq!(code, ErrorCode::WorkspaceNotFound);
}

#[test]
fn cleanup_takes_what_was_removed_out_of_the_index() {
    let mut ws = sample();
    let (resp, save) = cleanup_done(&mut ws.index, vec!["abc-1".to_string(), "abc".to_string()]);
    assert!(save);
    assert!(matches!(resp, Response::CleanupOk { removed } if removed.len() == 2));
    assert_eq!(ws.index.snapshots.len(), 2);
    let (_, save) = cleanup_done(&mut ws.index, vec![]);
    assert!(!save);
}
