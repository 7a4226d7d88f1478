use std::collections::HashMap;
use std::sync::Mutex;

use subreader::hlc::{lww_resolve, HlcTimestamp};
use subreader::sync_engine::{
    cursor_from_meta, finish_page, page_outcome, plan_push_batches, push_batch_done, pull_page_plan, PullResult, PullStep, RemoteOp,
    SyncEngine, SyncError, SyncStorage, UnsyncedOp,
};

struct MockStorage {
    unsynced_ops: Mutex<Vec<UnsyncedOp>>,
    synced_ids: Mutex<Vec<i64>>,
    meta: Mutex<HashMap<String, String>>,
    applied_ops: Mutex<Vec<String>>,
    fail_apply: bool,
}

impl MockStorage {
    fn new() -> Self {
        MockStorage {
            unsynced_ops: Mutex::new(Vec::new()),
            synced_ids: Mutex::new(Vec::new()),
            meta: Mutex::new(HashMap::new()),
            applied_ops: Mutex::new(Vec::new()),
            fail_apply: false,
        }
    }
}

impl SyncStorage for MockStorage {
    fn get_unsynced_ops(&self) -> Result<Vec<UnsyncedOp>, SyncError> {
        let ops = self.unsynced_ops.lock().unwrap();
        Ok(ops
            .iter()
            .map(|o| UnsyncedOp {
                local_id: o.local_id,
                op_id: o.op_id.clone(),
                op_type: o.op_type.clone(),
                op_data: o.op_data.clone(),
                hlc_ts: o.hlc_ts,
                device_id: o.device_id.clone(),
            })
            .collect())
    }

    fn mark_ops_synced(&self, local_ids: &[i64]) -> Result<(), SyncError> {
        self.synced_ids.lock().unwrap().extend_from_slice(local_ids);
        Ok(())
    }

    fn get_sync_meta(&self, key: &str) -> Result<Option<String>, SyncError> {
        Ok(self.meta.lock().unwrap().get(key).cloned())
    }

    fn set_sync_meta(&self, key: &str, value: &str) -> Result<(), SyncError> {
        self.meta.lock().unwrap().insert(key.to_string(), value.to_string());
        Ok(())
    }

    fn apply_remote_op(&self, op: &RemoteOp) -> Result<bool, SyncError> {
        if self.fail_apply {
            return Err(SyncError::Storage("boom".to_string()));
        }
        self.applied_ops.lock().unwrap().push(op.op_id.clone());
        Ok(true)
    }
}

fn remote(seq: i64, id: &str, device: &str) -> RemoteOp {
    RemoteOp {
        server_seq: seq,
        op_id: id.to_string(),
        op_type: "AddBookmark".to_string(),
        op_data: "{}".to_string(),
        hlc_ts: 5000 << 16,
        device_id: device.to_string(),
    }
}

fn unsynced(id: i64) -> UnsyncedOp {
    UnsyncedOp {
        local_id: id,
        op_id: format!("op-{}", id),
        op_type: "UpdateProgress".to_string(),
        op_data: "{}".to_string(),
        hlc_ts: 1000,
        device_id: "dev-1".to_string(),
    }
}

#[test]
fn test_lww_resolve_remote_wins() {
    assert!(lww_resolve(1000, 2000));
}

#[test]
fn test_lww_resolve_local_wins() {
    assert!(!lww_resolve(2000, 1000));
}

#[test]
fn test_lww_resolve_tie_local_wins() {
    assert!(!lww_resolve(1000, 1000));
}

#[test]
fn test_engine_device_id() {
    let storage = MockStorage::new();
    let engine = SyncEngine::new(storage, "my-device".into(), 42);
    assert_eq!(engine.device_id(), "my-device");
}

#[test]
fn test_engine_tick_advances_clock() {
    let storage = MockStorage::new();
    let mut engine = SyncEngine::new(storage, "dev-1".into(), 1);
    let ts1 = engine.tick();
    let ts2 = engine.tick();
    assert!(ts2 > ts1);
}

#[test]
fn test_hlc_timestamp_ordering() {
    let ts1 = HlcTimestamp::new(1000, 1);
    let ts2 = HlcTimestamp::new(2000, 1);
    assert!(ts1 < ts2);
}

#[test]
fn test_hlc_timestamp_u64_roundtrip() {
    let ts = HlcTimestamp { wall_time_ms: 1234567890, counter: 42, node_id: 7 };
    let encoded = ts.to_u64();
    let decoded = HlcTimestamp::from_u64(encoded, 7);
    assert_eq!(decoded.wall_time_ms, ts.wall_time_ms);
    assert_eq!(decoded.counter, ts.counter);
}

#[test]
fn test_hlc_timestamp_zero() {
    let ts = HlcTimestamp::zero();
    assert_eq!(ts.wall_time_ms, 0);
    assert_eq!(ts.counter, 0);
    assert_eq!(ts.node_id, 0);
    let real_ts = HlcTimestamp::new(1, 1);
    assert!(ts < real_ts);
}

#[test]
fn test_hlc_timestamp_ordering_same_wall_time() {
    let ts1 = HlcTimestamp { wall_time_ms: 1000, counter: 1, node_id: 1 };
    let ts2 = HlcTimestamp { wall_time_ms: 1000, counter: 2, node_id: 1 };
    assert!(ts1 < ts2);
}

#[test]
fn test_hlc_timestamp_ordering_same_wall_time_same_counter() {
    let ts1 = HlcTimestamp { wall_time_ms: 1000, counter: 1, node_id: 1 };
    let ts2 = HlcTimestamp { wall_time_ms: 1000, counter: 1, node_id: 2 };
    assert!(ts1 < ts2);
}

#[test]
fn hlc_tick_moves_to_later_wall_time() {
    let ts = HlcTimestamp { wall_time_ms: 1000, counter: 7, node_id: 3 };
    let next = ts.tick(2000);
    assert_eq!(next, HlcTimestamp { wall_time_ms: 2000, counter: 0, node_id: 3 });
    let same = ts.tick(500);
    assert_eq!(same, HlcTimestamp { wall_time_ms: 1000, counter: 8, node_id: 3 });
    assert!(same > ts);
}

#[test]
fn hlc_merge_dominates_both_sides() {
    let local = HlcTimestamp { wall_time_ms: 1000, counter: 3, node_id: 1 };
    let remote = HlcTimestamp { wall_time_ms: 1000, counter: 9, node_id: 2 };
    let m = local.merge(&remote, 900);
    assert_eq!(m, HlcTimestamp { wall_time_ms: 1000, counter: 10, node_id: 1 });
    let m2 = local.merge(&remote, 5000);
    assert_eq!(m2, HlcTimestamp { wall_time_ms: 5000, counter: 0, node_id: 1 });
    let newer = HlcTimestamp { wall_time_ms: 3000, counter: 4, node_id: 2 };
    let m3 = local.merge(&newer, 10);
    assert_eq!(m3, HlcTimestamp { wall_time_ms: 3000, counter: 5, node_id: 1 });
}

#[test]
fn hlc_packing_keeps_order() {
    let a = HlcTimestamp { wall_time_ms: 77, counter: 65535, node_id: 0 };
    let b = HlcTimestamp { wall_time_ms: 78, counter: 0, node_id: 0 };
    assert_eq!(a.to_u64(), 77 * 65536 + 65535);
    assert!(a.to_u64() < b.to_u64());
    assert!(lww_resolve(a.to_u64(), b.to_u64()));
}

#[test]
fn push_batches_split_at_five_hundred() {
    let ops: Vec<UnsyncedOp> = (0..1201).map(unsynced).collect();
    let batches = plan_push_batches(&ops);
    assert_eq!(batches.len(), 3);
    assert_eq!(batches[0].payloads.len(), 500);
    assert_eq!(batches[1].payloads.len(), 500);
    assert_eq!(batches[2].payloads.len(), 201);
    assert_eq!(batches[2].local_ids[0], 1000);
    assert_eq!(batches[1].payloads[0].op_id, "op-500");
    assert_eq!(batches[0].payloads[3].hlc_ts, 1000);
    assert!(plan_push_batches(&Vec::new()).is_empty());
}

#[test]
fn pending_push_and_marking_synced() {
    let storage = MockStorage::new();
    *storage.unsynced_ops.lock().unwrap() = vec![unsynced(1), unsynced(2)];
    let mut engine = SyncEngine::new(storage, "dev-1".into(), 1);
    let batches = engine.pending_push_batches().unwrap();
    assert_eq!(batches.len(), 1);
    let total = engine.finish_push_batch(&batches[0], Ok(2), 0).unwrap();
    assert_eq!(total, 2);
    assert_eq!(*engine.storage().synced_ids.lock().unwrap(), vec![1, 2]);
    let err = engine.finish_push_batch(&batches[0], Err(SyncError::Transport("down".into())), 0);
    assert!(matches!(err, Err(SyncError::Transport(_))));
}

#[test]
fn pull_cursor_parses_stored_text() {
    assert_eq!(cursor_from_meta(&None), 0);
    assert_eq!(cursor_from_meta(&Some("42".to_string())), 42);
    assert_eq!(cursor_from_meta(&Some("-7".to_string())), -7);
    assert_eq!(cursor_from_meta(&Some("+9".to_string())), 9);
    assert_eq!(cursor_from_meta(&Some("abc".to_string())), 0);
    assert_eq!(cursor_from_meta(&Some("".to_string())), 0);
    assert_eq!(cursor_from_meta(&Some("99999999999999999999".to_string())), 0);
    assert_eq!(cursor_from_meta(&Some("-9223372036854775808".to_string())), i64::MIN);
}

#[test]
fn pull_page_applies_remote_and_skips_own() {
    let storage = MockStorage::new();
    let mut engine = SyncEngine::new(storage, "dev-1".into(), 1);
    let before = engine.clock_value();
    let page = PullResult {
        operations: vec![remote(1, "remote-1", "dev-2"), remote(2, "own", "dev-1"), remote(3, "remote-2", "dev-3")],
        next_cursor: 3,
        has_more: false,
    };
    let step = engine.apply_pull_page(&page, 0, 0).unwrap();
    assert_eq!(step.cursor, 3);
    assert_eq!(step.applied, 2);
    assert!(!step.more);
    assert_eq!(*engine.storage().applied_ops.lock().unwrap(), vec!["remote-1".to_string(), "remote-2".to_string()]);
    assert_eq!(engine.storage().get_sync_meta("sync_pull_cursor").unwrap(), Some("3".to_string()));
    assert!(engine.clock_value() > before);
    assert_eq!(engine.pull_cursor().unwrap(), 3);
}

#[test]
fn pull_page_uses_server_next_cursor_and_empty_page_stops() {
    let storage = MockStorage::new();
    let mut engine = SyncEngine::new(storage, "dev-1".into(), 1);
    let page = PullResult { operations: vec![remote(5, "r", "dev-9")], next_cursor: 10, has_more: true };
    let step = engine.apply_pull_page(&page, 0, 4).unwrap();
    assert_eq!(step.cursor, 10);
    assert_eq!(step.applied, 5);
    assert!(step.more);
    let empty = PullResult { operations: vec![], next_cursor: 99, has_more: true };
    let step = engine.apply_pull_page(&empty, 10, 5).unwrap();
    assert_eq!((step.cursor, step.applied, step.more), (10, 5, false));
}

#[test]
fn pull_page_failure_saves_last_good_cursor() {
    let mut storage = MockStorage::new();
    storage.fail_apply = true;
    let mut engine = SyncEngine::new(storage, "dev-1".into(), 1);
    let page = PullResult {
        operations: vec![remote(1, "own", "dev-1"), remote(2, "bad", "dev-2")],
        next_cursor: 2,
        has_more: false,
    };
    let r = engine.apply_pull_page(&page, 0, 0);
    match r {
        Err(SyncError::Storage(m)) => assert_eq!(m, "Pull stopped: failed to apply remote operation"),
        _ => panic!("expected a storage error"),
    }
    assert_eq!(engine.storage().get_sync_meta("sync_pull_cursor").unwrap(), Some("1".to_string()));
}

#[test]
fn sync_error_messages() {
    assert_eq!(SyncError::Storage("x".into()).message(), "Storage error: x");
    assert_eq!(SyncError::Transport("y".into()).message(), "Transport error: y");
    assert_eq!(SyncError::NotAuthenticated.message(), "Not authenticated");
    assert_eq!(SyncError::ConflictResolution("z".into()).message(), "Conflict resolution error: z");
    assert_eq!(SyncError::Serialization("w".into()).message(), "Serialization error: w");
}

#[test]
fn pull_plan_picks_other_devices_in_order() {
    let page = PullResult {
        operations: vec![
            remote(1, "a", "dev-1"),
            remote(2, "b", "dev-2"),
            remote(3, "c", "dev-1"),
            remote(4, "d", "dev-3"),
        ],
        next_cursor: 4,
        has_more: true,
    };
    assert_eq!(pull_page_plan(&page, "dev-1"), vec![1, 3]);
    assert_eq!(pull_page_plan(&page, "dev-9"), vec![0, 1, 2, 3]);
    let own = PullResult { operations: vec![remote(1, "a", "dev-1")], next_cursor: 1, has_more: false };
    assert!(pull_page_plan(&own, "dev-1").is_empty());
}

#[test]
fn page_outcome_counts_and_stops() {
    let page = PullResult {
        operations: vec![remote(7, "a", "dev-2"), remote(8, "b", "dev-1"), remote(9, "c", "dev-2")],
        next_cursor: 12,
        has_more: true,
    };
    let all_ok = vec![Ok(true), Ok(false)];
    match page_outcome(&page, "dev-1", 3, 5, &all_ok) {
        Ok(step) => assert_eq!((step.cursor, step.applied, step.more), (12, 6, true)),
        Err(_) => panic!("expected a step"),
    }
    let second_fails = vec![Ok(true), Err(SyncError::Storage("x".into()))];
    match page_outcome(&page, "dev-1", 3, 5, &second_fails) {
        Err((SyncError::Storage(m), saved)) => {
            assert_eq!(m, "Pull stopped: failed to apply remote operation");
            assert_eq!(saved, 8);
        }
        _ => panic!("expected a stop"),
    }
    let first_fails = vec![Err(SyncError::Transport("y".into()))];
    match page_outcome(&page, "dev-1", 3, 5, &first_fails) {
        Err((SyncError::Storage(_), saved)) => assert_eq!(saved, 3),
        _ => panic!("expected a stop"),
    }
}

#[test]
fn finish_page_prefers_the_save_error() {
    let step = PullStep { cursor: 4, applied: 2, more: false };
    match finish_page(Ok(step), Ok(())) {
        Ok(s) => assert_eq!((s.cursor, s.applied, s.more), (4, 2, false)),
        Err(_) => panic!("expected the step"),
    }
    assert!(matches!(finish_page(Ok(step), Err(SyncError::NotAuthenticated)), Err(SyncError::NotAuthenticated)));
    assert!(matches!(
        finish_page(Err((SyncError::Storage("s".into()), 1)), Ok(())),
        Err(SyncError::Storage(_))
    ));
    assert!(matches!(
        finish_page(Err((SyncError::Storage("s".into()), 1)), Err(SyncError::Transport("t".into()))),
        Err(SyncError::Transport(_))
    ));
}

#[test]
fn test_pull_applies_remote_ops() {
    let storage = MockStorage::new();
    let mut engine = SyncEngine::new(storage, "dev-1".into(), 1);
    let mut first = remote(1, "remote-1", "dev-2");
    first.hlc_ts = 5000;
    let mut second = remote(2, "remote-2", "dev-2");
    second.hlc_ts = 6000;
    let page = PullResult { operations: vec![first, second], next_cursor: 2, has_more: false };
    let step = engine.apply_pull_page(&page, 0, 0).unwrap();
    assert_eq!(step.applied, 2);
    assert!(!step.more);
    assert_eq!(*engine.storage().applied_ops.lock().unwrap(), vec!["remote-1".to_string(), "remote-2".to_string()]);
    assert_eq!(engine.storage().get_sync_meta("sync_pull_cursor").unwrap(), Some("2".to_string()));
}

#[test]
fn test_pull_skips_own_device_ops() {
    let storage = MockStorage::new();
    let mut engine = SyncEngine::new(storage, "dev-1".into(), 1);
    let page = PullResult { operations: vec![remote(1, "own", "dev-1")], next_cursor: 1, has_more: false };
    let step = engine.apply_pull_page(&page, 0, 0).unwrap();
    assert_eq!(step.applied, 0);
    assert!(engine.storage().applied_ops.lock().unwrap().is_empty());
    assert_eq!(engine.storage().get_sync_meta("sync_pull_cursor").unwrap(), Some("1".to_string()));
}

#[test]
fn engine_ticks_keep_node_and_rise() {
    let storage = MockStorage::new();
    let mut engine = SyncEngine::new(storage, "dev-1".into(), 42);
    let a = engine.tick();
    let b = engine.tick();
    let c = engine.tick();
    assert!(a < b && b < c);
    assert_eq!((a.node_id, b.node_id, c.node_id), (42, 42, 42));
}

#[test]
fn push_batch_done_adds_or_fails() {
    assert_eq!(push_batch_done(3, Ok(()), 4).unwrap(), 7);
    assert!(matches!(push_batch_done(3, Err(SyncError::Storage("m".into())), 4), Err(SyncError::Storage(_))));
}

#[test]
fn pull_cursor_reads_the_cursor_key() {
    let storage = MockStorage::new();
    storage.meta.lock().unwrap().insert("sync_pull_cursor".to_string(), "42".to_string());
    storage.meta.lock().unwrap().insert("other".to_string(), "7".to_string());
    let mut engine = SyncEngine::new(storage, "dev-1".into(), 1);
    assert_eq!(engine.pull_cursor().unwrap(), 42);
    engine.storage().meta.lock().unwrap().insert("sync_pull_cursor".to_string(), "x".to_string());
    assert_eq!(engine.pull_cursor().unwrap(), 0);
}

#[test]
fn refused_push_marks_nothing() {
    let storage = MockStorage::new();
    storage.unsynced_ops.lock().unwrap().push(unsynced(5));
    let mut engine = SyncEngine::new(storage, "dev-1".into(), 1);
    let batches = engine.pending_push_batches().unwrap();
    let r = engine.finish_push_batch(&batches[0], Err(SyncError::Transport("down".into())), 0);
    assert!(matches!(r, Err(SyncError::Transport(_))));
    assert!(engine.storage().synced_ids.lock().unwrap().is_empty());
    assert_eq!(engine.finish_push_batch(&batches[0], Ok(1), 3).unwrap(), 4);
    assert_eq!(*engine.storage().synced_ids.lock().unwrap(), vec![5]);
}
