use anchor::git::WorktreeAction;
use anchor::sync_memory::{SyncMemory, SyncOutcome};

#[test]
fn records_failure_redacted() {
    let mut mem = SyncMemory::new();
    mem.record_err("demo", "Bearer ghp_LeakToken99 denied");
    let last = mem.get("demo").unwrap();
    assert_eq!(last.outcome, SyncOutcome::Failed);
    assert!(!last.message.contains("LeakToken99"));
}

#[test]
fn records_partial_on_dirty_skip() {
    let mut mem = SyncMemory::new();
    mem.record_ok(
        "demo",
        &[("cursor".into(), WorktreeAction::SkippedDirty), ("opencode".into(), WorktreeAction::AlreadyUpToDate)],
    );
    let last = mem.get("demo").unwrap();
    assert_eq!(last.outcome, SyncOutcome::Partial);
    assert_eq!(last.skipped_dirty, 1);
}

#[test]
fn ok_and_partial_messages() {
    let mut mem = SyncMemory::new();
    mem.record_ok_at("a", &[("cursor".into(), WorktreeAction::FastForwarded)], 5);
    let a = mem.get("a").unwrap();
    assert_eq!(a.outcome, SyncOutcome::Success);
    assert_eq!(a.message, "synced");
    assert_eq!(a.at, 5);
    assert_eq!((a.chip_class(), a.label(), a.is_failed()), ("ok", "ok", false));
    mem.record_ok_at(
        "b",
        &[
            ("cursor".into(), WorktreeAction::SkippedDiverged),
            ("opencode".into(), WorktreeAction::SkippedDirty),
        ],
        6,
    );
    let b = mem.get("b").unwrap();
    assert_eq!(b.message, "synced with skips (dirty=1, diverged=1)");
    assert_eq!((b.chip_class(), b.label()), ("warn", "partial"));
}

#[test]
fn later_record_replaces_earlier_only_for_its_repo() {
    let mut mem = SyncMemory::new();
    mem.record_err_at("a", "boom", 1);
    mem.record_ok_at("b", &[], 2);
    mem.record_ok_at("a", &[], 3);
    let a = mem.get("a").unwrap();
    assert_eq!(a.outcome, SyncOutcome::Success);
    assert_eq!(a.at, 3);
    assert_eq!(mem.get("b").unwrap().at, 2);
    assert!(mem.get("c").is_none());
    mem.record_err_at("b", "x", 4);
    let b = mem.get("b").unwrap();
    assert!(b.is_failed());
    assert_eq!((b.chip_class(), b.label()), ("dirty", "failed"));
}
