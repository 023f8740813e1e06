use appflowy_collaborate::error::RealtimeError;
use appflowy_collaborate::loader::{get_latest_snapshot, load_collab, load_collab_from_snapshot, SnapshotOutcome};

#[test]
fn corrupted_primary_recovers_from_valid_snapshot() {
    let snaps = vec![SnapshotOutcome::Undecodable, SnapshotOutcome::Valid(vec![4, 5, 6])];
    let r = load_collab(&"doc-1".to_string(), Ok(vec![0xff]), false, &snaps).unwrap();
    assert_eq!(r.doc_state, vec![4, 5, 6]);
    assert!(r.from_snapshot);
}

#[test]
fn corrupted_primary_without_snapshots_fails() {
    let r = load_collab(&"doc-1".to_string(), Ok(vec![0xff]), false, &vec![]);
    match r {
        Err(RealtimeError::NoRequiredCollabData(id)) => assert_eq!(id, "doc-1"),
        other => panic!("unexpected {:?}", other.is_ok()),
    }
}

#[test]
fn corrupted_primary_with_only_invalid_snapshots_fails() {
    let snaps = vec![
        SnapshotOutcome::Undecodable,
        SnapshotOutcome::Unbuildable,
        SnapshotOutcome::MissingRequiredData,
    ];
    let r = load_collab(&"doc-1".to_string(), Ok(vec![0xff]), false, &snaps);
    assert!(matches!(r, Err(RealtimeError::NoRequiredCollabData(_))));
}

#[test]
fn readable_primary_is_used_as_is() {
    let snaps = vec![SnapshotOutcome::Valid(vec![9])];
    let r = load_collab(&"doc-1".to_string(), Ok(vec![1, 2]), true, &snaps).unwrap();
    assert_eq!(r.doc_state, vec![1, 2]);
    assert!(!r.from_snapshot);
}

#[test]
fn failed_primary_read_is_passed_on() {
    let r = load_collab(&"doc-1".to_string(), Err(RealtimeError::Internal("db down".to_string())), false, &vec![]);
    match r {
        Err(RealtimeError::Internal(m)) => assert_eq!(m, "db down"),
        other => panic!("unexpected {:?}", other.is_ok()),
    }
}

#[test]
fn newest_valid_snapshot_wins() {
    let snaps = vec![
        SnapshotOutcome::MissingRequiredData,
        SnapshotOutcome::Valid(vec![2]),
        SnapshotOutcome::Valid(vec![1]),
    ];
    assert_eq!(get_latest_snapshot(&snaps), Some(1));
    assert_eq!(load_collab_from_snapshot(&snaps), Some(vec![2]));
}

#[test]
fn unreadable_snapshot_is_passed_over() {
    let snaps = vec![SnapshotOutcome::FetchFailed, SnapshotOutcome::Valid(vec![1])];
    assert_eq!(get_latest_snapshot(&snaps), Some(1));
    assert_eq!(load_collab_from_snapshot(&snaps), Some(vec![1]));
}

#[test]
fn only_unreadable_snapshots_give_none() {
    let snaps = vec![SnapshotOutcome::FetchFailed, SnapshotOutcome::FetchFailed];
    assert_eq!(get_latest_snapshot(&snaps), None);
}
