use appflowy_collaborate::group::CollabType;
use appflowy_collaborate::storage_proxy::{BatchRoute, CollabStorageProxy, LiveCollab, QueryCollabParams, ReadRoute};

fn query(ws: &str, oid: &str) -> QueryCollabParams {
    QueryCollabParams {
        workspace_id: ws.to_string(),
        object_id: oid.to_string(),
        collab_type: CollabType::Document,
    }
}

#[test]
fn live_reference_served_from_memory_then_storage_after_drop() {
    let mut p = CollabStorageProxy::new();
    p.cache_collab(&"doc-1".to_string(), 7);
    let live = vec![LiveCollab { handle: 7, encoded: vec![1, 2, 3] }];
    match p.get_collab(&query("ws", "doc-1"), &live) {
        ReadRoute::Memory(b) => assert_eq!(b, vec![1, 2, 3]),
        ReadRoute::Storage => panic!("expected a memory hit"),
    }
    assert!(matches!(p.get_collab(&query("ws", "doc-1"), &vec![]), ReadRoute::Storage));
}

#[test]
fn uncached_id_goes_to_storage() {
    let p = CollabStorageProxy::new();
    let live = vec![LiveCollab { handle: 7, encoded: vec![1] }];
    assert!(matches!(p.get_collab(&query("ws", "doc-1"), &live), ReadRoute::Storage));
}

#[test]
fn caching_again_replaces_the_handle() {
    let mut p = CollabStorageProxy::new();
    p.cache_collab(&"doc-1".to_string(), 1);
    p.cache_collab(&"doc-1".to_string(), 2);
    assert_eq!(p.cached_handle(&"doc-1".to_string()), Some(2));
    assert_eq!(p.collab_by_object_id.len(), 1);
    let live = vec![LiveCollab { handle: 1, encoded: vec![1] }, LiveCollab { handle: 2, encoded: vec![2] }];
    match p.get_collab(&query("ws", "doc-1"), &live) {
        ReadRoute::Memory(b) => assert_eq!(b, vec![2]),
        ReadRoute::Storage => panic!("expected a memory hit"),
    }
}

#[test]
fn batch_read_mixed_set() {
    let mut p = CollabStorageProxy::new();
    p.cache_collab(&"live".to_string(), 3);
    let live = vec![LiveCollab { handle: 3, encoded: vec![8, 8] }];
    let qs = vec![query("ws", ""), query("ws", "live"), query("ws", "stored")];
    let r = p.batch_get_collab(&qs, &live);
    assert_eq!(r.len(), 3);
    match &r[0] {
        BatchRoute::Failed(e) => assert_eq!(e, "object_id: must not be empty"),
        other => panic!("unexpected {:?}", other),
    }
    match &r[1] {
        BatchRoute::Memory(b) => assert_eq!(b, &vec![8, 8]),
        other => panic!("unexpected {:?}", other),
    }
    assert!(matches!(r[2], BatchRoute::Storage));
    let pending = CollabStorageProxy::storage_queries(&qs, &r);
    assert_eq!(pending.len(), 1);
    assert_eq!(pending[0].object_id, "stored");
    assert_eq!(pending[0].workspace_id, "ws");
    assert_eq!(pending[0].collab_type, CollabType::Document);
}

#[test]
fn batch_read_rejects_missing_workspace() {
    let p = CollabStorageProxy::new();
    let r = p.batch_get_collab(&vec![query("", "doc")], &vec![]);
    match &r[0] {
        BatchRoute::Failed(e) => assert_eq!(e, "workspace_id: must not be empty"),
        other => panic!("unexpected {:?}", other),
    }
}

#[test]
fn validate_accepts_complete_request() {
    assert!(query("ws", "doc").validate().is_ok());
    assert!(query("ws", "").validate().is_err());
}
