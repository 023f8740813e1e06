use appflowy_collaborate::error::{CreateGroupFailedReason, RealtimeError};
use appflowy_collaborate::group::CollabType;
use appflowy_collaborate::manager::{prepare_group, GroupManager};
use appflowy_collaborate::user::RealtimeUser;

fn user(uid: i64, session: &str) -> RealtimeUser {
    RealtimeUser::new(
        uid,
        "device-1".to_string(),
        1000,
        session.to_string(),
        "0.5.0".to_string(),
    )
}

fn create(m: &mut GroupManager, u: &RealtimeUser, ws: &str, oid: &str, now: u64) -> Result<(), RealtimeError> {
    m.create_group(
        u,
        &ws.to_string(),
        &oid.to_string(),
        CollabType::Document,
        None,
        false,
        Ok(false),
        Ok(vec![1, 2, 3]),
        now,
    )
}

#[test]
fn create_then_contains_group() {
    let mut m = GroupManager::new(60_000, 10_000);
    let u = user(1, "s1");
    assert!(!m.contains_group(&"doc-1".to_string()));
    assert!(create(&mut m, &u, "ws-1", "doc-1", 0).is_ok());
    assert!(m.contains_group(&"doc-1".to_string()));
    let g = m.get_group(&"doc-1".to_string()).unwrap();
    assert_eq!(g.workspace_id(), "ws-1");
    assert!(g.is_new_collab);
    assert_eq!(g.doc_state, vec![1, 2, 3]);
    assert!(m.get_group(&"doc-2".to_string()).is_none());
}

#[test]
fn second_create_for_same_id_is_refused() {
    let mut m = GroupManager::new(60_000, 10_000);
    let u = user(1, "s1");
    assert!(create(&mut m, &u, "ws-1", "doc-1", 0).is_ok());
    match create(&mut m, &u, "ws-1", "doc-1", 5) {
        Err(RealtimeError::CannotCreateGroup(id)) => assert_eq!(id, "doc-1"),
        other => panic!("unexpected {:?}", other),
    }
    assert_eq!(m.state.groups.len(), 1);
}

#[test]
fn subscribe_to_missing_group_fails_without_change() {
    let mut m = GroupManager::new(60_000, 10_000);
    let u = user(1, "s1");
    assert!(create(&mut m, &u, "ws-1", "doc-1", 0).is_ok());
    let r = m.subscribe_group(&u, &"missing".to_string());
    match r {
        Err(RealtimeError::GroupNotFound(id)) => assert_eq!(id, "missing"),
        other => panic!("unexpected {:?}", other),
    }
    assert!(!m.contains_user(&"missing".to_string(), &u));
    assert!(m.state.user_index.is_empty());
    assert_eq!(m.get_group(&"doc-1".to_string()).unwrap().subscriber_count(), 0);
    assert!(!m.contains_group(&"missing".to_string()));
}

#[test]
fn workspace_mismatch_registers_nothing() {
    let mut m = GroupManager::new(60_000, 10_000);
    let u = user(7, "s1");
    let r = m.create_group(
        &u,
        &"ws-caller".to_string(),
        &"doc-1".to_string(),
        CollabType::Folder,
        Some("ws-stored".to_string()),
        false,
        Ok(false),
        Ok(vec![]),
        0,
    );
    match r {
        Err(RealtimeError::CreateGroupFailed(CreateGroupFailedReason::CollabWorkspaceIdNotMatch {
            expect,
            actual,
            detail,
        })) => {
            assert_eq!(expect, "ws-stored");
            assert_eq!(actual, "ws-caller");
            assert_eq!(detail, "user_id:7,app_version:0.5.0,object_id:doc-1:Folder");
        },
        other => panic!("unexpected {:?}", other),
    }
    let e = m
        .create_group(
            &u,
            &"ws-caller".to_string(),
            &"doc-1".to_string(),
            CollabType::Folder,
            Some("ws-stored".to_string()),
            false,
            Ok(false),
            Ok(vec![]),
            0,
        )
        .unwrap_err();
    assert!(e.is_create_group_failed());
    assert!(!e.is_lock_timeout());
    assert!(!e.is_too_many_message());
    assert!(!m.contains_group(&"doc-1".to_string()));
}

#[test]
fn matching_stored_workspace_is_not_new() {
    let mut m = GroupManager::new(60_000, 10_000);
    let u = user(1, "s1");
    let r = m.create_group(
        &u,
        &"ws-1".to_string(),
        &"doc-1".to_string(),
        CollabType::Document,
        Some("ws-1".to_string()),
        false,
        Ok(false),
        Ok(vec![9]),
        0,
    );
    assert!(r.is_ok());
    assert!(!m.get_group(&"doc-1".to_string()).unwrap().is_new_collab);
}

#[test]
fn indexing_follows_workspace_policy() {
    let u = user(1, "s1");
    let ws = "ws-1".to_string();
    let oid = "doc-1".to_string();
    let on = prepare_group(&u, &ws, &oid, CollabType::Document, None, true, Ok(true)).unwrap();
    assert!(on.indexing_enabled);
    let off = prepare_group(&u, &ws, &oid, CollabType::Document, None, true, Ok(false)).unwrap();
    assert!(!off.indexing_enabled);
    let none = prepare_group(&u, &ws, &oid, CollabType::Document, None, false, Ok(true)).unwrap();
    assert!(!none.indexing_enabled);
    match prepare_group(&u, &ws, &oid, CollabType::Document, None, true, Err("policy down".to_string())) {
        Err(RealtimeError::Internal(m)) => assert_eq!(m, "policy down"),
        other => panic!("unexpected {:?}", other.is_ok()),
    }
}

#[test]
fn indexing_policy_error_registers_nothing() {
    let mut m = GroupManager::new(60_000, 10_000);
    let u = user(1, "s1");
    let r = m.create_group(
        &u,
        &"ws-1".to_string(),
        &"doc-1".to_string(),
        CollabType::Document,
        None,
        true,
        Err("policy down".to_string()),
        Ok(vec![1]),
        0,
    );
    match r {
        Err(RealtimeError::Internal(msg)) => assert_eq!(msg, "policy down"),
        other => panic!("unexpected {:?}", other),
    }
    assert!(!m.contains_group(&"doc-1".to_string()));
}

#[test]
fn remove_user_leaves_other_groups_alone() {
    let mut m = GroupManager::new(60_000, 10_000);
    let a = user(1, "s1");
    let b = user(2, "s2");
    assert!(create(&mut m, &a, "ws-1", "doc-1", 0).is_ok());
    assert!(create(&mut m, &a, "ws-1", "doc-2", 0).is_ok());
    assert!(m.subscribe_group(&a, &"doc-1".to_string()).is_ok());
    assert!(m.subscribe_group(&b, &"doc-2".to_string()).is_ok());
    m.remove_user(&a, 500);
    assert_eq!(m.get_group(&"doc-2".to_string()).unwrap().subscriber_count(), 1);
    assert!(m.get_inactive_groups(10_499).is_empty());
    assert_eq!(m.get_inactive_groups(10_500), vec!["doc-1".to_string()]);
}

#[test]
fn failed_load_registers_nothing() {
    let mut m = GroupManager::new(60_000, 10_000);
    let u = user(1, "s1");
    let r = m.create_group(
        &u,
        &"ws-1".to_string(),
        &"doc-1".to_string(),
        CollabType::Document,
        None,
        false,
        Ok(false),
        Err(RealtimeError::NoRequiredCollabData("doc-1".to_string())),
        0,
    );
    match r {
        Err(RealtimeError::NoRequiredCollabData(id)) => assert_eq!(id, "doc-1"),
        other => panic!("unexpected {:?}", other),
    }
    assert!(!m.contains_group(&"doc-1".to_string()));
}

#[test]
fn subscribe_updates_group_and_user_index() {
    let mut m = GroupManager::new(60_000, 10_000);
    let a = user(1, "s1");
    let b = user(2, "s2");
    assert!(create(&mut m, &a, "ws-1", "doc-1", 0).is_ok());
    assert!(m.subscribe_group(&a, &"doc-1".to_string()).is_ok());
    assert!(m.subscribe_group(&b, &"doc-1".to_string()).is_ok());
    assert!(m.subscribe_group(&a, &"doc-1".to_string()).is_ok());
    assert!(m.contains_user(&"doc-1".to_string(), &a));
    assert!(m.contains_user(&"doc-1".to_string(), &b));
    assert_eq!(m.get_group(&"doc-1".to_string()).unwrap().subscriber_count(), 2);
    assert_eq!(m.state.user_index.len(), 2);
}

#[test]
fn idle_group_reported_after_grace_period() {
    let mut m = GroupManager::new(60_000, 10_000);
    let a = user(1, "s1");
    assert!(create(&mut m, &a, "ws-1", "doc-1", 0).is_ok());
    assert!(m.subscribe_group(&a, &"doc-1".to_string()).is_ok());
    assert!(m.get_inactive_groups(50_000).is_empty());
    m.remove_user(&a, 100_000);
    assert!(m.get_inactive_groups(105_000).is_empty());
    assert_eq!(m.get_inactive_groups(110_000), vec!["doc-1".to_string()]);
    assert_eq!(m.get_inactive_groups(200_000), vec!["doc-1".to_string()]);
}

#[test]
fn group_rejoined_within_grace_period_not_reported() {
    let mut m = GroupManager::new(60_000, 10_000);
    let a = user(1, "s1");
    assert!(create(&mut m, &a, "ws-1", "doc-1", 0).is_ok());
    assert!(m.subscribe_group(&a, &"doc-1".to_string()).is_ok());
    m.remove_user(&a, 100_000);
    assert!(m.subscribe_group(&a, &"doc-1".to_string()).is_ok());
    assert!(m.get_inactive_groups(120_000).is_empty());
}

#[test]
fn new_group_without_subscribers_counts_idle_from_creation() {
    let mut m = GroupManager::new(60_000, 10_000);
    let a = user(1, "s1");
    assert!(create(&mut m, &a, "ws-1", "doc-1", 1_000).is_ok());
    assert!(m.get_inactive_groups(10_999).is_empty());
    assert_eq!(m.get_inactive_groups(11_000), vec!["doc-1".to_string()]);
}

#[test]
fn remove_group_drops_its_users() {
    let mut m = GroupManager::new(60_000, 10_000);
    let a = user(1, "s1");
    assert!(create(&mut m, &a, "ws-1", "doc-1", 0).is_ok());
    assert!(create(&mut m, &a, "ws-1", "doc-2", 0).is_ok());
    assert!(m.subscribe_group(&a, &"doc-1".to_string()).is_ok());
    assert!(m.subscribe_group(&a, &"doc-2".to_string()).is_ok());
    assert!(m.remove_group(&"doc-1".to_string()));
    assert!(!m.remove_group(&"doc-1".to_string()));
    assert!(!m.contains_group(&"doc-1".to_string()));
    assert!(!m.contains_user(&"doc-1".to_string(), &a));
    assert!(m.contains_user(&"doc-2".to_string(), &a));
}

#[test]
fn many_clients_leave_index_consistent() {
    let mut m = GroupManager::new(60_000, 10_000);
    let owner = user(0, "owner");
    let ids = ["doc-a", "doc-b", "doc-c"];
    for id in ids.iter() {
        assert!(create(&mut m, &owner, "ws-1", id, 0).is_ok());
    }
    let users: Vec<RealtimeUser> = (1..=12).map(|i| user(i, &format!("s{}", i))).collect();
    for (i, u) in users.iter().enumerate() {
        let id = ids[i % 3].to_string();
        assert!(m.subscribe_group(u, &id).is_ok());
        if i % 4 == 0 {
            m.remove_user(u, 10);
        }
    }
    for (i, u) in users.iter().enumerate() {
        let id = ids[i % 3].to_string();
        let in_group = m.get_group(&id).unwrap().contains_user(u);
        assert_eq!(m.contains_user(&id, u), in_group);
        assert_eq!(in_group, i % 4 != 0);
    }
    assert_eq!(m.state.user_index.len(), 9);
}

#[test]
fn error_kind_predicates() {
    assert!(RealtimeError::TooManyMessage("u".to_string()).is_too_many_message());
    assert!(!RealtimeError::LockTimeout.is_too_many_message());
    assert!(RealtimeError::LockTimeout.is_lock_timeout());
    assert!(!RealtimeError::GroupNotFound("x".to_string()).is_lock_timeout());
    assert!(RealtimeError::CreateGroupFailed(CreateGroupFailedReason::CannotGetCollabData).is_create_group_failed());
    assert!(!RealtimeError::CannotCreateGroup("x".to_string()).is_create_group_failed());
}

#[test]
fn reason_messages() {
    assert_eq!(CreateGroupFailedReason::CannotGetCollabData.message(), "Cannot get collab data");
    let r = CreateGroupFailedReason::CollabWorkspaceIdNotMatch {
        expect: "a".to_string(),
        actual: "b".to_string(),
        detail: "d".to_string(),
    };
    assert_eq!(r.message(), "Collab workspace id not match: expect a, actual: b, detail: d");
}
