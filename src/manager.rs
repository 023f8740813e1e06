use vstd::prelude::*;
use crate::error::{CreateGroupFailedReason, RealtimeError};
use crate::group::{CollabGroup, CollabType};
use crate::state::{GroupManagementState, holds_group, ids_of, subscribed};
use crate::user::{RealtimeUser, UserView};

verus! {

/// What group creation settled before the document is loaded.
pub struct GroupPlan {
    pub is_new_collab: bool,
    pub indexing_enabled: bool,
}

/// The orchestration surface over the group registry: creates groups,
/// subscribes sessions, answers queries and lists idle groups. Durations are
/// in milliseconds.
pub struct GroupManager {
    pub state: GroupManagementState,
    pub persistence_interval: u64,
    pub prune_grace_period: u64,
}

/// The name of a document kind.
pub open spec fn collab_type_name(t: CollabType) -> Seq<char> {
    match t {
        CollabType::Document => "Document"@,
        CollabType::Database => "Database"@,
        CollabType::WorkspaceDatabase => "WorkspaceDatabase"@,
        CollabType::Folder => "Folder"@,
        CollabType::DatabaseRow => "DatabaseRow"@,
        CollabType::UserAwareness => "UserAwareness"@,
        CollabType::Unknown => "Unknown"@,
    }
}

/// The detail of a refused creation: the user id written as `uid_text`, the
/// app version, the document id and its kind.
pub open spec fn mismatch_detail_spec(
    uid_text: Seq<char>,
    user: RealtimeUser,
    object_id: Seq<char>,
    collab_type: CollabType,
) -> Seq<char> {
    "user_id:"@ + uid_text + ",app_version:"@ + user.app_version@ + ",object_id:"@ + object_id
        + ":"@ + collab_type_name(collab_type)
}

/// `e` is the mismatch error for a document stored under workspace `stored`
/// and requested under `workspace_id`.
pub open spec fn is_mismatch_error(
    e: RealtimeError,
    stored: Seq<char>,
    workspace_id: Seq<char>,
    user: RealtimeUser,
    object_id: Seq<char>,
    collab_type: CollabType,
) -> bool {
    match e {
        RealtimeError::CreateGroupFailed(
            CreateGroupFailedReason::CollabWorkspaceIdNotMatch { expect, actual, detail },
        ) => expect@ == stored && actual@ == workspace_id && exists|t: Seq<char>|
            detail@ == mismatch_detail_spec(t, user, object_id, collab_type),
        _ => false,
    }
}

impl CollabType {
    /// The name of the kind.
    pub fn name(&self) -> (r: &'static str)
        ensures
            r@ == collab_type_name(*self),
    {
        match self {
            CollabType::Document => "Document",
            CollabType::Database => "Database",
            CollabType::WorkspaceDatabase => "WorkspaceDatabase",
            CollabType::Folder => "Folder",
            CollabType::DatabaseRow => "DatabaseRow",
            CollabType::UserAwareness => "UserAwareness",
            CollabType::Unknown => "Unknown",
        }
    }
}

/// The result of the creation checks for the given stored workspace id
/// (`None` when no metadata is stored) and indexing policy answer.
pub open spec fn plan_spec(
    workspace_id: Seq<char>,
    stored_workspace_id: Option<Seq<char>>,
    has_indexer: bool,
    can_index: Result<bool, Seq<char>>,
) -> Option<(bool, bool)> {
    match stored_workspace_id {
        Some(w) if w != workspace_id => None,
        _ => if !has_indexer {
            Some((stored_workspace_id is None, false))
        } else {
            match can_index {
                Ok(b) => Some((stored_workspace_id is None, b)),
                Err(_) => None,
            }
        },
    }
}

/// Detail of a refused creation: who asked, and for which document.
fn mismatch_detail(user: &RealtimeUser, object_id: &String, collab_type: CollabType) -> (r: String)
    ensures
        exists|t: Seq<char>| r@ == mismatch_detail_spec(t, *user, object_id@, collab_type),
{
    let mut s = String::from_str("user_id:");
    let uid = user.uid.to_string();
    s.append(uid.as_str());
    s.append(",app_version:");
    s.append(user.app_version.as_str());
    s.append(",object_id:");
    s.append(object_id.as_str());
    s.append(":");
    s.append(collab_type.name());
    proof {
        assert(s@ == mismatch_detail_spec(uid@, *user, object_id@, collab_type));
    }
    s
}

/// Checks that run before a group is built: the stored metadata, when there
/// is any, must name the caller's workspace; indexing is on only where an
/// indexer exists and the workspace allows it.
pub fn prepare_group(
    user: &RealtimeUser,
    workspace_id: &String,
    object_id: &String,
    collab_type: CollabType,
    stored_workspace_id: Option<String>,
    has_indexer: bool,
    can_index: Result<bool, String>,
) -> (r: Result<GroupPlan, RealtimeError>)
    ensures
        match stored_workspace_id {
            Some(w) if w@ != workspace_id@ => r matches Err(e) && is_mismatch_error(
                e,
                w@,
                workspace_id@,
                *user,
                object_id@,
                collab_type,
            ),
            _ => if !has_indexer {
                r matches Ok(p) && p.is_new_collab == (stored_workspace_id is None)
                    && !p.indexing_enabled
            } else {
                match can_index {
                    Ok(b) => r matches Ok(p) && p.is_new_collab == (stored_workspace_id is None)
                        && p.indexing_enabled == b,
                    Err(e) => r matches Err(RealtimeError::Internal(m)) && m@ == e@,
                }
            },
        },
{
    let mut is_new_collab = true;
    match stored_workspace_id {
        Some(w) => {
            if !w.eq(workspace_id) {
                let detail = mismatch_detail(user, object_id, collab_type);
                return Err(
                    RealtimeError::CreateGroupFailed(
                        CreateGroupFailedReason::CollabWorkspaceIdNotMatch {
                            expect: w,
                            actual: workspace_id.clone(),
                            detail,
                        },
                    ),
                );
            }
            is_new_collab = false;
        },
        None => {},
    }
    let mut indexing_enabled = has_indexer;
    if has_indexer {
        match can_index {
            Ok(b) => {
                indexing_enabled = b;
            },
            Err(e) => {
                return Err(RealtimeError::Internal(e));
            },
        }
    }
    Ok(GroupPlan { is_new_collab, indexing_enabled })
}


/// At most one group is registered for any document id.
pub proof fn lemma_one_group_per_object(m: &GroupManager, oid: Seq<char>, i: int, j: int)
    requires
        m.wf(),
        0 <= i < m.state.groups@.len(),
        0 <= j < m.state.groups@.len(),
        m.state.groups@[i].object_id@ == oid,
        m.state.groups@[j].object_id@ == oid,
    ensures
        i == j,
{
    if i < j {
        assert(m.state.groups@[i].object_id@ != m.state.groups@[j].object_id@);
    } else if j < i {
        assert(m.state.groups@[j].object_id@ != m.state.groups@[i].object_id@);
    }
}

/// A group that has been empty since `t`, with `now` at least the grace
/// period after `t`, is reported as inactive; a group with a subscriber is
/// never reported.
pub proof fn lemma_inactive_after_grace(m: &GroupManager, i: int, t: u64, now: u64)
    requires
        m.wf(),
        0 <= i < m.state.groups@.len(),
    ensures
        ({
            let g = m.state.groups@[i];
            g.subs().len() == 0 && g.idle_since() == Some(t) && t + g.prune_grace_period <= now
                ==> g.inactive_at(now)
        }),
        m.state.groups@[i].subs().len() > 0 ==> !m.state.groups@[i].inactive_at(now),
{
    assert(m.state.groups@[i].wf());
}

/// A workspace mismatch is reported as a failed group creation, and as
/// neither a lock timeout nor message pressure.
pub proof fn lemma_mismatch_is_create_group_failed(
    e: RealtimeError,
    stored: Seq<char>,
    workspace_id: Seq<char>,
    user: RealtimeUser,
    object_id: Seq<char>,
    collab_type: CollabType,
)
    requires
        is_mismatch_error(e, stored, workspace_id, user, object_id, collab_type),
    ensures
        e is CreateGroupFailed,
        !(e is LockTimeout),
        !(e is TooManyMessage),
{
}

/// The user index lists a session for a document exactly when the group of
/// that document has the session among its subscribers.
pub proof fn lemma_user_index_matches_groups(m: &GroupManager, u: UserView, oid: Seq<char>)
    requires
        m.wf(),
    ensures
        m.has_user(u, oid) == subscribed(m.state.groups@, u, oid),
{
}

impl GroupManager {
    pub open spec fn wf(&self) -> bool {
        self.state.wf()
    }

    pub open spec fn has_group(&self, oid: Seq<char>) -> bool {
        self.state.has_group(oid)
    }

    pub open spec fn has_user(&self, u: UserView, oid: Seq<char>) -> bool {
        self.state.has_user(u, oid)
    }

    pub fn new(persistence_interval: u64, prune_grace_period: u64) -> (r: Self)
        ensures
            r.wf(),
            r.persistence_interval == persistence_interval,
            r.prune_grace_period == prune_grace_period,
            forall|o: Seq<char>| !#[trigger] r.has_group(o),
    {
        GroupManager { state: GroupManagementState::new(), persistence_interval, prune_grace_period }
    }

    /// Ids of the groups empty for at least the grace period at `now`.
    pub fn get_inactive_groups(&self, now: u64) -> (r: Vec<String>)
        ensures
            self.wf() ==> ids_of(r@).no_duplicates(),
            forall|o: Seq<char>|
                #[trigger] ids_of(r@).contains(o) == (exists|i: int|
                    0 <= i < self.state.groups@.len() && (#[trigger] self.state.groups@[i]).object_id@
                        == o && self.state.groups@[i].inactive_at(now)),
    {
        self.state.get_inactive_group_ids(now)
    }

    pub fn contains_user(&self, object_id: &String, user: &RealtimeUser) -> (r: bool)
        ensures
            r == self.has_user(user@, object_id@),
    {
        self.state.contains_user(object_id, user)
    }

    /// Detaches a session from every group; groups left empty are idle from `now`.
    pub fn remove_user(&mut self, user: &RealtimeUser, now: u64)
        requires
            old(self).wf(),
        ensures
            final(self).wf(),
            forall|o: Seq<char>| #[trigger] final(self).has_group(o) == old(self).has_group(o),
            forall|u: UserView, o: Seq<char>|
                #[trigger] final(self).has_user(u, o) == (old(self).has_user(u, o) && u != user@),
            final(self).state.groups@.len() == old(self).state.groups@.len(),
            forall|j: int|
                0 <= j < old(self).state.groups@.len() ==> (#[trigger] final(self).state.groups@[j]).same_identity(&old(self).state.groups@[j]),
            forall|j: int, u: UserView|
                0 <= j < old(self).state.groups@.len() ==> #[trigger] final(self).state.groups@[j].has_subscriber(u) == (old(self).state.groups@[j].has_subscriber(
                    u,
                ) && u != user@),
            forall|j: int|
                0 <= j < old(self).state.groups@.len() && !old(self).state.groups@[j].has_subscriber(
                    user@,
                ) ==> #[trigger] final(self).state.groups@[j] == old(self).state.groups@[j],
            forall|j: int|
                0 <= j < old(self).state.groups@.len() && old(self).state.groups@[j].has_subscriber(
                    user@,
                ) && (#[trigger] final(self).state.groups@[j]).subs().len() == 0 ==> final(self).state.groups@[j].idle_since() == Some(now),
    {
        self.state.remove_user(user, now)
    }

    pub fn contains_group(&self, object_id: &String) -> (r: bool)
        ensures
            r == self.has_group(object_id@),
    {
        self.state.contains_group(object_id)
    }

    pub fn get_group(&self, object_id: &String) -> (r: Option<&CollabGroup>)
        ensures
            match r {
                Some(g) => g.object_id@ == object_id@ && self.state.groups@.contains(*g),
                None => !self.has_group(object_id@),
            },
    {
        self.state.get_group(object_id)
    }

    /// Unregisters a group, as the idle sweep does.
    pub fn remove_group(&mut self, object_id: &String) -> (r: bool)
        requires
            old(self).wf(),
        ensures
            final(self).wf(),
            r == old(self).has_group(object_id@),
            !final(self).has_group(object_id@),
            forall|o: Seq<char>|
                o != object_id@ ==> #[trigger] final(self).has_group(o) == old(self).has_group(o),
            forall|u: UserView, o: Seq<char>|
                #[trigger] final(self).has_user(u, o) == (old(self).has_user(u, o) && o
                    != object_id@),
    {
        self.state.remove_group(object_id)
    }

    /// Attaches a session to an existing group; the group is updated before
    /// the user index. Fails, changing nothing, when no group is registered.
    pub fn subscribe_group(&mut self, user: &RealtimeUser, object_id: &String) -> (r: Result<
        (),
        RealtimeError,
    >)
        requires
            old(self).wf(),
        ensures
            final(self).wf(),
            r is Ok == old(self).has_group(object_id@),
            r matches Err(e) ==> (e matches RealtimeError::GroupNotFound(m) && m@ == object_id@),
            r is Err ==> final(self).state.groups@ == old(self).state.groups@
                && final(self).state.user_index@ == old(self).state.user_index@,
            forall|o: Seq<char>| #[trigger] final(self).has_group(o) == old(self).has_group(o),
            forall|u: UserView, o: Seq<char>|
                #[trigger] final(self).has_user(u, o) == (old(self).has_user(u, o) || (r is Ok
                    && u == user@ && o == object_id@)),
            final(self).prune_grace_period == old(self).prune_grace_period,
    {
        if self.state.subscribe_user(user, object_id) {
            Ok(())
        } else {
            Err(RealtimeError::GroupNotFound(object_id.clone()))
        }
    }

    /// Creates the group of `object_id` from the outside answers: the
    /// workspace recorded in storage, whether an indexer exists for the kind
    /// and whether the workspace may be indexed, and the loaded document.
    /// A document that already has a group is refused.
    pub fn create_group(
        &mut self,
        user: &RealtimeUser,
        workspace_id: &String,
        object_id: &String,
        collab_type: CollabType,
        stored_workspace_id: Option<String>,
        has_indexer: bool,
        can_index: Result<bool, String>,
        loaded: Result<Vec<u8>, RealtimeError>,
        now: u64,
    ) -> (r: Result<(), RealtimeError>)
        requires
            old(self).wf(),
        ensures
            final(self).wf(),
            r is Ok == (!old(self).has_group(object_id@) && plan_spec(
                workspace_id@,
                match stored_workspace_id {
                    Some(w) => Some(w@),
                    None => None,
                },
                has_indexer,
                match can_index {
                    Ok(b) => Ok(b),
                    Err(e) => Err(e@),
                },
            ) is Some && loaded is Ok),
            old(self).has_group(object_id@) ==> (r matches Err(RealtimeError::CannotCreateGroup(m))
                && m@ == object_id@),
            (!old(self).has_group(object_id@) && (stored_workspace_id matches Some(w) && w@
                != workspace_id@)) ==> (r matches Err(e) && stored_workspace_id matches Some(w)
                && is_mismatch_error(e, w@, workspace_id@, *user, object_id@, collab_type)),
            (!old(self).has_group(object_id@) && !(stored_workspace_id matches Some(w) && w@
                != workspace_id@) && has_indexer && can_index is Err) ==> (r matches Err(
                RealtimeError::Internal(m)) && can_index matches Err(e) && m@ == e@),
            (!old(self).has_group(object_id@) && plan_spec(
                workspace_id@,
                match stored_workspace_id {
                    Some(w) => Some(w@),
                    None => None,
                },
                has_indexer,
                match can_index {
                    Ok(b) => Ok(b),
                    Err(e) => Err(e@),
                },
            ) is Some && loaded is Err) ==> (loaded matches Err(e) && r == Err::<(), RealtimeError>(e)),
            r is Err ==> final(self).state.groups@ == old(self).state.groups@
                && final(self).state.user_index@ == old(self).state.user_index@,
            r is Ok ==> {
                &&& final(self).state.user_index@ == old(self).state.user_index@
                &&& final(self).state.groups@.len() == old(self).state.groups@.len() + 1
                &&& final(self).state.groups@.drop_last() == old(self).state.groups@
                &&& {
                    let g = final(self).state.groups@.last();
                    &&& g.object_id@ == object_id@
                    &&& g.workspace_id@ == workspace_id@
                    &&& g.collab_type == collab_type
                    &&& g.uid == user.uid
                    &&& g.is_new_collab == (stored_workspace_id is None)
                    &&& g.indexing_enabled == (has_indexer && can_index == Ok::<bool, String>(true))
                    &&& g.subs().len() == 0
                    &&& g.idle_since() == Some(now)
                    &&& g.prune_grace_period == old(self).prune_grace_period
                    &&& loaded matches Ok(d) && g.doc_state@ == d@
                }
            },
            forall|o: Seq<char>|
                o != object_id@ ==> #[trigger] final(self).has_group(o) == old(self).has_group(o),
            final(self).has_group(object_id@) == (old(self).has_group(object_id@) || r is Ok),
            final(self).prune_grace_period == old(self).prune_grace_period,
    {
        if self.state.contains_group(object_id) {
            return Err(RealtimeError::CannotCreateGroup(object_id.clone()));
        }
        let plan = match prepare_group(
            user,
            workspace_id,
            object_id,
            collab_type,
            stored_workspace_id,
            has_indexer,
            can_index,
        ) {
            Ok(p) => p,
            Err(e) => {
                return Err(e);
            },
        };
        let doc_state = match loaded {
            Ok(d) => d,
            Err(e) => {
                return Err(e);
            },
        };
        let group = CollabGroup::new(
            user.uid,
            workspace_id.clone(),
            object_id.clone(),
            collab_type,
            plan.is_new_collab,
            plan.indexing_enabled,
            self.persistence_interval,
            self.prune_grace_period,
            doc_state,
            now,
        );
        let ghost before = self.state.groups@;
        self.state.insert_group(group);
        proof {
            let after = self.state.groups@;
            assert forall|o: Seq<char>|
                o != object_id@ implies #[trigger] holds_group(after, o) == holds_group(before, o) by {
                if holds_group(after, o) {
                    let j = choose|j: int| 0 <= j < after.len() && (#[trigger] after[j]).object_id@ == o;
                    assert(before[j] == after[j]);
                }
                if holds_group(before, o) {
                    let j = choose|j: int| 0 <= j < before.len() && (#[trigger] before[j]).object_id@ == o;
                    assert(before[j] == after[j]);
                }
            }
            assert(after[before.len() as int].object_id@ == object_id@);
        }
        Ok(())
    }
}

} // verus!
