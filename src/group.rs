use vstd::prelude::*;
use crate::user::{RealtimeUser, UserView};

verus! {

/// The kind of a collaborative document.
#[derive(Debug, Clone, Copy, PartialEq, Eq, Structural)]
pub enum CollabType {
    Document,
    Database,
    WorkspaceDatabase,
    Folder,
    DatabaseRow,
    UserAwareness,
    Unknown,
}

/// Whether `subs` holds the session `u`.
pub open spec fn has_user(subs: Seq<RealtimeUser>, u: UserView) -> bool {
    exists|i: int| 0 <= i < subs.len() && (#[trigger] subs[i])@ == u
}

/// The live session of one document: its identity, its subscribers, and
/// since when it has had none.
pub struct CollabGroup {
    pub uid: i64,
    pub workspace_id: String,
    pub object_id: String,
    pub collab_type: CollabType,
    pub is_new_collab: bool,
    pub indexing_enabled: bool,
    pub persistence_interval: u64,
    pub prune_grace_period: u64,
    /// The document state the group was opened with.
    pub doc_state: Vec<u8>,
    pub subscribers: Vec<RealtimeUser>,
    pub empty_since: Option<u64>,
}

impl CollabGroup {
    /// Each session subscribes at most once, and the group counts as empty
    /// exactly when no session is subscribed.
    pub open spec fn wf(&self) -> bool {
        &&& forall|i: int, j: int|
            0 <= i < j < self.subscribers@.len() ==> (#[trigger] self.subscribers@[i])@
                != (#[trigger] self.subscribers@[j])@
        &&& (self.subscribers@.len() == 0) == (self.empty_since is Some)
    }

    /// Everything but the subscribers and the idle clock agrees.
    pub open spec fn same_identity(&self, other: &CollabGroup) -> bool {
        &&& self.uid == other.uid
        &&& self.workspace_id@ == other.workspace_id@
        &&& self.object_id@ == other.object_id@
        &&& self.collab_type == other.collab_type
        &&& self.is_new_collab == other.is_new_collab
        &&& self.indexing_enabled == other.indexing_enabled
        &&& self.persistence_interval == other.persistence_interval
        &&& self.prune_grace_period == other.prune_grace_period
        &&& self.doc_state@ == other.doc_state@
    }

    pub open spec fn subs(&self) -> Seq<RealtimeUser> {
        self.subscribers@
    }

    /// The moment the subscriber set last became empty, while it is empty.
    pub open spec fn idle_since(&self) -> Option<u64> {
        self.empty_since
    }

    pub open spec fn has_subscriber(&self, u: UserView) -> bool {
        has_user(self.subs(), u)
    }

    /// Inactive: empty for at least the prune grace period at `now`.
    pub open spec fn inactive_at(&self, now: u64) -> bool {
        match self.idle_since() {
            Some(t) => t <= now && now - t >= self.prune_grace_period,
            None => false,
        }
    }

    /// A group with no subscriber yet; its idle time counts from `now`.
    pub fn new(
        uid: i64,
        workspace_id: String,
        object_id: String,
        collab_type: CollabType,
        is_new_collab: bool,
        indexing_enabled: bool,
        persistence_interval: u64,
        prune_grace_period: u64,
        doc_state: Vec<u8>,
        now: u64,
    ) -> (r: Self)
        ensures
            r.wf(),
            r.uid == uid,
            r.workspace_id@ == workspace_id@,
            r.object_id@ == object_id@,
            r.collab_type == collab_type,
            r.is_new_collab == is_new_collab,
            r.indexing_enabled == indexing_enabled,
            r.persistence_interval == persistence_interval,
            r.prune_grace_period == prune_grace_period,
            r.doc_state@ == doc_state@,
            r.subs().len() == 0,
            r.idle_since() == Some(now),
    {
        CollabGroup {
            uid,
            workspace_id,
            object_id,
            collab_type,
            is_new_collab,
            indexing_enabled,
            persistence_interval,
            prune_grace_period,
            doc_state,
            subscribers: Vec::new(),
            empty_since: Some(now),
        }
    }

    pub fn workspace_id(&self) -> (r: &String)
        ensures
            r@ == self.workspace_id@,
    {
        &self.workspace_id
    }

    pub fn subscriber_count(&self) -> (r: usize)
        ensures
            r == self.subs().len(),
    {
        self.subscribers.len()
    }

    /// Whether the session `user` is subscribed.
    pub fn contains_user(&self, user: &RealtimeUser) -> (r: bool)
        ensures
            r == self.has_subscriber(user@),
    {
        self.position_of(user).is_some()
    }

    /// Attaches a session; subscribing it again keeps a single entry.
    pub fn subscribe(&mut self, user: &RealtimeUser)
        requires
            old(self).wf(),
        ensures
            final(self).wf(),
            forall|u: UserView|
                #[trigger] final(self).has_subscriber(u) == (old(self).has_subscriber(u) || u
                    == user@),
            final(self).idle_since() is None,
            final(self).object_id@ == old(self).object_id@,
            final(self).workspace_id@ == old(self).workspace_id@,
            final(self).prune_grace_period == old(self).prune_grace_period,
    {
        if !self.contains_user(user) {
            let ghost before = self.subscribers@;
            self.subscribers.push(user.duplicate());
            proof {
                assert forall|u: UserView| #[trigger]
                    has_user(self.subscribers@, u) == (has_user(before, u) || u == user@) by {
                    if has_user(before, u) {
                        let i = choose|i: int| 0 <= i < before.len() && (#[trigger] before[i])@ == u;
                        assert(self.subscribers@[i] == before[i]);
                    }
                    if u == user@ {
                        assert(self.subscribers@[before.len() as int]@ == u);
                    }
                    if has_user(self.subscribers@, u) {
                        let i = choose|i: int| 0 <= i < self.subscribers@.len() && (#[trigger] self.subscribers@[i])@ == u;
                        if i < before.len() {
                            assert(before[i] == self.subscribers@[i]);
                        }
                    }
                }
            }
        }
        self.empty_since = None;
    }

    /// Detaches a session; when none is left, the group is idle from `now`.
    pub fn unsubscribe(&mut self, user: &RealtimeUser, now: u64) -> (r: bool)
        requires
            old(self).wf(),
        ensures
            final(self).wf(),
            r == old(self).has_subscriber(user@),
            forall|u: UserView|
                #[trigger] final(self).has_subscriber(u) == (old(self).has_subscriber(u) && u
                    != user@),
            r && final(self).subs().len() == 0 ==> final(self).idle_since() == Some(now),
            !r ==> *final(self) == *old(self),
            final(self).same_identity(&*old(self)),
            final(self).object_id@ == old(self).object_id@,
            final(self).workspace_id@ == old(self).workspace_id@,
            final(self).prune_grace_period == old(self).prune_grace_period,
    {
        match self.position_of(user) {
            None => false,
            Some(i) => {
                let ghost before = self.subscribers@;
                self.subscribers.remove(i);
                proof {
                    let after = self.subscribers@;
                    assert(after == before.remove(i as int));
                    assert forall|u: UserView| #[trigger]
                        has_user(after, u) == (has_user(before, u) && u != user@) by {
                        if has_user(after, u) {
                            let j = choose|j: int| 0 <= j < after.len() && (#[trigger] after[j])@ == u;
                            if j < i {
                                assert(before[j] == after[j]);
                                assert(before[j]@ != before[i as int]@);
                            } else {
                                assert(before[j + 1] == after[j]);
                                assert(before[j + 1]@ != before[i as int]@);
                            }
                        }
                        if has_user(before, u) && u != user@ {
                            let j = choose|j: int| 0 <= j < before.len() && (#[trigger] before[j])@ == u;
                            if j < i {
                                assert(after[j] == before[j]);
                            } else {
                                assert(j != i);
                                assert(after[j - 1] == before[j]);
                            }
                        }
                    }
                    assert(has_user(before, user@)) by {
                        assert(before[i as int]@ == user@);
                    }
                    assert forall|a: int, b: int|
                        0 <= a < b < after.len() implies (#[trigger] after[a])@ != (#[trigger] after[b])@ by {
                        let a2 = if a < i { a } else { a + 1 };
                        let b2 = if b < i { b } else { b + 1 };
                        assert(after[a] == before[a2]);
                        assert(after[b] == before[b2]);
                        assert(before[a2]@ != before[b2]@);
                    }
                }
                if self.subscribers.len() == 0 {
                    self.empty_since = Some(now);
                }
                true
            },
        }
    }

    /// Where the session `user` stands among the subscribers.
    fn position_of(&self, user: &RealtimeUser) -> (r: Option<usize>)
        ensures
            match r {
                Some(i) => i < self.subs().len() && self.subs()[i as int]@ == user@,
                None => !self.has_subscriber(user@),
            },
    {
        let mut i: usize = 0;
        while i < self.subscribers.len()
            invariant
                i <= self.subscribers@.len(),
                forall|k: int| 0 <= k < i ==> (#[trigger] self.subscribers@[k])@ != user@,
            decreases self.subscribers@.len() - i,
        {
            if self.subscribers[i].same_as(user) {
                return Some(i);
            }
            i = i + 1;
        }
        None
    }

    /// Whether the group has been empty for at least its grace period at `now`.
    pub fn is_inactive(&self, now: u64) -> (r: bool)
        ensures
            r == self.inactive_at(now),
    {
        match self.empty_since {
            Some(t) => t <= now && now - t >= self.prune_grace_period,
            None => false,
        }
    }
}

} // verus!
