use vstd::prelude::*;
use crate::group::CollabGroup;
use crate::user::{RealtimeUser, UserView};

verus! {

/// One line of the user index: `user` is attached to `object_id`.
pub struct UserEntry {
    pub user: RealtimeUser,
    pub object_id: String,
}

/// The registry of live groups, by document id, and of the documents each
/// session is attached to.
pub struct GroupManagementState {
    pub groups: Vec<CollabGroup>,
    pub user_index: Vec<UserEntry>,
}

/// The contents of a list of ids.
pub open spec fn ids_of(v: Seq<String>) -> Seq<Seq<char>> {
    v.map_values(|s: String| s@)
}

/// Whether the user index lists `u` as attached to `oid`.
pub open spec fn index_has(index: Seq<UserEntry>, u: UserView, oid: Seq<char>) -> bool {
    exists|k: int|
        0 <= k < index.len() && (#[trigger] index[k]).user@ == u && index[k].object_id@ == oid
}

/// Whether some group for `oid` has `u` among its subscribers.
pub open spec fn subscribed(groups: Seq<CollabGroup>, u: UserView, oid: Seq<char>) -> bool {
    exists|i: int|
        0 <= i < groups.len() && (#[trigger] groups[i]).object_id@ == oid
            && groups[i].has_subscriber(u)
}

pub open spec fn holds_group(groups: Seq<CollabGroup>, oid: Seq<char>) -> bool {
    exists|i: int| 0 <= i < groups.len() && (#[trigger] groups[i]).object_id@ == oid
}

/// No two groups share a document id.
pub open spec fn unique_ids(groups: Seq<CollabGroup>) -> bool {
    forall|i: int, j: int|
        0 <= i < j < groups.len() ==> (#[trigger] groups[i]).object_id@
            != (#[trigger] groups[j]).object_id@
}


proof fn lemma_index_push(s: Seq<UserEntry>, e: UserEntry, u: UserView, oid: Seq<char>)
    ensures
        index_has(s.push(e), u, oid) == (index_has(s, u, oid) || (e.user@ == u && e.object_id@
            == oid)),
{
    let t = s.push(e);
    if index_has(s, u, oid) {
        let k = choose|k: int| 0 <= k < s.len() && (#[trigger] s[k]).user@ == u && s[k].object_id@ == oid;
        assert(t[k] == s[k]);
    }
    if e.user@ == u && e.object_id@ == oid {
        assert(t[s.len() as int] == e);
    }
    if index_has(t, u, oid) {
        let k = choose|k: int| 0 <= k < t.len() && (#[trigger] t[k]).user@ == u && t[k].object_id@ == oid;
        if k < s.len() {
            assert(s[k] == t[k]);
        }
    }
}

proof fn lemma_index_empty(u: UserView, oid: Seq<char>)
    ensures
        !index_has(Seq::<UserEntry>::empty(), u, oid),
{
}

impl GroupManagementState {
    pub open spec fn has_group(&self, oid: Seq<char>) -> bool {
        holds_group(self.groups@, oid)
    }

    pub open spec fn has_user(&self, u: UserView, oid: Seq<char>) -> bool {
        index_has(self.user_index@, u, oid)
    }

    /// At most one group per document; every group well formed; and the user
    /// index lists exactly the subscriptions that the groups hold.
    pub open spec fn wf(&self) -> bool {
        &&& unique_ids(self.groups@)
        &&& forall|i: int| 0 <= i < self.groups@.len() ==> (#[trigger] self.groups@[i]).wf()
        &&& forall|u: UserView, oid: Seq<char>|
            #[trigger] index_has(self.user_index@, u, oid) == subscribed(self.groups@, u, oid)
    }

    pub fn new() -> (r: Self)
        ensures
            r.wf(),
            r.groups@.len() == 0,
            r.user_index@.len() == 0,
    {
        GroupManagementState { groups: Vec::new(), user_index: Vec::new() }
    }

    /// Where the group of `object_id` stands.
    pub fn find_group(&self, object_id: &String) -> (r: Option<usize>)
        ensures
            match r {
                Some(i) => i < self.groups@.len() && self.groups@[i as int].object_id@
                    == object_id@,
                None => !self.has_group(object_id@),
            },
    {
        let mut i: usize = 0;
        while i < self.groups.len()
            invariant
                i <= self.groups@.len(),
                forall|k: int| 0 <= k < i ==> (#[trigger] self.groups@[k]).object_id@ != object_id@,
            decreases self.groups@.len() - i,
        {
            if self.groups[i].object_id.eq(object_id) {
                return Some(i);
            }
            i = i + 1;
        }
        None
    }

    /// Whether a group for `object_id` is registered.
    pub fn contains_group(&self, object_id: &String) -> (r: bool)
        ensures
            r == self.has_group(object_id@),
    {
        self.find_group(object_id).is_some()
    }

    /// The group registered for `object_id`.
    pub fn get_group(&self, object_id: &String) -> (r: Option<&CollabGroup>)
        ensures
            match r {
                Some(g) => g.object_id@ == object_id@ && self.groups@.contains(*g),
                None => !self.has_group(object_id@),
            },
    {
        match self.find_group(object_id) {
            Some(i) => Some(&self.groups[i]),
            None => None,
        }
    }

    /// Whether the user index lists `user` as attached to `object_id`.
    pub fn contains_user(&self, object_id: &String, user: &RealtimeUser) -> (r: bool)
        ensures
            r == self.has_user(user@, object_id@),
    {
        let mut k: usize = 0;
        while k < self.user_index.len()
            invariant
                k <= self.user_index@.len(),
                forall|j: int|
                    0 <= j < k ==> !((#[trigger] self.user_index@[j]).user@ == user@
                        && self.user_index@[j].object_id@ == object_id@),
            decreases self.user_index@.len() - k,
        {
            let e = &self.user_index[k];
            if e.user.same_as(user) && e.object_id.eq(object_id) {
                return true;
            }
            k = k + 1;
        }
        false
    }

    /// Registers a new group, which has no subscriber yet.
    pub fn insert_group(&mut self, group: CollabGroup)
        requires
            old(self).wf(),
            group.wf(),
            group.subs().len() == 0,
            !old(self).has_group(group.object_id@),
        ensures
            final(self).wf(),
            final(self).groups@ == old(self).groups@.push(group),
            final(self).user_index@ == old(self).user_index@,
    {
        let ghost before = self.groups@;
        let ghost g = group;
        self.groups.push(group);
        proof {
            let after = self.groups@;
            assert forall|i: int, j: int|
                0 <= i < j < after.len() implies (#[trigger] after[i]).object_id@
                    != (#[trigger] after[j]).object_id@ by {
                if j == before.len() {
                    assert(before[i] == after[i]);
                } else {
                    assert(before[i] == after[i] && before[j] == after[j]);
                }
            }
            assert forall|i: int| 0 <= i < after.len() implies (#[trigger] after[i]).wf() by {
                if i < before.len() {
                    assert(before[i] == after[i]);
                }
            }
            assert forall|u: UserView, oid: Seq<char>|
                #[trigger] index_has(self.user_index@, u, oid) == subscribed(after, u, oid) by {
                if subscribed(after, u, oid) {
                    let i = choose|i: int|
                        0 <= i < after.len() && (#[trigger] after[i]).object_id@ == oid
                            && after[i].has_subscriber(u);
                    if i == before.len() {
                        assert(after[i] == g);
                        assert(false);
                    } else {
                        assert(before[i] == after[i]);
                    }
                }
                if subscribed(before, u, oid) {
                    let i = choose|i: int|
                        0 <= i < before.len() && (#[trigger] before[i]).object_id@ == oid
                            && before[i].has_subscriber(u);
                    assert(before[i] == after[i]);
                }
            }
        }
    }

    /// Attaches `user` to the group of `object_id`: the group first, then the
    /// user index. Nothing changes when no such group is registered.
    pub fn subscribe_user(&mut self, user: &RealtimeUser, object_id: &String) -> (r: bool)
        requires
            old(self).wf(),
        ensures
            final(self).wf(),
            r == old(self).has_group(object_id@),
            !r ==> final(self).groups@ == old(self).groups@ && final(self).user_index@ == old(
                self,
            ).user_index@,
            forall|o: Seq<char>| #[trigger] final(self).has_group(o) == old(self).has_group(o),
            forall|u: UserView, o: Seq<char>|
                #[trigger] final(self).has_user(u, o) == (old(self).has_user(u, o) || (r && u
                    == user@ && o == object_id@)),
    {
        match self.find_group(object_id) {
            None => false,
            Some(i) => {
                let ghost before = self.groups@;
                self.groups[i].subscribe(user);
                proof {
                    let after = self.groups@;
                    assert forall|o: Seq<char>| holds_group(after, o) == holds_group(before, o) by {
                        if holds_group(after, o) {
                            let j = choose|j: int| 0 <= j < after.len() && (#[trigger] after[j]).object_id@ == o;
                            assert(before[j].object_id@ == after[j].object_id@);
                        }
                        if holds_group(before, o) {
                            let j = choose|j: int| 0 <= j < before.len() && (#[trigger] before[j]).object_id@ == o;
                            assert(before[j].object_id@ == after[j].object_id@);
                        }
                    }
                    assert forall|a: int, b: int|
                        0 <= a < b < after.len() implies (#[trigger] after[a]).object_id@
                            != (#[trigger] after[b]).object_id@ by {
                        assert(before[a].object_id@ == after[a].object_id@);
                        assert(before[b].object_id@ == after[b].object_id@);
                    }
                    assert forall|u: UserView, o: Seq<char>|
                        #[trigger] subscribed(after, u, o) == (subscribed(before, u, o) || (u
                            == user@ && o == object_id@)) by {
                        if subscribed(after, u, o) {
                            let j = choose|j: int|
                                0 <= j < after.len() && (#[trigger] after[j]).object_id@ == o
                                    && after[j].has_subscriber(u);
                            if j != i {
                                assert(before[j] == after[j]);
                            }
                        }
                        if subscribed(before, u, o) {
                            let j = choose|j: int|
                                0 <= j < before.len() && (#[trigger] before[j]).object_id@ == o
                                    && before[j].has_subscriber(u);
                            if j != i {
                                assert(before[j] == after[j]);
                            } else {
                                assert(after[j].has_subscriber(u));
                            }
                        }
                        if u == user@ && o == object_id@ {
                            assert(after[i as int].has_subscriber(u));
                        }
                    }
                }
                if !self.contains_user(object_id, user) {
                    let ghost idx = self.user_index@;
                    let e = UserEntry { user: user.duplicate(), object_id: object_id.clone() };
                    self.user_index.push(e);
                    proof {
                        assert forall|u: UserView, o: Seq<char>|
                            #[trigger] index_has(self.user_index@, u, o) == (index_has(idx, u, o)
                                || (u == user@ && o == object_id@)) by {
                            lemma_index_push(idx, e, u, o);
                        }
                    }
                }
                true
            },
        }
    }

    /// Unregisters the group of `object_id` and drops its lines from the user
    /// index.
    pub fn remove_group(&mut self, object_id: &String) -> (r: bool)
        requires
            old(self).wf(),
        ensures
            final(self).wf(),
            r == old(self).has_group(object_id@),
            !final(self).has_group(object_id@),
            forall|o: Seq<char>|
                o != object_id@ ==> #[trigger] final(self).has_group(o) == old(self).has_group(o),
            forall|u: UserView, o: Seq<char>|
                #[trigger] final(self).has_user(u, o) == (old(self).has_user(u, o) && o
                    != object_id@),
    {
        match self.find_group(object_id) {
            None => {
                proof {
                    assert forall|u: UserView, o: Seq<char>|
                        #[trigger] index_has(self.user_index@, u, o) implies o != object_id@ by {
                        if o == object_id@ {
                            assert(subscribed(self.groups@, u, o));
                            let j = choose|j: int|
                                0 <= j < self.groups@.len() && (#[trigger] self.groups@[j]).object_id@ == o
                                    && self.groups@[j].has_subscriber(u);
                            assert(holds_group(self.groups@, o));
                        }
                    }
                }
                false
            },
            Some(i) => {
                let ghost before = self.groups@;
                let _removed = self.groups.remove(i);
                let ghost idx = self.user_index@;
                let mut kept: Vec<UserEntry> = Vec::new();
                let mut k: usize = 0;
                while k < self.user_index.len()
                    invariant
                        self.user_index@ == idx,
                        k <= idx.len(),
                        forall|u: UserView, o: Seq<char>|
                            #[trigger] index_has(kept@, u, o) == (index_has(idx.take(k as int), u, o)
                                && o != object_id@),
                    decreases idx.len() - k,
                {
                    let ghost pre = kept@;
                    if !self.user_index[k].object_id.eq(object_id) {
                        let e = UserEntry {
                            user: self.user_index[k].user.duplicate(),
                            object_id: self.user_index[k].object_id.clone(),
                        };
                        kept.push(e);
                    }
                    proof {
                        assert(idx.take(k + 1) == idx.take(k as int).push(idx[k as int]));
                        assert forall|u: UserView, o: Seq<char>|
                            #[trigger] index_has(kept@, u, o) == (index_has(idx.take(k + 1), u, o)
                                && o != object_id@) by {
                            lemma_index_push(idx.take(k as int), idx[k as int], u, o);
                            if kept@ != pre {
                                lemma_index_push(pre, kept@.last(), u, o);
                                assert(kept@ == pre.push(kept@.last()));
                            }
                        }
                    }
                    k = k + 1;
                }
                self.user_index = kept;
                proof {
                    let after = self.groups@;
                    assert(idx.take(idx.len() as int) == idx);
                    assert(after == before.remove(i as int));
                    assert forall|j: int| 0 <= j < after.len() implies
                        before[if j < i { j } else { j + 1 }] == #[trigger] after[j] by {}
                    assert forall|a: int, b: int|
                        0 <= a < b < after.len() implies (#[trigger] after[a]).object_id@
                            != (#[trigger] after[b]).object_id@ by {
                        let a2 = if a < i { a } else { a + 1 };
                        let b2 = if b < i { b } else { b + 1 };
                        assert(before[a2] == after[a] && before[b2] == after[b]);
                    }
                    assert forall|j: int| 0 <= j < after.len() implies (#[trigger] after[j]).wf() by {
                        let j2 = if j < i { j } else { j + 1 };
                        assert(before[j2] == after[j]);
                    }
                    assert forall|o: Seq<char>|
                        holds_group(after, o) == (holds_group(before, o) && o != object_id@) by {
                        if holds_group(after, o) {
                            let j = choose|j: int| 0 <= j < after.len() && (#[trigger] after[j]).object_id@ == o;
                            let j2 = if j < i { j } else { j + 1 };
                            assert(before[j2] == after[j]);
                            assert(before[j2].object_id@ != before[i as int].object_id@);
                        }
                        if holds_group(before, o) && o != object_id@ {
                            let j = choose|j: int| 0 <= j < before.len() && (#[trigger] before[j]).object_id@ == o;
                            assert(j != i);
                            let j3 = if j < i { j } else { j - 1 };
                            assert(after[j3] == before[j]);
                        }
                    }
                    assert forall|u: UserView, o: Seq<char>|
                        #[trigger] subscribed(after, u, o) == (subscribed(before, u, o) && o
                            != object_id@) by {
                        if subscribed(after, u, o) {
                            let j = choose|j: int|
                                0 <= j < after.len() && (#[trigger] after[j]).object_id@ == o
                                    && after[j].has_subscriber(u);
                            let j2 = if j < i { j } else { j + 1 };
                            assert(before[j2] == after[j]);
                            assert(before[j2].object_id@ != before[i as int].object_id@);
                        }
                        if subscribed(before, u, o) && o != object_id@ {
                            let j = choose|j: int|
                                0 <= j < before.len() && (#[trigger] before[j]).object_id@ == o
                                    && before[j].has_subscriber(u);
                            assert(j != i);
                            let j3 = if j < i { j } else { j - 1 };
                            assert(after[j3] == before[j]);
                        }
                    }
                }
                true
            },
        }
    }

    /// Ids of the groups that have been empty for at least their grace
    /// period at `now`, in registry order.
    pub fn get_inactive_group_ids(&self, now: u64) -> (r: Vec<String>)
        ensures
            unique_ids(self.groups@) ==> ids_of(r@).no_duplicates(),
            forall|o: Seq<char>|
                #[trigger] ids_of(r@).contains(o) == (exists|i: int|
                    0 <= i < self.groups@.len() && (#[trigger] self.groups@[i]).object_id@ == o
                        && self.groups@[i].inactive_at(now)),
    {
        let mut out: Vec<String> = Vec::new();
        let mut i: usize = 0;
        while i < self.groups.len()
            invariant
                i <= self.groups@.len(),
                unique_ids(self.groups@) ==> ids_of(out@).no_duplicates(),
                forall|o: Seq<char>|
                    #[trigger] ids_of(out@).contains(o) == (exists|j: int|
                        0 <= j < i && (#[trigger] self.groups@[j]).object_id@ == o
                            && self.groups@[j].inactive_at(now)),
            decreases self.groups@.len() - i,
        {
            let ghost pre = out@;
            if self.groups[i].is_inactive(now) {
                out.push(self.groups[i].object_id.clone());
            }
            proof {
                let m = ids_of(out@);
                let pm = ids_of(pre);
                assert forall|o: Seq<char>|
                    #[trigger] m.contains(o) == (exists|j: int|
                        0 <= j < i + 1 && (#[trigger] self.groups@[j]).object_id@ == o
                            && self.groups@[j].inactive_at(now)) by {
                    if out@ != pre {
                        assert(m == pm.push(self.groups@[i as int].object_id@));
                    } else {
                        assert(m == pm);
                    }
                    if m.contains(o) {
                        let k = choose|k: int| 0 <= k < m.len() && m[k] == o;
                        if k < pm.len() {
                            assert(pm[k] == m[k]);
                            assert(pm.contains(o));
                        }
                    }
                    if pm.contains(o) {
                        let k = choose|k: int| 0 <= k < pm.len() && pm[k] == o;
                        assert(m[k] == pm[k]);
                    }
                    if self.groups@[i as int].object_id@ == o && self.groups@[i as int].inactive_at(now) {
                        assert(m[m.len() - 1] == o);
                    }
                }
                if unique_ids(self.groups@) && out@ != pre {
                    let o = self.groups@[i as int].object_id@;
                    assert(m == pm.push(o));
                    if pm.contains(o) {
                        let j = choose|j: int|
                            0 <= j < i && (#[trigger] self.groups@[j]).object_id@ == o
                                && self.groups@[j].inactive_at(now);
                        assert(self.groups@[j].object_id@ != self.groups@[i as int].object_id@);
                    }
                    assert forall|a: int, b: int|
                        0 <= a < m.len() && 0 <= b < m.len() && a != b implies m[a] != m[b] by {
                        if a < pm.len() && b < pm.len() {
                            assert(m[a] == pm[a] && m[b] == pm[b]);
                        } else if a < pm.len() {
                            assert(m[a] == pm[a]);
                            assert(pm.contains(m[a]));
                        } else if b < pm.len() {
                            assert(m[b] == pm[b]);
                            assert(pm.contains(m[b]));
                        }
                    }
                }
            }
            i = i + 1;
        }
        out
    }

    /// Detaches the session `user` from every group and from the user index.
    /// A group left without subscribers is idle from `now`.
    pub fn remove_user(&mut self, user: &RealtimeUser, now: u64)
        requires
            old(self).wf(),
        ensures
            final(self).wf(),
            final(self).groups@.len() == old(self).groups@.len(),
            forall|o: Seq<char>| #[trigger] final(self).has_group(o) == old(self).has_group(o),
            forall|u: UserView, o: Seq<char>|
                #[trigger] final(self).has_user(u, o) == (old(self).has_user(u, o) && u != user@),
            forall|j: int|
                0 <= j < old(self).groups@.len() ==> (#[trigger] final(self).groups@[j]).same_identity(
                    &old(self).groups@[j],
                ),
            forall|j: int, u: UserView|
                0 <= j < old(self).groups@.len() ==> #[trigger] final(self).groups@[j].has_subscriber(u)
                    == (old(self).groups@[j].has_subscriber(u) && u != user@),
            forall|j: int|
                0 <= j < old(self).groups@.len() && !old(self).groups@[j].has_subscriber(user@)
                    ==> #[trigger] final(self).groups@[j] == old(self).groups@[j],
            forall|j: int|
                0 <= j < old(self).groups@.len() && old(self).groups@[j].has_subscriber(user@)
                    && (#[trigger] final(self).groups@[j]).subs().len() == 0
                    ==> final(self).groups@[j].idle_since() == Some(now),
    {
        let ghost before = self.groups@;
        let mut i: usize = 0;
        while i < self.groups.len()
            invariant
                self.user_index@ == old(self).user_index@,
                before == old(self).groups@,
                self.groups@.len() == before.len(),
                i <= before.len(),
                forall|j: int| 0 <= j < before.len() ==> (#[trigger] self.groups@[j]).wf(),
                forall|j: int|
                    0 <= j < before.len() ==> (#[trigger] self.groups@[j]).object_id@
                        == before[j].object_id@,
                forall|j: int| i <= j < before.len() ==> #[trigger] self.groups@[j] == before[j],
                forall|j: int|
                    0 <= j < before.len() ==> (#[trigger] self.groups@[j]).same_identity(&before[j]),
                forall|j: int|
                    0 <= j < i && !before[j].has_subscriber(user@) ==> #[trigger] self.groups@[j]
                        == before[j],
                forall|j: int|
                    0 <= j < i && before[j].has_subscriber(user@)
                        && (#[trigger] self.groups@[j]).subs().len() == 0
                        ==> self.groups@[j].idle_since() == Some(now),
                forall|j: int, u: UserView|
                    0 <= j < i ==> #[trigger] self.groups@[j].has_subscriber(u) == (
                    before[j].has_subscriber(u) && u != user@),
            decreases before.len() - i,
        {
            let ghost mid = self.groups@;
            let _was = self.groups[i].unsubscribe(user, now);
            proof {
                assert forall|j: int| 0 <= j < before.len() && j != i implies
                    #[trigger] self.groups@[j] == mid[j] by {}
            }
            i = i + 1;
        }
        let ghost idx = self.user_index@;
        let ghost mid_groups = self.groups@;
        let mut kept: Vec<UserEntry> = Vec::new();
        let mut k: usize = 0;
        while k < self.user_index.len()
            invariant
                self.user_index@ == idx,
                self.groups@ == mid_groups,
                k <= idx.len(),
                forall|u: UserView, o: Seq<char>|
                    #[trigger] index_has(kept@, u, o) == (index_has(idx.take(k as int), u, o) && u
                        != user@),
            decreases idx.len() - k,
        {
            let ghost pre = kept@;
            if !self.user_index[k].user.same_as(user) {
                let e = UserEntry {
                    user: self.user_index[k].user.duplicate(),
                    object_id: self.user_index[k].object_id.clone(),
                };
                kept.push(e);
            }
            proof {
                assert(idx.take(k + 1) == idx.take(k as int).push(idx[k as int]));
                assert forall|u: UserView, o: Seq<char>|
                    #[trigger] index_has(kept@, u, o) == (index_has(idx.take(k + 1), u, o) && u
                        != user@) by {
                    lemma_index_push(idx.take(k as int), idx[k as int], u, o);
                    if kept@ != pre {
                        lemma_index_push(pre, kept@.last(), u, o);
                        assert(kept@ == pre.push(kept@.last()));
                    }
                }
            }
            k = k + 1;
        }
        self.user_index = kept;
        proof {
            let after = self.groups@;
            assert(idx.take(idx.len() as int) == idx);
            assert forall|a: int, b: int|
                0 <= a < b < after.len() implies (#[trigger] after[a]).object_id@
                    != (#[trigger] after[b]).object_id@ by {
                assert(before[a].object_id@ == after[a].object_id@);
                assert(before[b].object_id@ == after[b].object_id@);
            }
            assert forall|o: Seq<char>| holds_group(after, o) == holds_group(before, o) by {
                if holds_group(after, o) {
                    let j = choose|j: int| 0 <= j < after.len() && (#[trigger] after[j]).object_id@ == o;
                    assert(before[j].object_id@ == after[j].object_id@);
                }
                if holds_group(before, o) {
                    let j = choose|j: int| 0 <= j < before.len() && (#[trigger] before[j]).object_id@ == o;
                    assert(before[j].object_id@ == after[j].object_id@);
                }
            }
            assert forall|u: UserView, o: Seq<char>|
                #[trigger] subscribed(after, u, o) == (subscribed(before, u, o) && u != user@) by {
                if subscribed(after, u, o) {
                    let j = choose|j: int|
                        0 <= j < after.len() && (#[trigger] after[j]).object_id@ == o
                            && after[j].has_subscriber(u);
                    assert(before[j].object_id@ == after[j].object_id@);
                    assert(before[j].has_subscriber(u));
                }
                if subscribed(before, u, o) && u != user@ {
                    let j = choose|j: int|
                        0 <= j < before.len() && (#[trigger] before[j]).object_id@ == o
                            && before[j].has_subscriber(u);
                    assert(before[j].object_id@ == after[j].object_id@);
                    assert(after[j].has_subscriber(u));
                }
            }
        }
    }
}

} // verus!
