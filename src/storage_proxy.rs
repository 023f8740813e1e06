use vstd::prelude::*;
use crate::group::CollabType;

verus! {

/// A read request for one document.
#[derive(Debug, Clone)]
pub struct QueryCollabParams {
    pub workspace_id: String,
    pub object_id: String,
    pub collab_type: CollabType,
}

impl View for QueryCollabParams {
    type V = (Seq<char>, Seq<char>, CollabType);

    open spec fn view(&self) -> (Seq<char>, Seq<char>, CollabType) {
        (self.workspace_id@, self.object_id@, self.collab_type)
    }
}

/// The answer for one document of a batch read.
#[derive(Debug)]
pub enum QueryCollabResult {
    Success { blob: Vec<u8> },
    Failed { error: String },
}

/// The cache maps a document id to the handle of its live replica. A handle
/// does not keep the replica alive.
pub struct CachedCollab {
    pub object_id: String,
    pub handle: u64,
}

/// A handle that still resolved when the read began, with the encoded state
/// of its replica.
pub struct LiveCollab {
    pub handle: u64,
    pub encoded: Vec<u8>,
}

/// Where a single read is served from.
#[derive(Debug)]
pub enum ReadRoute {
    Memory(Vec<u8>),
    Storage,
}

/// Where one request of a batch is answered: rejected by validation, served
/// from a live replica, or left for storage.
#[derive(Debug)]
pub enum BatchRoute {
    Failed(String),
    Memory(Vec<u8>),
    Storage,
}

/// `r` is the right answer to request `q` of a batch.
pub open spec fn batch_route_ok(
    cache: Seq<CachedCollab>,
    live: Seq<LiveCollab>,
    q: QueryCollabParams,
    r: BatchRoute,
) -> bool {
    match validation_message(q) {
        Some(m) => r matches BatchRoute::Failed(e) && e@ == m,
        None => match r {
            BatchRoute::Failed(_) => false,
            BatchRoute::Memory(b) => memory_hit(cache, live, q.object_id@, b@),
            BatchRoute::Storage => memory_miss(cache, live, q.object_id@),
        },
    }
}

/// The requests whose answer is left for storage, in order.
pub open spec fn storage_requests(qs: Seq<QueryCollabParams>, rs: Seq<BatchRoute>) -> Seq<(Seq<char>, Seq<char>, CollabType)>
    decreases qs.len(),
{
    if qs.len() == 0 || rs.len() == 0 {
        Seq::empty()
    } else {
        let rest = storage_requests(qs.drop_last(), rs.drop_last());
        if rs.last() is Storage && qs.len() == rs.len() {
            rest.push(qs.last()@)
        } else {
            rest
        }
    }
}

/// A storage decorator that answers reads from live replicas when it can.
pub struct CollabStorageProxy {
    pub collab_by_object_id: Vec<CachedCollab>,
}

/// Why a request is rejected before any read, if it is.
pub open spec fn validation_message(q: QueryCollabParams) -> Option<Seq<char>> {
    if q.workspace_id@.len() == 0 {
        Some("workspace_id: must not be empty"@)
    } else if q.object_id@.len() == 0 {
        Some("object_id: must not be empty"@)
    } else {
        None
    }
}

/// The cache records handle `h` for `oid`.
pub open spec fn cache_has(cache: Seq<CachedCollab>, oid: Seq<char>, h: u64) -> bool {
    exists|c: int| 0 <= c < cache.len() && (#[trigger] cache[c]).object_id@ == oid && cache[c].handle == h
}

/// `k` is the first entry of `live` for handle `h`.
pub open spec fn first_live(live: Seq<LiveCollab>, h: u64, k: int) -> bool {
    &&& 0 <= k < live.len()
    &&& live[k].handle == h
    &&& forall|j: int| 0 <= j < k ==> (#[trigger] live[j]).handle != h
}

pub open spec fn is_live(live: Seq<LiveCollab>, h: u64) -> bool {
    exists|k: int| 0 <= k < live.len() && (#[trigger] live[k]).handle == h
}

/// `oid` is cached under a handle that resolves to a replica encoded as `b`.
pub open spec fn memory_hit(cache: Seq<CachedCollab>, live: Seq<LiveCollab>, oid: Seq<char>, b: Seq<u8>) -> bool {
    exists|h: u64, k: int|
        cache_has(cache, oid, h) && #[trigger] first_live(live, h, k) && live[k].encoded@ == b
}

/// No cached handle of `oid` resolves.
pub open spec fn memory_miss(cache: Seq<CachedCollab>, live: Seq<LiveCollab>, oid: Seq<char>) -> bool {
    forall|h: u64| #[trigger] cache_has(cache, oid, h) ==> !is_live(live, h)
}

impl QueryCollabParams {
    /// Checks that both ids are present.
    pub fn validate(&self) -> (r: Result<(), String>)
        ensures
            match validation_message(*self) {
                None => r is Ok,
                Some(m) => r matches Err(e) && e@ == m,
            },
    {
        if self.workspace_id.as_str().is_empty() {
            Err(String::from_str("workspace_id: must not be empty"))
        } else if self.object_id.as_str().is_empty() {
            Err(String::from_str("object_id: must not be empty"))
        } else {
            Ok(())
        }
    }
}

/// Where `handle` first resolves among the live replicas.
pub fn resolve_live(live: &Vec<LiveCollab>, handle: u64) -> (r: Option<usize>)
    ensures
        match r {
            Some(k) => first_live(live@, handle, k as int),
            None => !is_live(live@, handle),
        },
{
    let mut k: usize = 0;
    while k < live.len()
        invariant
            k <= live@.len(),
            forall|j: int| 0 <= j < k ==> (#[trigger] live@[j]).handle != handle,
        decreases live@.len() - k,
    {
        if live[k].handle == handle {
            return Some(k);
        }
        k = k + 1;
    }
    None
}

impl CollabStorageProxy {
    /// Each document id is cached at most once.
    pub open spec fn wf(&self) -> bool {
        forall|i: int, j: int|
            0 <= i < j < self.collab_by_object_id@.len() ==> (#[trigger] self.collab_by_object_id@[i]).object_id@
                != (#[trigger] self.collab_by_object_id@[j]).object_id@
    }

    pub open spec fn cache(&self) -> Seq<CachedCollab> {
        self.collab_by_object_id@
    }

    pub fn new() -> (r: Self)
        ensures
            r.wf(),
            r.cache().len() == 0,
    {
        CollabStorageProxy { collab_by_object_id: Vec::new() }
    }

    fn position_of(&self, object_id: &String) -> (r: Option<usize>)
        ensures
            match r {
                Some(c) => c < self.cache().len() && self.cache()[c as int].object_id@ == object_id@,
                None => forall|h: u64| !cache_has(self.cache(), object_id@, h),
            },
    {
        let mut c: usize = 0;
        while c < self.collab_by_object_id.len()
            invariant
                c <= self.cache().len(),
                forall|j: int| 0 <= j < c ==> (#[trigger] self.cache()[j]).object_id@ != object_id@,
            decreases self.cache().len() - c,
        {
            if self.collab_by_object_id[c].object_id.eq(object_id) {
                return Some(c);
            }
            c = c + 1;
        }
        None
    }

    /// The handle cached for `object_id`.
    pub fn cached_handle(&self, object_id: &String) -> (r: Option<u64>)
        requires
            self.wf(),
        ensures
            match r {
                Some(h) => cache_has(self.cache(), object_id@, h) && forall|h2: u64|
                    #[trigger] cache_has(self.cache(), object_id@, h2) ==> h2 == h,
                None => forall|h: u64| !cache_has(self.cache(), object_id@, h),
            },
    {
        match self.position_of(object_id) {
            Some(c) => {
                let h = self.collab_by_object_id[c].handle;
                proof {
                    assert forall|h2: u64| #[trigger] cache_has(self.cache(), object_id@, h2) implies h2 == h by {
                        let d = choose|d: int| 0 <= d < self.cache().len() && (#[trigger] self.cache()[d]).object_id@ == object_id@ && self.cache()[d].handle == h2;
                        if d < c {
                            assert(self.cache()[d].object_id@ != self.cache()[c as int].object_id@);
                        } else if c < d {
                            assert(self.cache()[c as int].object_id@ != self.cache()[d].object_id@);
                        }
                    }
                    assert(cache_has(self.cache(), object_id@, h));
                }
                Some(h)
            },
            None => None,
        }
    }

    /// Records the live replica of `object_id`, replacing an earlier handle.
    pub fn cache_collab(&mut self, object_id: &String, handle: u64)
        requires
            old(self).wf(),
        ensures
            final(self).wf(),
            forall|o: Seq<char>, h: u64|
                #[trigger] cache_has(final(self).cache(), o, h) == if o == object_id@ {
                    h == handle
                } else {
                    cache_has(old(self).cache(), o, h)
                },
    {
        let ghost before = self.cache();
        match self.position_of(object_id) {
            Some(c) => {
                self.collab_by_object_id[c].handle = handle;
                proof {
                    let after = self.cache();
                    assert forall|j: int| 0 <= j < after.len() && j != c implies #[trigger] after[j] == before[j] by {}
                    assert forall|o: Seq<char>, h: u64|
                        #[trigger] cache_has(after, o, h) == if o == object_id@ {
                            h == handle
                        } else {
                            cache_has(before, o, h)
                        } by {
                        if cache_has(after, o, h) {
                            let d = choose|d: int| 0 <= d < after.len() && (#[trigger] after[d]).object_id@ == o && after[d].handle == h;
                            if d != c {
                                assert(after[d] == before[d]);
                                if o == object_id@ {
                                    if d < c {
                                        assert(before[d].object_id@ != before[c as int].object_id@);
                                    } else {
                                        assert(before[c as int].object_id@ != before[d].object_id@);
                                    }
                                }
                            }
                        }
                        if o == object_id@ && h == handle {
                            assert(after[c as int].object_id@ == o);
                        }
                        if o != object_id@ && cache_has(before, o, h) {
                            let d = choose|d: int| 0 <= d < before.len() && (#[trigger] before[d]).object_id@ == o && before[d].handle == h;
                            assert(after[d] == before[d]);
                        }
                    }
                }
            },
            None => {
                self.collab_by_object_id.push(CachedCollab { object_id: object_id.clone(), handle });
                proof {
                    let after = self.cache();
                    assert forall|o: Seq<char>, h: u64|
                        #[trigger] cache_has(after, o, h) == if o == object_id@ {
                            h == handle
                        } else {
                            cache_has(before, o, h)
                        } by {
                        if cache_has(after, o, h) {
                            let d = choose|d: int| 0 <= d < after.len() && (#[trigger] after[d]).object_id@ == o && after[d].handle == h;
                            if d < before.len() {
                                assert(after[d] == before[d]);
                            }
                        }
                        if o == object_id@ && h == handle {
                            assert(after[before.len() as int].object_id@ == o);
                        }
                        if cache_has(before, o, h) {
                            let d = choose|d: int| 0 <= d < before.len() && (#[trigger] before[d]).object_id@ == o && before[d].handle == h;
                            assert(after[d] == before[d]);
                        }
                    }
                    assert forall|a: int, b: int|
                        0 <= a < b < after.len() implies (#[trigger] after[a]).object_id@
                            != (#[trigger] after[b]).object_id@ by {
                        assert(after[a] == before[a]);
                        if b < before.len() {
                            assert(after[b] == before[b]);
                        } else {
                            assert(after[b].object_id@ == object_id@);
                            assert(!cache_has(before, object_id@, before[a].handle));
                        }
                    }
                }
            },
        }
    }

    /// Serves a read from the live replica of `params.object_id` when its
    /// cached handle resolves among `live`, and from storage otherwise.
    pub fn get_collab(&self, params: &QueryCollabParams, live: &Vec<LiveCollab>) -> (r: ReadRoute)
        requires
            self.wf(),
        ensures
            match r {
                ReadRoute::Memory(b) => memory_hit(self.cache(), live@, params.object_id@, b@),
                ReadRoute::Storage => memory_miss(self.cache(), live@, params.object_id@),
            },
    {
        match self.cached_handle(&params.object_id) {
            Some(h) => match resolve_live(live, h) {
                Some(k) => {
                    let b = live[k].encoded.clone();
                    proof {
                        assert(first_live(live@, h, k as int));
                    }
                    ReadRoute::Memory(b)
                },
                None => ReadRoute::Storage,
            },
            None => ReadRoute::Storage,
        }
    }

    /// Sorts a batch of reads, one answer per request in order: requests
    /// that fail validation carry the validation error, those whose live
    /// replica resolves carry its encoded state, and the rest go to storage
    /// in one batched call.
    pub fn batch_get_collab(&self, queries: &Vec<QueryCollabParams>, live: &Vec<LiveCollab>) -> (r: Vec<BatchRoute>)
        requires
            self.wf(),
        ensures
            r@.len() == queries@.len(),
            forall|i: int|
                0 <= i < queries@.len() ==> #[trigger] batch_route_ok(self.cache(), live@, queries@[i], r@[i]),
    {
        let mut out: Vec<BatchRoute> = Vec::new();
        let mut i: usize = 0;
        while i < queries.len()
            invariant
                self.wf(),
                i <= queries@.len(),
                out@.len() == i,
                forall|j: int|
                    0 <= j < i ==> #[trigger] batch_route_ok(self.cache(), live@, queries@[j], out@[j]),
            decreases queries@.len() - i,
        {
            let q = &queries[i];
            let route = match q.validate() {
                Err(e) => BatchRoute::Failed(e),
                Ok(()) => match self.get_collab(q, live) {
                    ReadRoute::Memory(b) => BatchRoute::Memory(b),
                    ReadRoute::Storage => BatchRoute::Storage,
                },
            };
            let ghost pre = out@;
            out.push(route);
            proof {
                assert forall|j: int| 0 <= j < i + 1 implies #[trigger] batch_route_ok(
                    self.cache(),
                    live@,
                    queries@[j],
                    out@[j],
                ) by {
                    if j < i {
                        assert(out@[j] == pre[j]);
                    }
                }
            }
            i = i + 1;
        }
        out
    }

    /// The requests of a batch that `routes` leaves for storage, in order.
    pub fn storage_queries(queries: &Vec<QueryCollabParams>, routes: &Vec<BatchRoute>) -> (r: Vec<QueryCollabParams>)
        requires
            queries@.len() == routes@.len(),
        ensures
            r@.map_values(|q: QueryCollabParams| q@) == storage_requests(queries@, routes@),
    {
        let mut out: Vec<QueryCollabParams> = Vec::new();
        let mut i: usize = 0;
        while i < queries.len()
            invariant
                queries@.len() == routes@.len(),
                i <= queries@.len(),
                out@.map_values(|q: QueryCollabParams| q@) == storage_requests(
                    queries@.take(i as int),
                    routes@.take(i as int),
                ),
            decreases queries@.len() - i,
        {
            let ghost pre = out@;
            if matches!(routes[i], BatchRoute::Storage) {
                let q = QueryCollabParams {
                    workspace_id: queries[i].workspace_id.clone(),
                    object_id: queries[i].object_id.clone(),
                    collab_type: queries[i].collab_type,
                };
                out.push(q);
            }
            proof {
                let qs = queries@.take(i + 1);
                let rs = routes@.take(i + 1);
                assert(qs.drop_last() == queries@.take(i as int));
                assert(rs.drop_last() == routes@.take(i as int));
                if out@ != pre {
                    assert(out@ == pre.push(out@.last()));
                    assert(out@.map_values(|q: QueryCollabParams| q@) == pre.map_values(
                        |q: QueryCollabParams| q@,
                    ).push(queries@[i as int]@));
                }
            }
            i = i + 1;
        }
        proof {
            assert(queries@.take(queries@.len() as int) == queries@);
            assert(routes@.take(routes@.len() as int) == routes@);
        }
        out
    }
}

} // verus!
