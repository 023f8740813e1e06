use vstd::prelude::*;
use crate::error::RealtimeError;

verus! {

/// What came of trying one stored snapshot, newest first.
#[derive(Debug)]
pub enum SnapshotOutcome {
    /// The snapshot's bytes could not be read from storage.
    FetchFailed,
    /// The bytes do not decode into an encoded document.
    Undecodable,
    /// The encoded document does not rebuild into a replica.
    Unbuildable,
    /// The replica lacks data that its kind requires.
    MissingRequiredData,
    /// The snapshot decodes and validates; it carries the document state.
    Valid(Vec<u8>),
}

/// A document made usable: its state, and whether it came from a snapshot.
#[derive(Debug)]
pub struct LoadedCollab {
    pub doc_state: Vec<u8>,
    pub from_snapshot: bool,
}

/// The position of the first usable snapshot, newest first.
pub open spec fn first_valid(s: Seq<SnapshotOutcome>) -> Option<int>
    decreases s.len(),
{
    if s.len() == 0 {
        None
    } else {
        match s[0] {
            SnapshotOutcome::Valid(_) => Some(0),
            _ => match first_valid(s.drop_first()) {
                Some(k) => Some(k + 1),
                None => None,
            },
        }
    }
}

proof fn lemma_first_valid_found(s: Seq<SnapshotOutcome>)
    ensures
        first_valid(s) matches Some(i) ==> 0 <= i < s.len() && s[i] is Valid,
    decreases s.len(),
{
    if s.len() > 0 {
        lemma_first_valid_found(s.drop_first());
    }
}

proof fn lemma_first_valid_step(s: Seq<SnapshotOutcome>, i: int)
    requires
        0 <= i < s.len(),
        forall|k: int| 0 <= k < i ==> !((#[trigger] s[k]) is Valid),
    ensures
        s[i] is Valid ==> first_valid(s) == Some(i),
        !(s[i] is Valid) ==> first_valid(s) == match first_valid(
            s.subrange(i + 1, s.len() as int),
        ) {
            Some(k) => Some(k + i + 1),
            None => None::<int>,
        },
    decreases i,
{
    if i > 0 {
        let t = s.drop_first();
        assert forall|k: int| 0 <= k < i - 1 implies !((#[trigger] t[k]) is Valid) by {
            assert(t[k] == s[k + 1]);
        }
        lemma_first_valid_step(t, i - 1);
        assert(t.subrange(i, t.len() as int) == s.subrange(i + 1, s.len() as int));
    } else {
        assert(s.drop_first() == s.subrange(1, s.len() as int));
    }
}

/// Picks the snapshot to recover from: the first one, newest first, that
/// decodes, rebuilds and validates. Snapshots that cannot be read, decoded,
/// rebuilt or validated are passed over.
pub fn get_latest_snapshot(outcomes: &Vec<SnapshotOutcome>) -> (r: Option<usize>)
    ensures
        match r {
            Some(i) => first_valid(outcomes@) == Some(i as int),
            None => first_valid(outcomes@) is None,
        },
{
    let mut i: usize = 0;
    while i < outcomes.len()
        invariant
            i <= outcomes@.len(),
            forall|k: int| 0 <= k < i ==> !((#[trigger] outcomes@[k]) is Valid),
        decreases outcomes@.len() - i,
    {
        proof { lemma_first_valid_step(outcomes@, i as int); }
        if let SnapshotOutcome::Valid(_) = &outcomes[i] {
            return Some(i);
        }
        i = i + 1;
    }
    proof {
        if outcomes@.len() > 0 {
            lemma_first_valid_step(outcomes@, outcomes@.len() - 1);
            assert(outcomes@.subrange(outcomes@.len() as int, outcomes@.len() as int).len() == 0);
        }
    }
    None
}

/// The document state of the snapshot to recover from, if any.
pub fn load_collab_from_snapshot(outcomes: &Vec<SnapshotOutcome>) -> (r: Option<Vec<u8>>)
    ensures
        match first_valid(outcomes@) {
            Some(i) => outcomes@[i] matches SnapshotOutcome::Valid(d) && r matches Some(
                v,
            ) && v@ == d@,
            None => r is None,
        },
{
    proof { lemma_first_valid_found(outcomes@); }
    match get_latest_snapshot(outcomes) {
        Some(i) => match &outcomes[i] {
            SnapshotOutcome::Valid(d) => Some(d.clone()),
            _ => None,
        },
        None => None,
    }
}

/// Produces a usable document: the stored state when it rebuilds, else the
/// newest usable snapshot. A failed read of the stored state is passed on;
/// when no snapshot is usable the required data is missing.
pub fn load_collab(
    object_id: &String,
    primary: Result<Vec<u8>, RealtimeError>,
    primary_rebuilds: bool,
    snapshots: &Vec<SnapshotOutcome>,
) -> (r: Result<LoadedCollab, RealtimeError>)
    ensures
        match primary {
            Err(e) => r == Err::<LoadedCollab, RealtimeError>(e),
            Ok(d) => if primary_rebuilds {
                r matches Ok(l) && l.doc_state@ == d@ && !l.from_snapshot
            } else {
                match first_valid(snapshots@) {
                    Some(i) => snapshots@[i] matches SnapshotOutcome::Valid(s) && r matches Ok(
                        l,
                    ) && l.doc_state@ == s@ && l.from_snapshot,
                    None => r matches Err(RealtimeError::NoRequiredCollabData(m)) && m@
                        == object_id@,
                }
            },
        },
{
    match primary {
        Err(e) => Err(e),
        Ok(d) => {
            if primary_rebuilds {
                Ok(LoadedCollab { doc_state: d, from_snapshot: false })
            } else {
                match load_collab_from_snapshot(snapshots) {
                    Some(s) => Ok(LoadedCollab { doc_state: s, from_snapshot: true }),
                    None => Err(RealtimeError::NoRequiredCollabData(object_id.clone())),
                }
            }
        },
    }
}

} // verus!
