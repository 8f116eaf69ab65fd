use crate::codec::{decode_spec, decode_task, encode_spec, encode_task};
use crate::engine::{engine_get, engine_insert, engine_open, engine_remove, tree_entries};
use crate::errors::StoreError;
use crate::task::{with_id, Task, TaskSpec};
use vstd::prelude::*;

verus! {

/// Cache size, in bytes, that the engine is configured with.
pub const CACHE_CAPACITY: u64 = 1_000_000;

/// Interval, in milliseconds, within which the engine makes a successful
/// write durable. A crash sooner after a call than this may lose the write.
pub const FLUSH_INTERVAL_MS: u64 = 1000;

/// `n` is the identifier the store hands out next: one past the greatest
/// identifier in use, or 0 when the store is empty. `n == 256` means the
/// identifier space is exhausted.
pub open spec fn is_next_id(m: Map<u8, Seq<u8>>, n: int) -> bool {
    &&& 0 <= n <= 256
    &&& forall|k: u8| m.contains_key(k) ==> k < n
    &&& n > 0 ==> m.contains_key((n - 1) as u8)
}

/// The record a listing shows for `id`: the decoded bytes under that key,
/// with the identifier field set from the key; nothing when the key is
/// absent or its bytes do not decode.
pub open spec fn listed(m: Map<u8, Seq<u8>>, id: u8) -> Option<TaskSpec> {
    if m.contains_key(id) {
        match decode_spec(m[id]) {
            Some(t) => Some(with_id(t, id)),
            None => None,
        }
    } else {
        None
    }
}

/// The listing of every identifier below `n`, in ascending order, skipping
/// absent keys and keys whose bytes do not decode.
pub open spec fn list_upto(m: Map<u8, Seq<u8>>, n: int) -> Seq<TaskSpec>
    decreases n,
{
    if n <= 0 {
        Seq::empty()
    } else {
        match listed(m, (n - 1) as u8) {
            Some(t) => list_upto(m, n - 1).push(t),
            None => list_upto(m, n - 1),
        }
    }
}

/// The full listing of the store: every live identifier in ascending
/// order, each with its decoded record.
pub open spec fn list_spec(m: Map<u8, Seq<u8>>) -> Seq<TaskSpec> {
    list_upto(m, 256)
}

/// The mathematical values of a sequence of records.
pub open spec fn views_of(ts: Seq<Task>) -> Seq<TaskSpec> {
    ts.map_values(|t: Task| t@)
}

/// The store contents after the first `n` records of a bulk replace have
/// been installed: each under its position as identifier.
pub open spec fn replace_map_upto(ts: Seq<TaskSpec>, n: int) -> Map<u8, Seq<u8>> {
    Map::new(|k: u8| (k as int) < n, |k: u8| encode_spec(with_id(ts[k as int], k)))
}

/// The store contents after a bulk replace: the supplied records under
/// fresh contiguous identifiers starting at 0, in input order.
pub open spec fn replace_map(ts: Seq<TaskSpec>) -> Map<u8, Seq<u8>> {
    replace_map_upto(ts, ts.len() as int)
}

/// The task store: a façade over the storage engine that owns identifier
/// assignment, record serialization, and the bulk replace transaction.
///
/// Every mutation takes `&mut self`, so on a shared store the multi-step
/// sequences that must not interleave — the read-then-insert of `create`
/// and the delete-then-insert of `replace_all` — run under exclusive
/// access; concurrent callers serialize their mutations outside, for
/// instance behind a lock.
pub struct TaskStore {
    tree: sled::Tree,
}

impl TaskStore {
    /// The bytes the engine holds under each identifier.
    pub closed spec fn contents(self) -> Map<u8, Seq<u8>> {
        tree_entries(self.tree)
    }

    /// Opens the store persisted at `path`, creating it if there is none.
    /// Its contents are whatever the storage already held.
    pub fn open(path: &str) -> (r: Result<TaskStore, StoreError>)
        ensures
            r is Err ==> r == Err::<TaskStore, StoreError>(StoreError::EngineFailure),
    {
        match engine_open(path, "tree", CACHE_CAPACITY, FLUSH_INTERVAL_MS) {
            Ok(tree) => Ok(TaskStore { tree }),
            Err(_) => Err(StoreError::EngineFailure),
        }
    }

    /// The identifier the next created record gets, found by scanning for
    /// the greatest identifier in use; 256 when the space is exhausted.
    fn next_id(&self) -> (r: Result<u16, StoreError>)
        ensures
            match r {
                Ok(n) => is_next_id(self.contents(), n as int),
                Err(StoreError::EngineFailure) => true,
                _ => false,
            },
    {
        let mut i: u16 = 256;
        while i > 0
            invariant
                i <= 256,
                forall|j: u8| i <= j ==> !self.contents().contains_key(j),
            decreases i,
        {
            let id: u8 = (i - 1) as u8;
            match engine_get(&self.tree, id) {
                Err(_) => {
                    return Err(StoreError::EngineFailure);
                },
                Ok(Some(_)) => {
                    return Ok(i);
                },
                Ok(None) => {
                    i = i - 1;
                },
            }
        }
        Ok(0)
    }

    /// Creates a new record under the next free identifier; whatever
    /// identifier the caller put in `t` is ignored. Fails with
    /// `CapacityExceeded`, leaving the store unchanged, when the greatest
    /// identifier 255 is already in use: the store never wraps around or
    /// reuses identifiers.
    pub fn create(&mut self, t: &Task) -> (r: Result<u8, StoreError>)
        ensures
            match r {
                Ok(k) => {
                    &&& is_next_id(old(self).contents(), k as int)
                    &&& final(self).contents() == old(self).contents().insert(
                        k,
                        encode_spec(with_id(t@, k)),
                    )
                },
                Err(StoreError::CapacityExceeded) => {
                    &&& is_next_id(old(self).contents(), 256)
                    &&& final(self).contents() == old(self).contents()
                },
                Err(StoreError::EngineFailure) => true,
                _ => false,
            },
            // on a full store the insert is never reached, so the store is
            // unchanged whatever is returned
            is_next_id(old(self).contents(), 256) ==> final(self).contents() == old(
                self,
            ).contents(),
    {
        let next = match self.next_id() {
            Ok(n) => n,
            Err(_) => {
                return Err(StoreError::EngineFailure);
            },
        };
        if next > 255 {
            return Err(StoreError::CapacityExceeded);
        }
        let k = next as u8;
        let record = Task {
            id: k,
            completed: t.completed,
            description: t.description.clone(),
            editing: t.editing,
        };
        let bytes = encode_task(&record);
        match engine_insert(&mut self.tree, k, bytes.as_slice()) {
            Ok(()) => Ok(k),
            Err(_) => Err(StoreError::EngineFailure),
        }
    }

    /// Looks up the record stored under `id`. The returned record carries
    /// `id` itself, whatever identifier the stored bytes hold.
    pub fn get(&self, id: u8) -> (r: Result<Task, StoreError>)
        ensures
            match r {
                Ok(t) => {
                    &&& listed(self.contents(), id) == Some(t@)
                    &&& t@.id == id
                },
                Err(StoreError::NotFound) => !self.contents().contains_key(id),
                Err(StoreError::DeserializationError) => {
                    &&& self.contents().contains_key(id)
                    &&& decode_spec(self.contents()[id]) is None
                },
                Err(StoreError::EngineFailure) => true,
                Err(StoreError::CapacityExceeded) => false,
            },
    {
        match engine_get(&self.tree, id) {
            Err(_) => Err(StoreError::EngineFailure),
            Ok(None) => Err(StoreError::NotFound),
            Ok(Some(bytes)) => match decode_task(bytes.as_slice()) {
                None => Err(StoreError::DeserializationError),
                Some(mut t) => {
                    t.id = id;
                    Ok(t)
                },
            },
        }
    }

    /// Overwrites the record stored under `id` with `t`; the stored record
    /// keeps `id`, whatever identifier the caller put in `t`. Fails with
    /// `NotFound`, changing nothing, when no record exists under `id`: the
    /// store never inserts on update.
    pub fn update(&mut self, id: u8, t: &Task) -> (r: Result<(), StoreError>)
        ensures
            match r {
                Ok(()) => {
                    &&& old(self).contents().contains_key(id)
                    &&& final(self).contents() == old(self).contents().insert(
                        id,
                        encode_spec(with_id(t@, id)),
                    )
                },
                Err(StoreError::NotFound) => {
                    &&& !old(self).contents().contains_key(id)
                    &&& final(self).contents() == old(self).contents()
                },
                Err(StoreError::EngineFailure) => true,
                _ => false,
            },
            // on an absent id the overwrite is never reached, so the store
            // is unchanged whatever is returned
            !old(self).contents().contains_key(id) ==> final(self).contents() == old(
                self,
            ).contents(),
    {
        match engine_get(&self.tree, id) {
            Err(_) => {
                return Err(StoreError::EngineFailure);
            },
            Ok(None) => {
                return Err(StoreError::NotFound);
            },
            Ok(Some(_)) => {},
        }
        let record = Task {
            id,
            completed: t.completed,
            description: t.description.clone(),
            editing: t.editing,
        };
        let bytes = encode_task(&record);
        match engine_insert(&mut self.tree, id, bytes.as_slice()) {
            Ok(()) => Ok(()),
            Err(_) => Err(StoreError::EngineFailure),
        }
    }

    /// Removes the record stored under `id`. Fails with `NotFound`,
    /// changing nothing, when no record exists under `id`. Remaining
    /// identifiers are neither renumbered nor compacted.
    pub fn delete(&mut self, id: u8) -> (r: Result<(), StoreError>)
        ensures
            match r {
                Ok(()) => {
                    &&& old(self).contents().contains_key(id)
                    &&& final(self).contents() == old(self).contents().remove(id)
                },
                Err(StoreError::NotFound) => {
                    &&& !old(self).contents().contains_key(id)
                    &&& final(self).contents() == old(self).contents()
                },
                Err(StoreError::EngineFailure) => true,
                _ => false,
            },
            // on an absent id the removal is never reached, so the store
            // is unchanged whatever is returned
            !old(self).contents().contains_key(id) ==> final(self).contents() == old(
                self,
            ).contents(),
    {
        match engine_get(&self.tree, id) {
            Err(_) => {
                return Err(StoreError::EngineFailure);
            },
            Ok(None) => {
                return Err(StoreError::NotFound);
            },
            Ok(Some(_)) => {},
        }
        match engine_remove(&mut self.tree, id) {
            Ok(()) => Ok(()),
            Err(_) => Err(StoreError::EngineFailure),
        }
    }

    /// Lists every record in ascending identifier order. An entry whose
    /// bytes do not decode is skipped, so one damaged record does not make
    /// the rest of the collection unavailable; an empty store yields an
    /// empty listing.
    pub fn list(&self) -> (r: Result<Vec<Task>, StoreError>)
        ensures
            match r {
                Ok(v) => {
                    &&& v@.len() == list_spec(self.contents()).len()
                    &&& forall|i: int|
                        0 <= i < v@.len() ==> v@[i]@ == list_spec(self.contents())[i]
                },
                Err(StoreError::EngineFailure) => true,
                _ => false,
            },
    {
        let mut out: Vec<Task> = Vec::new();
        let mut i: u16 = 0;
        while i < 256
            invariant
                i <= 256,
                out@.len() == list_upto(self.contents(), i as int).len(),
                forall|j: int|
                    0 <= j < out@.len() ==> out@[j]@ == list_upto(self.contents(), i as int)[j],
            decreases 256 - i,
        {
            let id = i as u8;
            match engine_get(&self.tree, id) {
                Err(_) => {
                    return Err(StoreError::EngineFailure);
                },
                Ok(None) => {},
                Ok(Some(bytes)) => {
                    match decode_task(bytes.as_slice()) {
                        None => {},  // damaged entry: skipped, the rest still listed
                        Some(mut t) => {
                            t.id = id;
                            out.push(t);
                        },
                    }
                },
            }
            i = i + 1;
        }
        Ok(out)
    }

    /// Discards every record and installs the supplied ones under fresh
    /// contiguous identifiers 0, 1, 2, … in input order; identifiers the
    /// caller put in the records are ignored. Fails with
    /// `CapacityExceeded`, changing nothing, when more than 256 records are
    /// supplied. Must not run concurrently with any other mutation; `&mut
    /// self` gives the whole delete-then-insert sequence exclusive access.
    pub fn replace_all(&mut self, ts: &Vec<Task>) -> (r: Result<(), StoreError>)
        ensures
            match r {
                Ok(()) => {
                    &&& ts@.len() <= 256
                    &&& final(self).contents() == replace_map(views_of(ts@))
                },
                Err(StoreError::CapacityExceeded) => {
                    &&& ts@.len() > 256
                    &&& final(self).contents() == old(self).contents()
                },
                Err(StoreError::EngineFailure) => true,
                _ => false,
            },
            // too many records are rejected before any engine call, so the
            // capacity error is owed, and the store untouched
            ts@.len() > 256 ==> r == Err::<(), StoreError>(StoreError::CapacityExceeded)
                && final(self).contents() == old(self).contents(),
    {
        if ts.len() > 256 {
            return Err(StoreError::CapacityExceeded);
        }
        let ghost vs = views_of(ts@);
        let mut i: u16 = 0;
        while i < 256
            invariant
                i <= 256,
                ts@.len() <= 256,
                forall|j: u8| j < i ==> !self.contents().contains_key(j),
            decreases 256 - i,
        {
            let ghost prev = self.contents();
            match engine_remove(&mut self.tree, i as u8) {
                Ok(()) => {},
                Err(_) => {
                    return Err(StoreError::EngineFailure);
                },
            }
            proof {
                assert(self.contents() == prev.remove(i as u8));
                assert forall|j: u8| j < i + 1 implies !self.contents().contains_key(j) by {
                    if j >= i {
                        assert(j == (i as u8));
                    } else {
                        assert(!prev.contains_key(j));
                    }
                }
            }
            i = i + 1;
        }
        proof {
            assert(self.contents() =~= replace_map_upto(vs, 0));
        }
        let mut n: usize = 0;
        while n < ts.len()
            invariant
                n <= ts@.len() <= 256,
                vs == views_of(ts@),
                self.contents() == replace_map_upto(vs, n as int),
            decreases ts@.len() - n,
        {
            let k = n as u8;
            let src = &ts[n];
            let record = Task {
                id: k,
                completed: src.completed,
                description: src.description.clone(),
                editing: src.editing,
            };
            let bytes = encode_task(&record);
            match engine_insert(&mut self.tree, k, bytes.as_slice()) {
                Ok(()) => {},
                Err(_) => {
                    return Err(StoreError::EngineFailure);
                },
            }
            proof {
                assert(record@ == with_id(vs[n as int], k));
                assert(self.contents() =~= replace_map_upto(vs, n as int + 1));
            }
            n = n + 1;
        }
        Ok(())
    }
}

} // verus!
