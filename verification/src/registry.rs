//! The user registry: an in-memory map from opaque hash to surrogate id,
//! seeded from the store's snapshot, growing monotonically, and buffering
//! the users that still await their first flush.

use vstd::prelude::*;

use vstd::hash_map::StringHashMap;

use crate::errors::IngestError;
use crate::models::User;

verus! {

// ---------------------------------------------------------------------------
// The id-assignment model
// ---------------------------------------------------------------------------

/// The registry model is well-formed: every assigned id lies below the
/// next-id counter, and no two hashes share an id.
pub open spec fn id_model_wf(m: Map<Seq<char>, i32>, next: int) -> bool {
    &&& forall|h: Seq<char>| m.contains_key(h) ==> 0 <= #[trigger] m[h] < next
    &&& forall|h1: Seq<char>, h2: Seq<char>|
        #![trigger m[h1], m[h2]]
        m.contains_key(h1) && m.contains_key(h2) && h1 != h2 ==> m[h1] != m[h2]
}

/// The id a resolution of `h` returns: the assigned id if `h` is known,
/// the next-id counter otherwise.
pub open spec fn resolved_id(m: Map<Seq<char>, i32>, next: int, h: Seq<char>) -> int {
    if m.contains_key(h) {
        m[h] as int
    } else {
        next
    }
}

/// The map after a resolution of `h`.
pub open spec fn stepped_map(m: Map<Seq<char>, i32>, next: int, h: Seq<char>) -> Map<
    Seq<char>,
    i32,
> {
    if m.contains_key(h) {
        m
    } else {
        m.insert(h, next as i32)
    }
}

/// The next-id counter after a resolution of `h`.
pub open spec fn stepped_next(m: Map<Seq<char>, i32>, next: int, h: Seq<char>) -> int {
    if m.contains_key(h) {
        next
    } else {
        next + 1
    }
}

// ---------------------------------------------------------------------------
// Laws of id assignment
// ---------------------------------------------------------------------------

/// Resolving the same hash twice within one run returns the same id, and the
/// second resolution changes nothing: resolution is idempotent.
pub proof fn lemma_resolve_idempotent(m: Map<Seq<char>, i32>, next: int, h: Seq<char>)
    requires
        id_model_wf(m, next),
        0 <= next <= i32::MAX,
    ensures
        resolved_id(stepped_map(m, next, h), stepped_next(m, next, h), h) == resolved_id(
            m,
            next,
            h,
        ),
        stepped_map(stepped_map(m, next, h), stepped_next(m, next, h), h) == stepped_map(
            m,
            next,
            h,
        ),
        stepped_next(stepped_map(m, next, h), stepped_next(m, next, h), h) == stepped_next(
            m,
            next,
            h,
        ),
{
}

/// Distinct hashes receive strictly increasing ids: whatever id a resolution
/// of `h1` returns, a following resolution of a hash `h2` not yet known
/// returns a strictly larger one.
pub proof fn lemma_fresh_ids_increase(m: Map<Seq<char>, i32>, next: int, h1: Seq<char>, h2: Seq<char>)
    requires
        id_model_wf(m, next),
        0 <= next,
        h1 != h2,
        !m.contains_key(h2),
    ensures
        resolved_id(stepped_map(m, next, h1), stepped_next(m, next, h1), h2) > resolved_id(
            m,
            next,
            h1,
        ),
{
}

/// Ids are never reused: the id a not-yet-known hash receives differs from
/// every id already assigned.
pub proof fn lemma_no_id_reuse(m: Map<Seq<char>, i32>, next: int, h: Seq<char>)
    requires
        id_model_wf(m, next),
        !m.contains_key(h),
    ensures
        forall|h2: Seq<char>|
            m.contains_key(h2) ==> (#[trigger] m[h2]) as int != resolved_id(m, next, h),
{
}

// ---------------------------------------------------------------------------
// The snapshot loaded from the store
// ---------------------------------------------------------------------------

/// A valid store snapshot: ids are exactly `0..N-1` in order, hashes are
/// pairwise distinct, and the count fits the `i32` id space.
pub open spec fn snapshot_ok(rows: Seq<User>) -> bool {
    &&& rows.len() <= i32::MAX
    &&& forall|i: int| 0 <= i < rows.len() ==> (#[trigger] rows[i].user_id) as int == i
    &&& forall|i: int, j: int|
        #![trigger rows[i].hash@, rows[j].hash@]
        0 <= i < j < rows.len() ==> rows[i].hash@ != rows[j].hash@
}

/// The hash-to-id map a snapshot denotes.
pub open spec fn snapshot_map(rows: Seq<User>) -> Map<Seq<char>, i32>
    decreases rows.len(),
{
    if rows.len() == 0 {
        Map::empty()
    } else {
        snapshot_map(rows.drop_last()).insert(rows.last().hash@, rows.last().user_id)
    }
}

// ---------------------------------------------------------------------------
// The registry
// ---------------------------------------------------------------------------

/// The in-memory hash-to-id registry, with the buffer of users that have
/// been assigned an id but not yet handed to a flush.
pub struct Registry {
    users: StringHashMap<i32>,
    next_user_id: i32,
    pending: Vec<User>,
}

impl Registry {
    /// The hash-to-id map.
    pub closed spec fn id_map(self) -> Map<Seq<char>, i32> {
        self.users@
    }

    /// The next id to assign; also the number of ids assigned so far.
    pub closed spec fn next_id(self) -> int {
        self.next_user_id as int
    }

    /// The users buffered since the last drain, in assignment order.
    pub closed spec fn pending_users(self) -> Seq<User> {
        self.pending@
    }

    /// How many users are past the pending buffer: loaded from the store or
    /// already drained into a flush.
    pub open spec fn committed_count(self) -> int {
        self.next_id() - self.pending_users().len()
    }

    /// The pending buffer holds exactly the most recently assigned ids, in
    /// order, each agreeing with the map.
    pub open spec fn pending_shape(self) -> bool {
        &&& 0 <= self.committed_count()
        &&& forall|i: int|
            0 <= i < self.pending_users().len() ==> {
                let u = #[trigger] self.pending_users()[i];
                &&& u.user_id as int == self.committed_count() + i
                &&& self.id_map().contains_key(u.hash@)
                &&& self.id_map()[u.hash@] == u.user_id
            }
    }

    pub open spec fn wf(self) -> bool {
        &&& id_model_wf(self.id_map(), self.next_id())
        &&& self.pending_shape()
    }

    /// Build the registry from the users already in the store. Succeeds
    /// exactly when the snapshot upholds the store's invariant: ids are
    /// `0..N-1` with no gaps and hashes are unique. The next-id counter is
    /// set to the count of loaded users.
    pub fn initialize(existing: Vec<User>) -> (r: Result<Registry, IngestError>)
        ensures
            r is Ok <==> snapshot_ok(existing@),
            r is Ok ==> {
                let reg = r->Ok_0;
                &&& reg.wf()
                &&& reg.id_map() == snapshot_map(existing@)
                &&& reg.next_id() == existing@.len()
                &&& reg.pending_users().len() == 0
            },
            r is Err ==> r->Err_0 matches IngestError::ConstraintViolation { .. },
    {
        if existing.len() > 0x7FFF_FFFF {
            return Err(
                IngestError::ConstraintViolation {
                    detail: "user snapshot exceeds the id space".to_owned(),
                },
            );
        }
        let ghost rows = existing@;
        let mut users = StringHashMap::<i32>::new();
        let mut i: usize = 0;
        while i < existing.len()
            invariant
                0 <= i <= rows.len(),
                rows =~= existing@,
                rows.len() <= i32::MAX,
                users@ == snapshot_map(rows.subrange(0, i as int)),
                forall|j: int|
                    0 <= j < i ==> (#[trigger] rows[j].user_id) as int == j && users@.contains_key(
                        rows[j].hash@,
                    ) && users@[rows[j].hash@] == rows[j].user_id,
                forall|h: Seq<char>|
                    users@.contains_key(h) ==> exists|j: int|
                        0 <= j < i && (#[trigger] rows[j].hash@) == h,
            decreases existing.len() - i,
        {
            let u = &existing[i];
            if !(u.user_id >= 0 && u.user_id as usize == i) {
                return Err(
                    IngestError::ConstraintViolation {
                        detail: "user snapshot ids are not the dense sequence".to_owned(),
                    },
                );
            }
            if users.contains_key(u.hash.as_str()) {
                proof {
                    let j = choose|j: int| 0 <= j < i && (#[trigger] rows[j].hash@) == u.hash@;
                    assert(rows[j].hash@ == rows[i as int].hash@);
                }
                return Err(
                    IngestError::ConstraintViolation {
                        detail: "user snapshot holds a duplicate hash".to_owned(),
                    },
                );
            }
            users.insert(u.hash.clone(), u.user_id);
            proof {
                assert(rows.subrange(0, i + 1).drop_last() =~= rows.subrange(0, i as int));
                assert(rows.subrange(0, i + 1).last() == rows[i as int]);
            }
            i = i + 1;
        }
        proof {
            assert(rows.subrange(0, rows.len() as int) =~= rows);
            assert forall|a: int, b: int|
                #![trigger rows[a].hash@, rows[b].hash@]
                0 <= a < b < rows.len() implies rows[a].hash@ != rows[b].hash@ by {
                if rows[a].hash@ == rows[b].hash@ {
                    assert(users@[rows[a].hash@] == rows[a].user_id);
                    assert(users@[rows[b].hash@] == rows[b].user_id);
                }
            }
            assert forall|h: Seq<char>| users@.contains_key(h) implies 0 <= users@[h]
                < rows.len() by {
                let j = choose|j: int| 0 <= j < rows.len() && (#[trigger] rows[j].hash@) == h;
                assert(users@[h] == rows[j].user_id);
            }
            assert forall|h1: Seq<char>, h2: Seq<char>|
                #![trigger users@[h1], users@[h2]]
                users@.contains_key(h1) && users@.contains_key(h2) && h1 != h2 implies users@[h1]
                != users@[h2] by {
                let j1 = choose|j: int| 0 <= j < rows.len() && (#[trigger] rows[j].hash@) == h1;
                let j2 = choose|j: int| 0 <= j < rows.len() && (#[trigger] rows[j].hash@) == h2;
                assert(users@[h1] == rows[j1].user_id);
                assert(users@[h2] == rows[j2].user_id);
            }
        }
        let next_user_id = existing.len() as i32;
        Ok(Registry { users, next_user_id, pending: Vec::new() })
    }

    /// Return the id of `hash`, assigning the next sequential id and
    /// buffering a new pending user if the hash has not been seen before.
    /// Purely in-memory; never touches the store.
    pub fn resolve(&mut self, hash: &str) -> (id: i32)
        requires
            old(self).wf(),
            old(self).id_map().contains_key(hash@) || old(self).next_id() < i32::MAX,
        ensures
            final(self).wf(),
            id as int == resolved_id(old(self).id_map(), old(self).next_id(), hash@),
            final(self).id_map() == stepped_map(old(self).id_map(), old(self).next_id(), hash@),
            final(self).next_id() == stepped_next(old(self).id_map(), old(self).next_id(), hash@),
            final(self).committed_count() == old(self).committed_count(),
            old(self).id_map().contains_key(hash@) ==> final(self).pending_users() == old(
                self,
            ).pending_users(),
            !old(self).id_map().contains_key(hash@) ==> {
                &&& final(self).pending_users().len() == old(self).pending_users().len() + 1
                &&& final(self).pending_users().drop_last() =~= old(self).pending_users()
                &&& final(self).pending_users().last().user_id == id
                &&& final(self).pending_users().last().hash@ == hash@
            },
    {
        if self.users.contains_key(hash) {
            *self.users.get(hash).unwrap()
        } else {
            let id = self.next_user_id;
            self.users.insert(hash.to_owned(), id);
            self.pending.push(User { user_id: id, hash: hash.to_owned() });
            self.next_user_id = id + 1;
            proof {
                assert forall|i: int|
                    0 <= i < self.pending@.len() implies {
                    let u = #[trigger] self.pending@[i];
                    &&& u.user_id as int == self.committed_count() + i
                    &&& self.id_map().contains_key(u.hash@)
                    &&& self.id_map()[u.hash@] == u.user_id
                } by {
                    if i < self.pending@.len() - 1 {
                        assert(old(self).pending_users()[i] == self.pending@[i]);
                    }
                }
            }
            id
        }
    }

    /// Return and clear the buffered new users. Called once per flush,
    /// before the matching pixel insert, so the store sees every referenced
    /// user first.
    pub fn drain_pending(&mut self) -> (out: Vec<User>)
        requires
            old(self).wf(),
        ensures
            final(self).wf(),
            out@ == old(self).pending_users(),
            final(self).pending_users().len() == 0,
            final(self).id_map() == old(self).id_map(),
            final(self).next_id() == old(self).next_id(),
            final(self).committed_count() == old(self).next_id(),
    {
        let mut out: Vec<User> = Vec::new();
        core::mem::swap(&mut out, &mut self.pending);
        out
    }

    /// How many hashes have an id: the next-id counter.
    pub fn user_count(&self) -> (n: i32)
        ensures
            n as int == self.next_id(),
    {
        self.next_user_id
    }
}

} // verus!
