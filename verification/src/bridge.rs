//! The lifecycle bridge: the one-to-one table that joins entities to the
//! handles of their shapes.

use crate::error::SimError;
use crate::spatial::Handle;
use crate::store::EntityId;
use std::collections::HashMap;
use vstd::prelude::*;

verus! {

broadcast use vstd::std_specs::hash::group_hash_axioms;

/// The join table between entities and handles. It owns neither side.
pub struct Bridge {
    forward: HashMap<usize, usize>,
    backward: HashMap<usize, usize>,
}

impl View for Bridge {
    type V = Map<EntityId, Handle>;

    /// The handle of each tracked entity.
    closed spec fn view(&self) -> Map<EntityId, Handle> {
        Map::new(
            |e: EntityId| self.forward@.contains_key(e.index),
            |e: EntityId| Handle { index: self.forward@[e.index] },
        )
    }
}

impl Bridge {
    /// The two directions of the table agree.
    pub closed spec fn wf(&self) -> bool {
        &&& forall|e: usize| #[trigger]
            self.forward@.contains_key(e) ==> self.backward@.contains_key(self.forward@[e])
                && self.backward@[self.forward@[e]] == e
        &&& forall|h: usize| #[trigger]
            self.backward@.contains_key(h) ==> self.forward@.contains_key(self.backward@[h])
                && self.forward@[self.backward@[h]] == h
    }

    /// The handle recorded for `e`, if it is tracked.
    pub open spec fn lookup(&self, e: EntityId) -> Option<Handle> {
        if self@.contains_key(e) {
            Some(self@[e])
        } else {
            None
        }
    }

    /// Whether some tracked entity has the handle `h`.
    pub open spec fn in_use(&self, h: Handle) -> bool {
        exists|e: EntityId| self@.contains_key(e) && #[trigger] self@[e] == h
    }

    /// No two tracked entities share a handle.
    pub proof fn lemma_one_to_one(&self)
        requires
            self.wf(),
        ensures
            forall|a: EntityId, b: EntityId|
                self@.contains_key(a) && self@.contains_key(b) && #[trigger] self@[a]
                    == #[trigger] self@[b] ==> a == b,
    {
    }

    /// A bridge that tracks nothing.
    pub fn new() -> (b: Bridge)
        ensures
            b.wf(),
            b@ == Map::<EntityId, Handle>::empty(),
    {
        Bridge { forward: HashMap::new(), backward: HashMap::new() }
    }

    /// The handle of `e`, if it is tracked.
    pub fn handle_for(&self, e: EntityId) -> (r: Option<Handle>)
        ensures
            r == self.lookup(e),
    {
        match self.forward.get(&e.index) {
            Some(h) => Some(Handle { index: *h }),
            None => None,
        }
    }

    /// The entity that has the handle `h`, if one has.
    pub fn entity_for(&self, h: Handle) -> (r: Option<EntityId>)
        requires
            self.wf(),
        ensures
            match r {
                Some(e) => self@.contains_key(e) && self@[e] == h,
                None => !self.in_use(h),
            },
    {
        match self.backward.get(&h.index) {
            Some(e) => Some(EntityId { index: *e }),
            None => None,
        }
    }

    /// Records that `e` has the handle `h`. Fails, and changes nothing, where
    /// `e` is already tracked or `h` already belongs to a tracked entity.
    pub fn track(&mut self, e: EntityId, h: Handle) -> (r: Result<(), SimError>)
        requires
            old(self).wf(),
        ensures
            final(self).wf(),
            r is Err <==> old(self)@.contains_key(e) || old(self).in_use(h),
            r is Err ==> r == Err::<(), SimError>(SimError::DuplicateTracking) && final(self)@
                == old(self)@,
            r is Ok ==> final(self)@ == old(self)@.insert(e, h),
    {
        if self.forward.contains_key(&e.index) {
            return Err(SimError::DuplicateTracking);
        }
        if self.backward.contains_key(&h.index) {
            proof {
                let owner = EntityId { index: self.backward@[h.index] };
                assert(self@.contains_key(owner) && self@[owner] == h);
            }
            return Err(SimError::DuplicateTracking);
        }
        self.forward.insert(e.index, h.index);
        self.backward.insert(h.index, e.index);
        Ok(())
    }

    /// Forgets the handle of `e` and returns it, for the shape to be removed
    /// from the index; `None` where `e` is not tracked.
    pub fn untrack(&mut self, e: EntityId) -> (r: Option<Handle>)
        requires
            old(self).wf(),
        ensures
            final(self).wf(),
            r == old(self).lookup(e),
            final(self)@ == old(self)@.remove(e),
    {
        match self.forward.remove(&e.index) {
            None => None,
            Some(h) => {
                self.backward.remove(&h);
                Some(Handle { index: h })
            },
        }
    }
}

/// An entity has a handle from the moment it is tracked until it is
/// untracked, and at no other time. `fresh` is a new bridge; `joined` is
/// `before` after `e` was tracked under `h`; `later` is `joined` after
/// another entity was tracked or untracked; `after` is `later` after `e` was
/// untracked.
pub proof fn lemma_tracking_lifetime(
    fresh: Bridge,
    before: Bridge,
    joined: Bridge,
    later: Bridge,
    after: Bridge,
    e: EntityId,
    h: Handle,
    other: EntityId,
    g: Handle,
)
    requires
        fresh@ == Map::<EntityId, Handle>::empty(),
        joined@ == before@.insert(e, h),
        other != e,
        later@ == joined@.insert(other, g) || later@ == joined@.remove(other),
        after@ == later@.remove(e),
    ensures
        fresh.lookup(e) is None,
        joined.lookup(e) == Some(h),
        later.lookup(e) == Some(h),
        after.lookup(e) is None,
{
}

} // verus!
