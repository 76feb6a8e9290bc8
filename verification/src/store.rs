//! The component store: one dense column per component kind, keyed by entity.

use crate::component::{Bundle, Query, Shape, Tag};
use crate::vector::{Position, Velocity};
use vstd::prelude::*;

verus! {

/// The identity of an entity. Identities are issued in sequence and never reissued.
#[derive(Clone, Copy, Debug, PartialEq, Eq, Structural, Hash)]
pub struct EntityId {
    pub index: usize,
}

/// One entity visited by a query, with a copy of its components.
#[derive(Clone, Copy, Debug, PartialEq, Eq, Structural)]
pub struct Row {
    pub entity: EntityId,
    pub bundle: Bundle,
}

/// The rows of the entities with identity below `n` that `q` admits, in
/// increasing order of identity.
pub open spec fn rows_upto(view: Map<EntityId, Bundle>, q: Query, n: nat) -> Seq<Row>
    decreases n,
{
    if n == 0 {
        Seq::empty()
    } else {
        let e = EntityId { index: (n - 1) as usize };
        let rest = rows_upto(view, q, (n - 1) as nat);
        if view.contains_key(e) && q.admits(view[e]) {
            rest.push(Row { entity: e, bundle: view[e] })
        } else {
            rest
        }
    }
}

/// What `rows_upto` holds: exactly the admitted entities below `n`, each once,
/// each with its bundle, in strictly increasing order of identity.
pub proof fn lemma_rows_upto(view: Map<EntityId, Bundle>, q: Query, n: nat)
    requires
        n <= usize::MAX,
    ensures
        forall|k: int|
            0 <= k < rows_upto(view, q, n).len() ==> {
                let row = #[trigger] rows_upto(view, q, n)[k];
                &&& row.entity.index < n
                &&& view.contains_key(row.entity)
                &&& row.bundle == view[row.entity]
                &&& q.admits(row.bundle)
            },
        forall|e: EntityId|
            e.index < n && #[trigger] view.contains_key(e) && q.admits(view[e]) ==> exists|k: int|
                0 <= k < rows_upto(view, q, n).len() && (#[trigger] rows_upto(view, q, n)[k]).entity
                    == e,
        forall|k: int, l: int|
            0 <= k < l < rows_upto(view, q, n).len() ==> (#[trigger] rows_upto(
                view,
                q,
                n,
            )[k]).entity.index < (#[trigger] rows_upto(view, q, n)[l]).entity.index,
    decreases n,
{
    if n > 0 {
        let m = (n - 1) as nat;
        let rest = rows_upto(view, q, m);
        let rows = rows_upto(view, q, n);
        let last = EntityId { index: m as usize };
        lemma_rows_upto(view, q, m);
        assert forall|e: EntityId|
            e.index < n && #[trigger] view.contains_key(e) && q.admits(view[e]) implies exists|
            k: int,
        |
            0 <= k < rows.len() && (#[trigger] rows[k]).entity == e by {
            if e.index < m {
                let k = choose|k: int| 0 <= k < rest.len() && (#[trigger] rest[k]).entity == e;
                assert(rows[k].entity == e);
            } else {
                assert(rows[rows.len() - 1].entity == e);
            }
        }
    }
}

/// Generic storage of per-entity components.
pub struct Store {
    alive: Vec<bool>,
    positions: Vec<Option<Position>>,
    velocities: Vec<Option<Velocity>>,
    shapes: Vec<Option<Shape>>,
    tags: Vec<Option<Tag>>,
}

impl View for Store {
    type V = Map<EntityId, Bundle>;

    /// The live entities, each with the components it holds.
    closed spec fn view(&self) -> Map<EntityId, Bundle> {
        Map::new(
            |e: EntityId| e.index < self.alive@.len() && self.alive@[e.index as int],
            |e: EntityId| self.bundle_at(e.index as int),
        )
    }
}

impl Store {
    closed spec fn bundle_at(&self, i: int) -> Bundle {
        Bundle {
            position: self.positions@[i],
            velocity: self.velocities@[i],
            shape: self.shapes@[i],
            tag: self.tags@[i],
        }
    }

    /// The columns line up, and a dead slot holds nothing.
    pub closed spec fn wf(&self) -> bool {
        &&& self.positions@.len() == self.alive@.len()
        &&& self.velocities@.len() == self.alive@.len()
        &&& self.shapes@.len() == self.alive@.len()
        &&& self.tags@.len() == self.alive@.len()
        &&& forall|i: int|
            0 <= i < self.alive@.len() && !#[trigger] self.alive@[i] ==> self.bundle_at(i) == (
            Bundle { position: None, velocity: None, shape: None, tag: None })
    }

    /// How many identities have been issued so far; the next one has this index.
    pub closed spec fn issued(&self) -> nat {
        self.alive@.len()
    }

    /// The rows a query visits, in the order it visits them.
    pub open spec fn matching(&self, q: Query) -> Seq<Row> {
        rows_upto(self@, q, self.issued())
    }

    /// Every live entity was issued by this store.
    pub proof fn lemma_live_below_issued(&self)
        requires
            self.wf(),
        ensures
            self.issued() <= usize::MAX,
            forall|e: EntityId| #[trigger] self@.contains_key(e) ==> e.index < self.issued(),
    {
        assert(self.alive@.len() == self.alive.len());
    }

    /// A store with no entity.
    pub fn new() -> (s: Store)
        ensures
            s.wf(),
            s@ == Map::<EntityId, Bundle>::empty(),
            s.issued() == 0,
    {
        Store {
            alive: Vec::new(),
            positions: Vec::new(),
            velocities: Vec::new(),
            shapes: Vec::new(),
            tags: Vec::new(),
        }
    }

    /// Creates an entity holding `bundle` and returns its identity, which no
    /// entity of this store has had before.
    pub fn insert(&mut self, bundle: Bundle) -> (e: EntityId)
        requires
            old(self).wf(),
        ensures
            final(self).wf(),
            e.index == old(self).issued(),
            !old(self)@.contains_key(e),
            final(self).issued() == old(self).issued() + 1,
            final(self)@ == old(self)@.insert(e, bundle),
    {
        let e = EntityId { index: self.alive.len() };
        self.alive.push(true);
        self.positions.push(bundle.position);
        self.velocities.push(bundle.velocity);
        self.shapes.push(bundle.shape);
        self.tags.push(bundle.tag);
        e
    }

    /// Whether `e` is a live entity.
    pub fn contains(&self, e: EntityId) -> (r: bool)
        requires
            self.wf(),
        ensures
            r == self@.contains_key(e),
    {
        e.index < self.alive.len() && self.alive[e.index]
    }

    fn read(&self, i: usize) -> (b: Bundle)
        requires
            self.wf(),
            i < self.alive@.len(),
        ensures
            b == self.bundle_at(i as int),
    {
        Bundle {
            position: self.positions[i],
            velocity: self.velocities[i],
            shape: self.shapes[i],
            tag: self.tags[i],
        }
    }

    /// The components of `e`, if it is live.
    pub fn get(&self, e: EntityId) -> (r: Option<Bundle>)
        requires
            self.wf(),
        ensures
            r == if self@.contains_key(e) {
                Some(self@[e])
            } else {
                None
            },
    {
        if e.index < self.alive.len() && self.alive[e.index] {
            Some(self.read(e.index))
        } else {
            None
        }
    }

    /// Visits every live entity that holds all the components `q` asks for,
    /// each exactly once, in increasing order of identity.
    pub fn query(&self, q: &Query) -> (rows: Vec<Row>)
        requires
            self.wf(),
        ensures
            rows@ == self.matching(*q),
    {
        let mut rows: Vec<Row> = Vec::new();
        let n = self.alive.len();
        let mut i: usize = 0;
        while i < n
            invariant
                self.wf(),
                n == self.alive@.len(),
                i <= n,
                rows@ == rows_upto(self@, *q, i as nat),
            decreases n - i,
        {
            if self.alive[i] {
                let bundle = self.read(i);
                if q.matches(&bundle) {
                    rows.push(Row { entity: EntityId { index: i }, bundle });
                }
            }
            i += 1;
        }
        rows
    }

    /// Replaces the position of `e`. Returns whether `e` is live and holds a
    /// position; where it does not, nothing changes.
    pub fn write_position(&mut self, e: EntityId, p: Position) -> (r: bool)
        requires
            old(self).wf(),
        ensures
            final(self).wf(),
            final(self).issued() == old(self).issued(),
            r == (old(self)@.contains_key(e) && old(self)@[e].position is Some),
            r ==> final(self)@ == old(self)@.insert(
                e,
                Bundle { position: Some(p), ..old(self)@[e] },
            ),
            !r ==> final(self)@ == old(self)@,
    {
        if e.index < self.alive.len() && self.alive[e.index] && self.positions[e.index].is_some() {
            self.positions.set(e.index, Some(p));
            true
        } else {
            false
        }
    }

    /// Replaces the velocity of `e`. Returns whether `e` is live and holds a
    /// velocity; where it does not, nothing changes.
    pub fn write_velocity(&mut self, e: EntityId, v: Velocity) -> (r: bool)
        requires
            old(self).wf(),
        ensures
            final(self).wf(),
            final(self).issued() == old(self).issued(),
            r == (old(self)@.contains_key(e) && old(self)@[e].velocity is Some),
            r ==> final(self)@ == old(self)@.insert(
                e,
                Bundle { velocity: Some(v), ..old(self)@[e] },
            ),
            !r ==> final(self)@ == old(self)@,
    {
        if e.index < self.alive.len() && self.alive[e.index] && self.velocities[e.index].is_some() {
            self.velocities.set(e.index, Some(v));
            true
        } else {
            false
        }
    }

    /// Detaches every component of `e` and retires its identity. Returns the
    /// components it held, or `None` where `e` is not live.
    pub fn remove(&mut self, e: EntityId) -> (r: Option<Bundle>)
        requires
            old(self).wf(),
        ensures
            final(self).wf(),
            final(self).issued() == old(self).issued(),
            final(self)@ == old(self)@.remove(e),
            r == if old(self)@.contains_key(e) {
                Some(old(self)@[e])
            } else {
                None
            },
    {
        if e.index < self.alive.len() && self.alive[e.index] {
            let bundle = self.read(e.index);
            self.alive.set(e.index, false);
            self.positions.set(e.index, None);
            self.velocities.set(e.index, None);
            self.shapes.set(e.index, None);
            self.tags.set(e.index, None);
            Some(bundle)
        } else {
            None
        }
    }
}

/// A read-only query is repeatable: asked twice of the same store, it visits
/// the same entities with the same values in the same order.
pub proof fn lemma_query_repeatable(s: Store, q: Query, first: Seq<Row>, second: Seq<Row>)
    requires
        s.wf(),
        first == s.matching(q),
        second == s.matching(q),
    ensures
        first == second,
{
}

/// A query visits exactly the live entities it admits, each once, with the
/// components the store holds for it.
pub proof fn lemma_query_visits(s: Store, q: Query)
    requires
        s.wf(),
    ensures
        forall|k: int|
            0 <= k < s.matching(q).len() ==> {
                let row = #[trigger] s.matching(q)[k];
                &&& s@.contains_key(row.entity)
                &&& row.bundle == s@[row.entity]
                &&& q.admits(row.bundle)
            },
        forall|e: EntityId| #[trigger]
            s@.contains_key(e) && q.admits(s@[e]) ==> exists|k: int|
                0 <= k < s.matching(q).len() && (#[trigger] s.matching(q)[k]).entity == e,
        forall|k: int, l: int|
            0 <= k < l < s.matching(q).len() ==> (#[trigger] s.matching(q)[k]).entity.index < (
            #[trigger] s.matching(q)[l]).entity.index,
{
    s.lemma_live_below_issued();
    lemma_rows_upto(s@, q, s.issued());
}

/// Whether one of the first `k` rows is the row of `e`.
pub open spec fn visited(rows: Seq<Row>, k: int, e: EntityId) -> bool {
    exists|m: int| 0 <= m < k && m < rows.len() && (#[trigger] rows[m]).entity == e
}

/// The view that results from `base` when `f` has been applied to the bundles
/// of the entities of the first `k` rows, and to no other.
pub open spec fn applied_to_first(
    base: Map<EntityId, Bundle>,
    rows: Seq<Row>,
    k: int,
    f: spec_fn(Bundle) -> Bundle,
) -> Map<EntityId, Bundle> {
    Map::new(
        |e: EntityId| base.contains_key(e),
        |e: EntityId|
            if visited(rows, k, e) {
                f(base[e])
            } else {
                base[e]
            },
    )
}

/// Once every row of a query is visited, `f` has been applied throughout,
/// provided `f` leaves alone the bundles that the query does not admit.
pub proof fn lemma_applied_to_all(s: Store, q: Query, f: spec_fn(Bundle) -> Bundle)
    requires
        s.wf(),
        forall|b: Bundle| !q.admits(b) ==> #[trigger] f(b) == b,
    ensures
        applied_to_first(s@, s.matching(q), s.matching(q).len() as int, f) == s@.map_values(f),
{
    lemma_query_visits(s, q);
}

} // verus!
