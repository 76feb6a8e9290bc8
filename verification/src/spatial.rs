//! The spatial index: one placed shape per handle, and the pairs of shapes
//! that were close to each other when the index was last updated.

use crate::component::Shape;
use crate::geometry::{lemma_within_symmetric, shapes_within, within};
use crate::groups::interacts;
use crate::vector::Position;
use ncollide2d::pipeline::CollisionGroups;
use vstd::prelude::*;

verus! {

/// The token that names a tracked shape. Handles are issued in sequence and
/// never reissued.
#[derive(Clone, Copy, Debug, PartialEq, Eq, Structural, Hash)]
pub struct Handle {
    pub index: usize,
}

/// How a shape takes part in detection. A shape asking for proximity with a
/// margin is close to another once the distance between them is at most the
/// sum of their two margins.
#[derive(Clone, Copy, Debug, PartialEq, Eq, Structural)]
pub enum QueryKind {
    Proximity { margin: u32 },
}

/// A shape as the index holds it.
#[derive(Clone, Copy, Debug)]
pub struct Placed {
    pub shape: Shape,
    pub position: Position,
    pub groups: CollisionGroups,
    pub kind: QueryKind,
}

/// The direction of a change in proximity.
#[derive(Clone, Copy, Debug, PartialEq, Eq, Structural)]
pub enum Transition {
    Entered,
    Exited,
}

/// A pair of shapes that came close or parted in the latest update; `first`
/// is the older handle.
#[derive(Clone, Copy, Debug, PartialEq, Eq, Structural)]
pub struct PairEvent {
    pub first: Handle,
    pub second: Handle,
    pub state: Transition,
}

impl QueryKind {
    pub open spec fn margin(self) -> int {
        match self {
            QueryKind::Proximity { margin } => margin as int,
        }
    }

    fn margin_of(&self) -> (r: u32)
        ensures
            r == self.margin(),
    {
        match self {
            QueryKind::Proximity { margin } => *margin,
        }
    }
}

impl PairEvent {
    pub open spec fn pair(self) -> (Handle, Handle) {
        (self.first, self.second)
    }
}

/// Whether two tracked shapes are close: their groups are eligible to
/// interact and the distance between them is at most their joint margin.
pub open spec fn touching(a: Placed, b: Placed) -> bool {
    &&& interacts(a.groups, b.groups)
    &&& within(a.shape, a.position, b.shape, b.position, a.kind.margin() + b.kind.margin())
}

/// Proximity is symmetric: which of two shapes is named first does not matter.
pub proof fn lemma_touching_symmetric(a: Placed, b: Placed)
    ensures
        touching(a, b) == touching(b, a),
{
    lemma_within_symmetric(
        a.shape,
        a.position,
        b.shape,
        b.position,
        a.kind.margin() + b.kind.margin(),
    );
}

/// All pairs of tracked shapes that are close, older handle first.
pub open spec fn touching_pairs(shapes: Map<Handle, Placed>) -> Set<(Handle, Handle)> {
    Set::new(
        |p: (Handle, Handle)|
            {
                &&& p.0.index < p.1.index
                &&& shapes.contains_key(p.0)
                &&& shapes.contains_key(p.1)
                &&& touching(shapes[p.0], shapes[p.1])
            },
    )
}

/// The order in which an update reports pairs.
pub open spec fn pair_precedes(p: (Handle, Handle), q: (Handle, Handle)) -> bool {
    p.0.index < q.0.index || (p.0.index == q.0.index && p.1.index < q.1.index)
}

/// Whether a pair is in exactly one of two sets.
pub open spec fn changed(
    p: (Handle, Handle),
    before: Set<(Handle, Handle)>,
    after: Set<(Handle, Handle)>,
) -> bool {
    before.contains(p) != after.contains(p)
}

/// Whether `events` reports the change from `before` to `after`: one event
/// for each pair that is in one set and not in the other, saying which way
/// it went, and the events in the order of their pairs.
pub open spec fn is_transitions(
    events: Seq<PairEvent>,
    before: Set<(Handle, Handle)>,
    after: Set<(Handle, Handle)>,
) -> bool {
    &&& forall|k: int|
        0 <= k < events.len() ==> {
            let ev = #[trigger] events[k];
            &&& changed(ev.pair(), before, after)
            &&& ev.state == if after.contains(ev.pair()) {
                Transition::Entered
            } else {
                Transition::Exited
            }
        }
    &&& forall|p: (Handle, Handle)| #[trigger]
        changed(p, before, after) ==> exists|k: int|
            0 <= k < events.len() && (#[trigger] events[k]).pair() == p
    &&& forall|k: int, l: int|
        0 <= k < l < events.len() ==> pair_precedes(
            (#[trigger] events[k]).pair(),
            (#[trigger] events[l]).pair(),
        )
}

/// The pairs that a scan has passed once it stands at row `i`, column `j`.
spec fn covered(p: (Handle, Handle), i: int, j: int, n: int) -> bool {
    &&& p.0.index < p.1.index < n
    &&& (p.0.index < i || (p.0.index == i && p.1.index < j))
}

/// A broad-phase index of placed shapes.
pub struct SpatialIndex {
    slots: Vec<Option<Placed>>,
    near: Vec<(Handle, Handle)>,
    events: Vec<PairEvent>,
}

impl SpatialIndex {
    /// The tracked shapes, by handle.
    pub closed spec fn shapes(&self) -> Map<Handle, Placed> {
        Map::new(
            |h: Handle| h.index < self.slots@.len() && self.slots@[h.index as int] is Some,
            |h: Handle| self.slots@[h.index as int].unwrap(),
        )
    }

    /// How many handles have been issued so far; the next one has this index.
    pub closed spec fn issued(&self) -> nat {
        self.slots@.len()
    }

    /// The pairs that were close at the latest update, less those of which a
    /// shape has been removed since.
    pub closed spec fn near(&self) -> Set<(Handle, Handle)> {
        self.near@.to_set()
    }

    /// The events of the latest update, until they are taken.
    pub closed spec fn pending(&self) -> Seq<PairEvent> {
        self.events@
    }

    /// Every recorded pair is a pair of tracked shapes whose groups are
    /// eligible, older handle first.
    pub closed spec fn wf(&self) -> bool {
        forall|k: int|
            0 <= k < self.near@.len() ==> {
                let p = #[trigger] self.near@[k];
                &&& p.0.index < p.1.index
                &&& self.shapes().contains_key(p.0)
                &&& self.shapes().contains_key(p.1)
                &&& interacts(self.shapes()[p.0].groups, self.shapes()[p.1].groups)
            }
    }

    /// What well-formedness says of the recorded pairs and of the handles.
    pub proof fn lemma_wf(&self)
        requires
            self.wf(),
        ensures
            self.issued() <= usize::MAX,
            forall|h: Handle| #[trigger] self.shapes().contains_key(h) ==> h.index < self.issued(),
            forall|p: (Handle, Handle)| #[trigger]
                self.near().contains(p) ==> {
                    &&& p.0.index < p.1.index
                    &&& self.shapes().contains_key(p.0)
                    &&& self.shapes().contains_key(p.1)
                    &&& interacts(self.shapes()[p.0].groups, self.shapes()[p.1].groups)
                },
    {
        assert(self.slots@.len() == self.slots.len());
    }

    /// An index that tracks nothing.
    pub fn new() -> (s: SpatialIndex)
        ensures
            s.wf(),
            s.issued() == 0,
            s.shapes() == Map::<Handle, Placed>::empty(),
            s.near() == Set::<(Handle, Handle)>::empty(),
            s.pending() == Seq::<PairEvent>::empty(),
    {
        SpatialIndex { slots: Vec::new(), near: Vec::new(), events: Vec::new() }
    }

    /// Starts tracking a shape and returns its handle, which no shape of this
    /// index has had before. Pairs and events are as they were until the next
    /// update.
    pub fn add(
        &mut self,
        shape: Shape,
        position: Position,
        groups: CollisionGroups,
        kind: QueryKind,
    ) -> (h: Handle)
        requires
            old(self).wf(),
        ensures
            final(self).wf(),
            h.index == old(self).issued(),
            !old(self).shapes().contains_key(h),
            final(self).issued() == old(self).issued() + 1,
            final(self).shapes() == old(self).shapes().insert(
                h,
                Placed { shape, position, groups, kind },
            ),
            final(self).near() == old(self).near(),
            final(self).pending() == old(self).pending(),
    {
        let h = Handle { index: self.slots.len() };
        self.slots.push(Some(Placed { shape, position, groups, kind }));
        h
    }

    /// The shape tracked under `h`, if there is one.
    pub fn get(&self, h: Handle) -> (r: Option<Placed>)
        ensures
            r == if self.shapes().contains_key(h) {
                Some(self.shapes()[h])
            } else {
                None
            },
    {
        if h.index < self.slots.len() {
            self.slots[h.index]
        } else {
            None
        }
    }

    /// Moves a tracked shape. Returns whether `h` names one; where it does
    /// not, nothing changes. Pairs and events are as they were until the next
    /// update.
    pub fn set_position(&mut self, h: Handle, position: Position) -> (r: bool)
        requires
            old(self).wf(),
        ensures
            final(self).wf(),
            final(self).issued() == old(self).issued(),
            r == old(self).shapes().contains_key(h),
            r ==> final(self).shapes() == old(self).shapes().insert(
                h,
                Placed { position, ..old(self).shapes()[h] },
            ),
            !r ==> final(self).shapes() == old(self).shapes(),
            final(self).near() == old(self).near(),
            final(self).pending() == old(self).pending(),
    {
        if h.index >= self.slots.len() {
            return false;
        }
        match self.slots[h.index] {
            None => false,
            Some(t) => {
                let moved = Placed { position, ..t };
                self.slots.set(h.index, Some(moved));
                true
            },
        }
    }

    /// Stops tracking a shape and forgets the pairs it was part of. Returns
    /// what was tracked under `h`, or `None` where nothing was.
    pub fn remove(&mut self, h: Handle) -> (r: Option<Placed>)
        requires
            old(self).wf(),
        ensures
            final(self).wf(),
            final(self).issued() == old(self).issued(),
            final(self).shapes() == old(self).shapes().remove(h),
            r == if old(self).shapes().contains_key(h) {
                Some(old(self).shapes()[h])
            } else {
                None
            },
            final(self).near() == Set::new(
                |p: (Handle, Handle)| old(self).near().contains(p) && p.0 != h && p.1 != h,
            ),
            final(self).pending() == old(self).pending(),
    {
        let removed = self.get(h);
        if removed.is_some() {
            self.slots.set(h.index, None);
        }
        let mut kept: Vec<(Handle, Handle)> = Vec::new();
        let n = self.near.len();
        let mut k: usize = 0;
        while k < n
            invariant
                n == self.near@.len(),
                k <= n,
                self.near@ == old(self).near@,
                forall|m: int|
                    0 <= m < kept@.len() ==> {
                        let p = #[trigger] kept@[m];
                        old(self).near@.contains(p) && p.0 != h && p.1 != h
                    },
                forall|m: int|
                    0 <= m < k ==> {
                        let p = #[trigger] old(self).near@[m];
                        p.0 != h && p.1 != h ==> kept@.contains(p)
                    },
            decreases n - k,
        {
            let p = self.near[k];
            if !(p.0.index == h.index || p.1.index == h.index) {
                let ghost was = kept@;
                kept.push(p);
                assert(kept@[was.len() as int] == p);
                assert forall|m: int| 0 <= m <= k implies {
                    let q = #[trigger] old(self).near@[m];
                    q.0 != h && q.1 != h ==> kept@.contains(q)
                } by {
                    let q = old(self).near@[m];
                    if q.0 != h && q.1 != h && m < k {
                        let w = choose|w: int| 0 <= w < was.len() && was[w] == q;
                        assert(kept@[w] == q);
                    }
                }
            }
            k += 1;
        }
        self.near = kept;
        removed
    }

    fn touches(a: &Placed, b: &Placed) -> (r: bool)
        ensures
            r == touching(*a, *b),
    {
        a.groups.can_interact_with_groups(&b.groups) && shapes_within(
            &a.shape,
            &a.position,
            &b.shape,
            &b.position,
            a.kind.margin_of() as u64 + b.kind.margin_of() as u64,
        )
    }

    fn was_near(&self, a: Handle, b: Handle) -> (r: bool)
        ensures
            r == self.near().contains((a, b)),
    {
        let n = self.near.len();
        let mut k: usize = 0;
        while k < n
            invariant
                n == self.near@.len(),
                k <= n,
                forall|m: int| 0 <= m < k ==> #[trigger] self.near@[m] != (a, b),
            decreases n - k,
        {
            let p = self.near[k];
            if p.0.index == a.index && p.1.index == b.index {
                return true;
            }
            k += 1;
        }
        false
    }

    /// Takes the events of the latest update; none are pending afterwards.
    pub fn proximity_events(&mut self) -> (events: Vec<PairEvent>)
        requires
            old(self).wf(),
        ensures
            final(self).wf(),
            events@ == old(self).pending(),
            final(self).pending() == Seq::<PairEvent>::empty(),
            final(self).issued() == old(self).issued(),
            final(self).shapes() == old(self).shapes(),
            final(self).near() == old(self).near(),
    {
        let mut events: Vec<PairEvent> = Vec::new();
        std::mem::swap(&mut events, &mut self.events);
        events
    }
}

/// What an update makes of an index: the shapes stay, the recorded pairs
/// become the pairs that are close now, and the pending events report the
/// change from the pairs recorded before.
pub open spec fn updated(pre: SpatialIndex, post: SpatialIndex) -> bool {
    &&& post.issued() == pre.issued()
    &&& post.shapes() == pre.shapes()
    &&& post.near() == touching_pairs(pre.shapes())
    &&& is_transitions(post.pending(), pre.near(), post.near())
}

impl SpatialIndex {
    /// Recomputes which pairs of shapes are close, from the groups and
    /// positions as they stand, and replaces the pending events by the
    /// changes since the previous update.
    pub fn update(&mut self)
        requires
            old(self).wf(),
        ensures
            final(self).wf(),
            updated(*old(self), *final(self)),
    {
        let ghost before = self.near();
        let ghost after = touching_pairs(self.shapes());
        let n = self.slots.len();
        let mut fresh: Vec<(Handle, Handle)> = Vec::new();
        let mut events: Vec<PairEvent> = Vec::new();
        let mut i: usize = 0;
        while i < n
            invariant
                *self == *old(self),
                n == self.slots@.len(),
                i <= n,
                before == self.near(),
                after == touching_pairs(self.shapes()),
                forall|k: int|
                    0 <= k < fresh@.len() ==> covered(#[trigger] fresh@[k], i as int, 0, n as int)
                        && after.contains(fresh@[k]),
                forall|p: (Handle, Handle)| #[trigger]
                    covered(p, i as int, 0, n as int) && after.contains(p) ==> fresh@.contains(p),
                forall|k: int|
                    0 <= k < events@.len() ==> {
                        let ev = #[trigger] events@[k];
                        &&& covered(ev.pair(), i as int, 0, n as int)
                        &&& changed(ev.pair(), before, after)
                        &&& ev.state == if after.contains(ev.pair()) {
                            Transition::Entered
                        } else {
                            Transition::Exited
                        }
                    },
                forall|p: (Handle, Handle)| #[trigger]
                    covered(p, i as int, 0, n as int) && changed(p, before, after) ==> exists|
                        k: int,
                    |
                        0 <= k < events@.len() && (#[trigger] events@[k]).pair() == p,
                forall|k: int, l: int|
                    0 <= k < l < events@.len() ==> pair_precedes(
                        (#[trigger] events@[k]).pair(),
                        (#[trigger] events@[l]).pair(),
                    ),
            decreases n - i,
        {
            let mut j: usize = i + 1;
            proof {
                assert forall|p: (Handle, Handle)|
                    covered(p, i as int, 0, n as int) == #[trigger] covered(
                        p,
                        i as int,
                        j as int,
                        n as int,
                    ) by {}
            }
            while j < n
                invariant
                    *self == *old(self),
                    n == self.slots@.len(),
                    i < n,
                    i < j <= n,
                    before == self.near(),
                    after == touching_pairs(self.shapes()),
                    forall|k: int|
                        0 <= k < fresh@.len() ==> covered(
                            #[trigger] fresh@[k],
                            i as int,
                            j as int,
                            n as int,
                        ) && after.contains(fresh@[k]),
                    forall|p: (Handle, Handle)| #[trigger]
                        covered(p, i as int, j as int, n as int) && after.contains(p)
                            ==> fresh@.contains(p),
                    forall|k: int|
                        0 <= k < events@.len() ==> {
                            let ev = #[trigger] events@[k];
                            &&& covered(ev.pair(), i as int, j as int, n as int)
                            &&& changed(ev.pair(), before, after)
                            &&& ev.state == if after.contains(ev.pair()) {
                                Transition::Entered
                            } else {
                                Transition::Exited
                            }
                        },
                    forall|p: (Handle, Handle)| #[trigger]
                        covered(p, i as int, j as int, n as int) && changed(p, before, after)
                            ==> exists|k: int|
                            0 <= k < events@.len() && (#[trigger] events@[k]).pair() == p,
                    forall|k: int, l: int|
                        0 <= k < l < events@.len() ==> pair_precedes(
                            (#[trigger] events@[k]).pair(),
                            (#[trigger] events@[l]).pair(),
                        ),
                decreases n - j,
            {
                let first = Handle { index: i };
                let second = Handle { index: j };
                let ghost here = (first, second);
                let now = match (self.slots[i], self.slots[j]) {
                    (Some(a), Some(b)) => Self::touches(&a, &b),
                    _ => false,
                };
                let was = self.was_near(first, second);
                let ghost fresh_was = fresh@;
                let ghost events_was = events@;
                if now {
                    fresh.push((first, second));
                }
                if now != was {
                    let state = if now {
                        Transition::Entered
                    } else {
                        Transition::Exited
                    };
                    events.push(PairEvent { first, second, state });
                }
                proof {
                    let i1 = i as int;
                    let j1 = j as int;
                    let n1 = n as int;
                    assert forall|p: (Handle, Handle)| #[trigger]
                        covered(p, i1, j1 + 1, n1) implies covered(p, i1, j1, n1) || p == here by {}
                    assert forall|p: (Handle, Handle)| #[trigger]
                        covered(p, i1, j1 + 1, n1) && after.contains(p) implies fresh@.contains(
                        p,
                    ) by {
                        if p == here {
                            assert(fresh@[fresh_was.len() as int] == p);
                        } else {
                            let w = choose|w: int| 0 <= w < fresh_was.len() && fresh_was[w] == p;
                            assert(fresh@[w] == p);
                        }
                    }
                    assert forall|p: (Handle, Handle)| #[trigger]
                        covered(p, i1, j1 + 1, n1) && changed(p, before, after) implies exists|
                        k: int,
                    |
                        0 <= k < events@.len() && (#[trigger] events@[k]).pair() == p by {
                        if p == here {
                            assert(events@[events_was.len() as int].pair() == p);
                        } else {
                            let w = choose|w: int|
                                0 <= w < events_was.len() && (#[trigger] events_was[w]).pair()
                                    == p;
                            assert(events@[w].pair() == p);
                        }
                    }
                }
                j += 1;
            }
            proof {
                assert forall|p: (Handle, Handle)|
                    covered(p, i as int, n as int, n as int) == #[trigger] covered(
                        p,
                        i as int + 1,
                        0,
                        n as int,
                    ) by {}
            }
            i += 1;
        }
        self.near = fresh;
        self.events = events;
        proof {
            assert forall|p: (Handle, Handle)| self.near().contains(p) == after.contains(p) by {
                if after.contains(p) {
                    assert(covered(p, n as int, 0, n as int));
                }
            }
            assert(self.near() =~= after);
            assert forall|p: (Handle, Handle)| #[trigger]
                changed(p, before, after) implies exists|k: int|
                0 <= k < events@.len() && (#[trigger] events@[k]).pair() == p by {
                assert(covered(p, n as int, 0, n as int));
            }
        }
    }
}

/// While the groups of two tracked shapes are not eligible to interact, an
/// update records no pair for them and reports no event for them, however
/// close they are.
pub proof fn lemma_ineligible_pair_is_silent(
    pre: SpatialIndex,
    post: SpatialIndex,
    a: Handle,
    b: Handle,
)
    requires
        pre.wf(),
        updated(pre, post),
        pre.shapes().contains_key(a),
        pre.shapes().contains_key(b),
        !interacts(pre.shapes()[a].groups, pre.shapes()[b].groups),
    ensures
        !post.near().contains((a, b)),
        forall|k: int| 0 <= k < post.pending().len() ==> (#[trigger] post.pending()[k]).pair() != (a, b),
{
}

/// Two shapes that carry the same group value, where that value does not
/// accept its own groups, never give rise to an event, even when they overlap.
pub proof fn lemma_same_group_is_silent(
    pre: SpatialIndex,
    post: SpatialIndex,
    a: Handle,
    b: Handle,
)
    requires
        pre.wf(),
        updated(pre, post),
        pre.shapes().contains_key(a),
        pre.shapes().contains_key(b),
        pre.shapes()[a].groups == pre.shapes()[b].groups,
        !interacts(pre.shapes()[a].groups, pre.shapes()[a].groups),
    ensures
        !post.near().contains((a, b)),
        forall|k: int| 0 <= k < post.pending().len() ==> (#[trigger] post.pending()[k]).pair() != (a, b),
{
    lemma_ineligible_pair_is_silent(pre, post, a, b);
}

/// For two tracked circles with eligible groups that were not recorded as
/// close before, an update reports an event exactly when the distance `d`
/// between the centres satisfies `d <= r1 + r2 + margin`, the margin being
/// the sum of the two shapes' margins; the event says that they came close.
pub proof fn lemma_circles_event(
    pre: SpatialIndex,
    post: SpatialIndex,
    a: Handle,
    b: Handle,
    r1: u32,
    r2: u32,
)
    requires
        pre.wf(),
        updated(pre, post),
        a.index < b.index,
        pre.shapes().contains_key(a),
        pre.shapes().contains_key(b),
        pre.shapes()[a].shape == (Shape::Circle { radius: r1 }),
        pre.shapes()[b].shape == (Shape::Circle { radius: r2 }),
        interacts(pre.shapes()[a].groups, pre.shapes()[b].groups),
        !pre.near().contains((a, b)),
    ensures
        ({
            let margin = pre.shapes()[a].kind.margin() + pre.shapes()[b].kind.margin();
            let reach = r1 + r2 + margin;
            let close = crate::geometry::distance_squared(
                pre.shapes()[a].position,
                pre.shapes()[b].position,
            ) <= reach * reach;
            &&& close <==> post.near().contains((a, b))
            &&& close <==> exists|k: int|
                0 <= k < post.pending().len() && (#[trigger] post.pending()[k]).pair() == (a, b)
            &&& forall|k: int|
                0 <= k < post.pending().len() && (#[trigger] post.pending()[k]).pair() == (a, b)
                    ==> post.pending()[k].state == Transition::Entered
        }),
{
    let ta = pre.shapes()[a];
    let tb = pre.shapes()[b];
    let margin = ta.kind.margin() + tb.kind.margin();
    crate::geometry::lemma_circles_within(r1, ta.position, r2, tb.position, margin as nat);
    assert(changed((a, b), pre.near(), post.near()) == post.near().contains((a, b)));
}

} // verus!
