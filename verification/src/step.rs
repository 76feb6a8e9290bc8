//! The simulation step: one tick of the game.

use crate::bridge::Bridge;
use crate::component::{Bundle, Query};
use crate::error::SimError;
use crate::game::Game;
use crate::groups::interacts;
use crate::spatial::{is_transitions, touching_pairs, Handle, PairEvent, Placed, Transition};
use crate::store::{applied_to_first, lemma_applied_to_all, lemma_query_visits, EntityId};
use vstd::prelude::*;

verus! {

/// Two entities whose shapes came close or parted in a tick.
#[derive(Clone, Copy, Debug, PartialEq, Eq, Structural)]
pub struct ProximityEvent {
    pub entity_a: EntityId,
    pub entity_b: EntityId,
    pub state: Transition,
}

impl ProximityEvent {
    /// The event as the index reported it, in the handles of the two entities.
    pub open spec fn as_pair(self, table: Map<EntityId, Handle>) -> PairEvent {
        PairEvent {
            first: table[self.entity_a],
            second: table[self.entity_b],
            state: self.state,
        }
    }
}

/// The events as the index reported them.
pub open spec fn as_pairs(events: Seq<ProximityEvent>, table: Map<EntityId, Handle>) -> Seq<
    PairEvent,
> {
    Seq::new(events.len(), |k: int| events[k].as_pair(table))
}

/// What a tick does to a bundle: a position that has a velocity moves by it.
pub open spec fn advance_bundle(b: Bundle) -> Bundle {
    if b.position is Some && b.velocity is Some {
        Bundle { position: Some(b.position.unwrap().advanced(b.velocity.unwrap())), ..b }
    } else {
        b
    }
}

/// Whether a bundle cannot take the tick: its position would leave the grid.
pub open spec fn stuck(b: Bundle) -> bool {
    b.position is Some && b.velocity is Some && !b.position.unwrap().can_advance(
        b.velocity.unwrap(),
    )
}

/// The entities a tick moves: those that hold a position and a velocity.
pub open spec fn moving_query() -> Query {
    Query { position: true, velocity: true, shape: false, tagged: None }
}

/// What one tick makes of a game. No position was about to leave the grid,
/// and every position that has a velocity has moved by it, exactly. The shapes are those of before, each at a position
/// of its own; that this is the position of its entity is part of the
/// game's well-formedness. The recorded pairs are the pairs that are close
/// at the new positions, and `events` reports, in the entities of the
/// shapes, the change from the pairs recorded before.
pub open spec fn ticked(pre: Game, post: Game, events: Seq<ProximityEvent>) -> bool {
    &&& forall|e: EntityId| #[trigger] pre.store@.contains_key(e) ==> !stuck(pre.store@[e])
    &&& post.store.issued() == pre.store.issued()
    &&& post.store@ == pre.store@.map_values(|b: Bundle| advance_bundle(b))
    &&& post.bridge == pre.bridge
    &&& post.players == pre.players
    &&& post.mobs == pre.mobs
    &&& post.bullets == pre.bullets
    &&& post.index.issued() == pre.index.issued()
    &&& post.index.shapes().dom() == pre.index.shapes().dom()
    &&& forall|h: Handle| #[trigger]
        post.index.shapes().contains_key(h) ==> post.index.shapes()[h] == (Placed {
            position: post.index.shapes()[h].position,
            ..pre.index.shapes()[h]
        })
    &&& post.index.near() == touching_pairs(post.index.shapes())
    &&& post.index.pending() == Seq::<PairEvent>::empty()
    &&& forall|k: int|
        0 <= k < events.len() ==> post.bridge@.contains_key((#[trigger] events[k]).entity_a)
            && post.bridge@.contains_key(events[k].entity_b)
    &&& is_transitions(as_pairs(events, post.bridge@), pre.index.near(), post.index.near())
}

impl Game {
    fn name_entities(bridge: &Bridge, pairs: &Vec<PairEvent>) -> (events: Vec<ProximityEvent>)
        requires
            bridge.wf(),
            forall|k: int|
                0 <= k < pairs@.len() ==> bridge.in_use((#[trigger] pairs@[k]).first)
                    && bridge.in_use(pairs@[k].second),
        ensures
            forall|k: int|
                0 <= k < events@.len() ==> bridge@.contains_key((#[trigger] events@[k]).entity_a)
                    && bridge@.contains_key(events@[k].entity_b),
            as_pairs(events@, bridge@) == pairs@,
    {
        let mut events: Vec<ProximityEvent> = Vec::new();
        let mut k: usize = 0;
        while k < pairs.len()
            invariant
                bridge.wf(),
                forall|m: int|
                    0 <= m < pairs@.len() ==> bridge.in_use((#[trigger] pairs@[m]).first)
                        && bridge.in_use(pairs@[m].second),
                k <= pairs@.len(),
                events@.len() == k,
                forall|m: int|
                    0 <= m < k ==> {
                        let ev = #[trigger] events@[m];
                        &&& bridge@.contains_key(ev.entity_a)
                        &&& bridge@.contains_key(ev.entity_b)
                        &&& ev.as_pair(bridge@) == pairs@[m]
                    },
            decreases pairs@.len() - k,
        {
            let pair = pairs[k];
            match (bridge.entity_for(pair.first), bridge.entity_for(pair.second)) {
                (Some(entity_a), Some(entity_b)) => {
                    events.push(ProximityEvent { entity_a, entity_b, state: pair.state });
                },
                _ => {},
            }
            k += 1;
        }
        events
    }

    /// Runs one tick: every entity that holds a position and a velocity moves
    /// by its velocity; the shapes of the tracked ones follow; the index is
    /// updated once, after all the moves; and the changes in proximity are
    /// returned. Fails, and changes nothing, exactly when some position would
    /// leave the grid.
    pub fn update(&mut self) -> (r: Result<Vec<ProximityEvent>, SimError>)
        requires
            old(self).wf(),
        ensures
            final(self).wf(),
            r is Err <==> exists|e: EntityId| #[trigger]
                old(self).store@.contains_key(e) && stuck(old(self).store@[e]),
            match r {
                Ok(events) => ticked(*old(self), *final(self), events@),
                Err(err) => err == SimError::OutOfRange && *final(self) == *old(self),
            },
    {
        let q = Query { position: true, velocity: true, shape: false, tagged: None };
        let rows = self.store.query(&q);
        let ghost base = self.store@;
        let ghost f = |b: Bundle| advance_bundle(b);
        proof {
            lemma_query_visits(self.store, q);
            self.bridge.lemma_one_to_one();
        }
        let mut k: usize = 0;
        while k < rows.len()
            invariant
                k <= rows@.len(),
                q == moving_query(),
                base == old(self).store@,
                *self == *old(self),
                self.wf(),
                forall|m: int|
                    0 <= m < rows@.len() ==> {
                        let row = #[trigger] rows@[m];
                        &&& base.contains_key(row.entity)
                        &&& row.bundle == base[row.entity]
                        &&& q.admits(row.bundle)
                    },
                forall|m: int| 0 <= m < k ==> !stuck((#[trigger] rows@[m]).bundle),
            decreases rows@.len() - k,
        {
            let row = rows[k];
            if row.bundle.position.unwrap().checked_add(row.bundle.velocity.unwrap()).is_none() {
                return Err(SimError::OutOfRange);
            }
            k += 1;
        }
        k = 0;
        while k < rows.len()
            invariant
                k <= rows@.len(),
                q == moving_query(),
                base == old(self).store@,
                forall|b: Bundle| #[trigger] f(b) == advance_bundle(b),
                forall|m: int|
                    0 <= m < rows@.len() ==> {
                        let row = #[trigger] rows@[m];
                        &&& base.contains_key(row.entity)
                        &&& row.bundle == base[row.entity]
                        &&& q.admits(row.bundle)
                        &&& !stuck(row.bundle)
                    },
                forall|m: int, l: int|
                    0 <= m < l < rows@.len() ==> (#[trigger] rows@[m]).entity != (
                    #[trigger] rows@[l]).entity,
                forall|a: EntityId, b: EntityId|
                    self.bridge@.contains_key(a) && self.bridge@.contains_key(b)
                        && #[trigger] self.bridge@[a] == #[trigger] self.bridge@[b] ==> a == b,
                self.wf(),
                self.store.issued() == old(self).store.issued(),
                self.store@ == applied_to_first(base, rows@, k as int, f),
                self.bridge == old(self).bridge,
                self.players == old(self).players,
                self.mobs == old(self).mobs,
                self.bullets == old(self).bullets,
                self.index.issued() == old(self).index.issued(),
                self.index.near() == old(self).index.near(),
                self.index.shapes().dom() == old(self).index.shapes().dom(),
                forall|h: Handle| #[trigger]
                    self.index.shapes().contains_key(h) ==> self.index.shapes()[h] == (Placed {
                        position: self.index.shapes()[h].position,
                        ..old(self).index.shapes()[h]
                    }),
            decreases rows@.len() - k,
        {
            let row = rows[k];
            match row.bundle.position.unwrap().checked_add(row.bundle.velocity.unwrap()) {
                Some(p) => {
                    self.store.write_position(row.entity, p);
                    match self.bridge.handle_for(row.entity) {
                        Some(h) => {
                            self.index.set_position(h, p);
                        },
                        None => {},
                    }
                },
                None => {},
            }
            k += 1;
        }
        proof {
            lemma_applied_to_all(old(self).store, q, f);
            old(self).index.lemma_wf();
        }
        self.index.update();
        let pairs = self.index.proximity_events();
        let events = Self::name_entities(&self.bridge, &pairs);
        Ok(events)
    }
}

/// After a tick every entity that held a position `(x, y)` and a velocity
/// `(dx, dy)` holds the position `(x + dx, y + dy)`, exactly, and its
/// velocity is as it was.
pub proof fn lemma_tick_integrates(
    pre: Game,
    post: Game,
    events: Seq<ProximityEvent>,
    e: EntityId,
)
    requires
        pre.wf(),
        ticked(pre, post, events),
        pre.store@.contains_key(e),
        pre.store@[e].position is Some,
        pre.store@[e].velocity is Some,
    ensures
        post.store@.contains_key(e),
        post.store@[e].velocity == pre.store@[e].velocity,
        post.store@[e].position is Some,
        post.store@[e].position.unwrap().x == pre.store@[e].position.unwrap().x
            + pre.store@[e].velocity.unwrap().dx,
        post.store@[e].position.unwrap().y == pre.store@[e].position.unwrap().y
            + pre.store@[e].velocity.unwrap().dy,
{
}

/// After a tick the index holds, for every tracked entity, the position
/// that the store holds for it: the moves reach the index before it is
/// updated.
pub proof fn lemma_tick_keeps_step(
    pre: Game,
    post: Game,
    events: Seq<ProximityEvent>,
    e: EntityId,
)
    requires
        post.wf(),
        ticked(pre, post, events),
        post.bridge@.contains_key(e),
    ensures
        post.store@.contains_key(e),
        post.index.shapes().contains_key(post.bridge@[e]),
        post.store@[e].position == Some(post.index.shapes()[post.bridge@[e]].position),
{
}

/// A tick reports nothing for two tracked entities whose groups are not
/// eligible to interact, however close they are: two mobs, two bullets, or
/// the player and anything.
pub proof fn lemma_tick_is_silent_within_a_group(
    pre: Game,
    post: Game,
    events: Seq<ProximityEvent>,
    a: EntityId,
    b: EntityId,
)
    requires
        pre.wf(),
        post.wf(),
        ticked(pre, post, events),
        pre.bridge@.contains_key(a),
        pre.bridge@.contains_key(b),
        !interacts(
            pre.index.shapes()[pre.bridge@[a]].groups,
            pre.index.shapes()[pre.bridge@[b]].groups,
        ),
    ensures
        forall|k: int|
            0 <= k < events.len() ==> !((#[trigger] events[k]).entity_a == a && events[k].entity_b
                == b),
        !post.index.near().contains((post.bridge@[a], post.bridge@[b])),
{
    let pair = (pre.bridge@[a], pre.bridge@[b]);
    pre.index.lemma_wf();
    assert forall|k: int| 0 <= k < events.len() implies !((#[trigger] events[k]).entity_a == a
        && events[k].entity_b == b) by {
        let reported = as_pairs(events, post.bridge@);
        if events[k].entity_a == a && events[k].entity_b == b {
            assert(reported[k].pair() == pair);
        }
    }
}

} // verus!
