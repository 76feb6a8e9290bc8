//! The orchestrator: it owns the component store, the spatial index and the
//! bridge between them, and keeps the three in step.

use crate::bridge::Bridge;
use crate::component::{Bundle, Query, Shape, Tag};
use crate::error::SimError;
use crate::groups::{
    blacklist_mask, group_accepting, group_bit, interacts, lemma_mask_of_one, membership_mask,
    whitelist_mask,
};
use crate::spatial::{Handle, Placed, QueryKind, SpatialIndex};
use crate::store::{lemma_query_visits, EntityId, Row, Store};
use crate::vector::{Position, Velocity};
use ncollide2d::pipeline::CollisionGroups;
use vstd::prelude::*;

verus! {

/// The collision group of mobs.
pub const MOBS: usize = 0;

/// The collision group of bullets.
pub const BULLETS: usize = 1;

/// The collision group of players.
pub const PLAYERS: usize = 2;

/// The radius of a player: 15 pixels, in grid units.
pub const PLAYER_RADIUS: u32 = 150;

/// The radius of a bullet: 5 pixels, in grid units.
pub const BULLET_RADIUS: u32 = 50;

/// Half the side of a mob: 10 pixels, in grid units.
pub const MOB_HALF_EXTENT: u32 = 100;

/// The margin every shape asks for: zero, so that shapes are close once they touch.
pub const TRIGGER_MARGIN: u32 = 0;

/// The speed of a bullet along x: 5 pixels per tick, in grid units.
pub const BULLET_SPEED: i64 = 50;

/// The drift of a mob along x: three tenths of a pixel per tick, in grid units.
pub const MOB_DRIFT_X: i64 = 3;

/// The drift of a mob along y: one tenth of a pixel per tick, in grid units.
pub const MOB_DRIFT_Y: i64 = 1;

/// Where the player starts, on both axes: at pixel 200, in grid units.
pub const PLAYER_START: i64 = 2000;

/// Where the first mob starts, on both axes: at pixel 10, in grid units.
pub const FIRST_MOB_START: i64 = 100;

/// What a new player holds.
pub open spec fn player_bundle() -> Bundle {
    Bundle {
        position: Some(Position { x: PLAYER_START, y: PLAYER_START }),
        velocity: Some(Velocity { dx: 0, dy: 0 }),
        shape: Some(Shape::Circle { radius: PLAYER_RADIUS }),
        tag: Some(Tag::Player),
    }
}

/// What a new mob at `at` holds.
pub open spec fn mob_bundle(at: Position) -> Bundle {
    Bundle {
        position: Some(at),
        velocity: Some(Velocity { dx: MOB_DRIFT_X, dy: MOB_DRIFT_Y }),
        shape: Some(Shape::Box { half_width: MOB_HALF_EXTENT, half_height: MOB_HALF_EXTENT }),
        tag: Some(Tag::Mob),
    }
}

/// What a new bullet at `at` holds.
pub open spec fn bullet_bundle(at: Position) -> Bundle {
    Bundle {
        position: Some(at),
        velocity: Some(Velocity { dx: BULLET_SPEED, dy: 0 }),
        shape: Some(Shape::Circle { radius: BULLET_RADIUS }),
        tag: Some(Tag::Bullet),
    }
}

/// The entities that can shoot: those tagged as player that hold a position.
pub open spec fn player_query() -> Query {
    Query { position: true, velocity: false, shape: false, tagged: Some(Tag::Player) }
}

/// The entities of one role that can be drawn: those that hold a position and a shape.
pub open spec fn draw_query(tag: Tag) -> Query {
    Query { position: true, velocity: false, shape: true, tagged: Some(tag) }
}

/// What a renderer needs of one entity.
#[derive(Clone, Copy, Debug, PartialEq, Eq, Structural)]
pub struct Drawable {
    pub position: Position,
    pub shape: Shape,
    pub tag: Tag,
}

/// The drawable of each row, in the order of the rows.
pub open spec fn drawables(rows: Seq<Row>) -> Seq<Drawable> {
    Seq::new(
        rows.len(),
        |k: int|
            Drawable {
                position: rows[k].bundle.position.unwrap(),
                shape: rows[k].bundle.shape.unwrap(),
                tag: rows[k].bundle.tag.unwrap(),
            },
    )
}

/// The whole simulation state.
pub struct Game {
    pub store: Store,
    pub index: SpatialIndex,
    pub bridge: Bridge,
    pub players: CollisionGroups,
    pub mobs: CollisionGroups,
    pub bullets: CollisionGroups,
}

/// What spawning makes of a game: one new entity `e` holding `bundle`, one
/// new shape for it under `groups`, and the two joined in the bridge. Pairs
/// are as they were until the next update.
pub open spec fn spawned(
    pre: Game,
    post: Game,
    e: EntityId,
    bundle: Bundle,
    groups: CollisionGroups,
) -> bool {
    let h = Handle { index: pre.index.issued() as usize };
    &&& e.index == pre.store.issued()
    &&& post.store.issued() == pre.store.issued() + 1
    &&& post.store@ == pre.store@.insert(e, bundle)
    &&& post.index.issued() == pre.index.issued() + 1
    &&& post.index.shapes() == pre.index.shapes().insert(
        h,
        Placed {
            shape: bundle.shape.unwrap(),
            position: bundle.position.unwrap(),
            groups,
            kind: QueryKind::Proximity { margin: TRIGGER_MARGIN },
        },
    )
    &&& post.index.near() == pre.index.near()
    &&& post.index.pending() == pre.index.pending()
    &&& post.bridge@ == pre.bridge@.insert(e, h)
    &&& post.players == pre.players
    &&& post.mobs == pre.mobs
    &&& post.bullets == pre.bullets
}

impl Game {
    /// Mobs and bullets accept each other and nothing else; players accept nothing.
    pub open spec fn groups_configured(&self) -> bool {
        &&& membership_mask(self.players) == group_bit(PLAYERS)
        &&& whitelist_mask(self.players) == 0u32
        &&& blacklist_mask(self.players) == 0u32
        &&& membership_mask(self.mobs) == group_bit(MOBS)
        &&& whitelist_mask(self.mobs) == group_bit(BULLETS)
        &&& blacklist_mask(self.mobs) == 0u32
        &&& membership_mask(self.bullets) == group_bit(BULLETS)
        &&& whitelist_mask(self.bullets) == group_bit(MOBS)
        &&& blacklist_mask(self.bullets) == 0u32
    }

    /// A tracked entity is live, its shape is in the index, and the index
    /// holds the position and the shape that the store holds.
    pub open spec fn in_step(&self, e: EntityId) -> bool {
        let h = self.bridge@[e];
        &&& self.store@.contains_key(e)
        &&& self.index.shapes().contains_key(h)
        &&& self.store@[e].position == Some(self.index.shapes()[h].position)
        &&& self.store@[e].shape == Some(self.index.shapes()[h].shape)
    }

    /// The three parts are well formed and in step: every tracked entity is
    /// live and agrees with its shape, and every shape belongs to a tracked
    /// entity.
    pub open spec fn wf(&self) -> bool {
        &&& self.store.wf()
        &&& self.index.wf()
        &&& self.bridge.wf()
        &&& self.groups_configured()
        &&& forall|e: EntityId| #[trigger] self.bridge@.contains_key(e) ==> self.in_step(e)
        &&& forall|h: Handle| #[trigger]
            self.index.shapes().contains_key(h) ==> self.bridge.in_use(h)
    }

    /// Whether an entity exists that can shoot.
    pub open spec fn has_player(&self) -> bool {
        exists|e: EntityId| #[trigger]
            self.store@.contains_key(e) && player_query().admits(self.store@[e])
    }

    /// Where a shot starts: at the player of least identity.
    pub open spec fn muzzle(&self) -> Position
        recommends
            self.has_player(),
    {
        self.store.matching(player_query())[0].bundle.position.unwrap()
    }

    /// What the group configuration means for the three roles: mobs and
    /// bullets interact with each other; no role interacts with itself, and
    /// players interact with nothing.
    pub proof fn lemma_group_rules(&self)
        requires
            self.groups_configured(),
        ensures
            interacts(self.mobs, self.bullets),
            interacts(self.bullets, self.mobs),
            !interacts(self.mobs, self.mobs),
            !interacts(self.bullets, self.bullets),
            !interacts(self.players, self.players),
            !interacts(self.players, self.mobs),
            !interacts(self.mobs, self.players),
            !interacts(self.players, self.bullets),
            !interacts(self.bullets, self.players),
    {
        let m = group_bit(MOBS);
        let b = group_bit(BULLETS);
        let p = group_bit(PLAYERS);
        assert(1u32 << 0usize == 1u32 && 1u32 << 1usize == 2u32 && 1u32 << 2usize == 4u32)
            by (bit_vector);
        assert(1u32 & 0u32 == 0u32 && 2u32 & 0u32 == 0u32 && 4u32 & 0u32 == 0u32) by (bit_vector);
        assert(1u32 & 2u32 == 0u32 && 2u32 & 1u32 == 0u32) by (bit_vector);
        assert(1u32 & 1u32 != 0u32 && 2u32 & 2u32 != 0u32) by (bit_vector);
    }

    /// A game with no entity, and the groups configured.
    pub fn empty() -> (g: Game)
        ensures
            g.wf(),
            g.store@ == Map::<EntityId, Bundle>::empty(),
            g.store.issued() == 0,
            g.index.shapes() == Map::<Handle, Placed>::empty(),
            g.index.issued() == 0,
            g.index.near() == Set::<(Handle, Handle)>::empty(),
            g.index.pending() == Seq::<crate::spatial::PairEvent>::empty(),
            g.bridge@ == Map::<EntityId, Handle>::empty(),
    {
        let none: Vec<usize> = Vec::new();
        let mut only_mobs: Vec<usize> = Vec::new();
        only_mobs.push(MOBS);
        let mut only_bullets: Vec<usize> = Vec::new();
        only_bullets.push(BULLETS);
        proof {
            lemma_mask_of_one(MOBS);
            lemma_mask_of_one(BULLETS);
        }
        Game {
            store: Store::new(),
            index: SpatialIndex::new(),
            bridge: Bridge::new(),
            players: group_accepting(PLAYERS, &none),
            mobs: group_accepting(MOBS, &only_bullets),
            bullets: group_accepting(BULLETS, &only_mobs),
        }
    }

    fn spawn(&mut self, bundle: Bundle, groups: CollisionGroups) -> (e: EntityId)
        requires
            old(self).wf(),
            bundle.position is Some,
            bundle.shape is Some,
        ensures
            final(self).wf(),
            spawned(*old(self), *final(self), e, bundle, groups),
    {
        let e = self.store.insert(bundle);
        let h = self.index.add(
            bundle.shape.unwrap(),
            bundle.position.unwrap(),
            groups,
            QueryKind::Proximity { margin: TRIGGER_MARGIN },
        );
        let joined = self.bridge.track(e, h);
        proof {
            // Both the entity and the handle are new, so the bridge takes them.
            assert(joined is Ok);
            assert forall|k: Handle| #[trigger]
                self.index.shapes().contains_key(k) implies self.bridge.in_use(k) by {
                if k != h {
                    let owner = choose|x: EntityId|
                        old(self).bridge@.contains_key(x) && #[trigger] old(self).bridge@[x] == k;
                    assert(self.bridge@.contains_key(owner) && self.bridge@[owner] == k);
                } else {
                    assert(self.bridge@.contains_key(e) && self.bridge@[e] == k);
                }
            }
        }
        e
    }

    /// Creates the player: a circle at the start position, at rest, tracked
    /// under the players' group.
    pub fn spawn_player(&mut self) -> (e: EntityId)
        requires
            old(self).wf(),
        ensures
            final(self).wf(),
            spawned(*old(self), *final(self), e, player_bundle(), old(self).players),
    {
        let bundle = Bundle {
            position: Some(Position::new(PLAYER_START, PLAYER_START)),
            velocity: Some(Velocity::new(0, 0)),
            shape: Some(Shape::Circle { radius: PLAYER_RADIUS }),
            tag: Some(Tag::Player),
        };
        let groups = self.players;
        self.spawn(bundle, groups)
    }

    /// Creates a mob at `at`: a box, drifting, tracked under the mobs' group.
    pub fn spawn_mob(&mut self, at: Position) -> (e: EntityId)
        requires
            old(self).wf(),
        ensures
            final(self).wf(),
            spawned(*old(self), *final(self), e, mob_bundle(at), old(self).mobs),
    {
        let bundle = Bundle {
            position: Some(at),
            velocity: Some(Velocity::new(MOB_DRIFT_X, MOB_DRIFT_Y)),
            shape: Some(Shape::Box { half_width: MOB_HALF_EXTENT, half_height: MOB_HALF_EXTENT }),
            tag: Some(Tag::Mob),
        };
        let groups = self.mobs;
        self.spawn(bundle, groups)
    }

    /// Creates a bullet where the player of least identity stands, flying
    /// along x, tracked under the bullets' group. Fails, and changes nothing,
    /// exactly when no entity tagged as player holds a position.
    pub fn spawn_bullet(&mut self) -> (r: Result<EntityId, SimError>)
        requires
            old(self).wf(),
        ensures
            final(self).wf(),
            r is Ok <==> old(self).has_player(),
            match r {
                Ok(e) => spawned(
                    *old(self),
                    *final(self),
                    e,
                    bullet_bundle(old(self).muzzle()),
                    old(self).bullets,
                ),
                Err(err) => err == SimError::NoPlayer && *final(self) == *old(self),
            },
    {
        let q = Query { position: true, velocity: false, shape: false, tagged: Some(Tag::Player) };
        let rows = self.store.query(&q);
        proof {
            lemma_query_visits(self.store, q);
        }
        if rows.len() == 0 {
            return Err(SimError::NoPlayer);
        }
        let at = rows[0].bundle.position.unwrap();
        let bundle = Bundle {
            position: Some(at),
            velocity: Some(Velocity::new(BULLET_SPEED, 0)),
            shape: Some(Shape::Circle { radius: BULLET_RADIUS }),
            tag: Some(Tag::Bullet),
        };
        let groups = self.bullets;
        Ok(self.spawn(bundle, groups))
    }

    /// The game as it starts: the player, and one mob.
    pub fn new() -> (g: Game)
        ensures
            g.wf(),
            g.store.issued() == 2,
            g.store@ == Map::<EntityId, Bundle>::empty().insert(
                EntityId { index: 0 },
                player_bundle(),
            ).insert(
                EntityId { index: 1 },
                mob_bundle(Position { x: FIRST_MOB_START, y: FIRST_MOB_START }),
            ),
            g.bridge@ == Map::<EntityId, Handle>::empty().insert(
                EntityId { index: 0 },
                Handle { index: 0 },
            ).insert(EntityId { index: 1 }, Handle { index: 1 }),
            g.index.issued() == 2,
            g.index.shapes() == Map::<Handle, Placed>::empty().insert(
                Handle { index: 0 },
                Placed {
                    shape: Shape::Circle { radius: PLAYER_RADIUS },
                    position: Position { x: PLAYER_START, y: PLAYER_START },
                    groups: g.players,
                    kind: QueryKind::Proximity { margin: TRIGGER_MARGIN },
                },
            ).insert(
                Handle { index: 1 },
                Placed {
                    shape: Shape::Box { half_width: MOB_HALF_EXTENT, half_height: MOB_HALF_EXTENT },
                    position: Position { x: FIRST_MOB_START, y: FIRST_MOB_START },
                    groups: g.mobs,
                    kind: QueryKind::Proximity { margin: TRIGGER_MARGIN },
                },
            ),
            g.index.near() == Set::<(Handle, Handle)>::empty(),
            g.index.pending() == Seq::<crate::spatial::PairEvent>::empty(),
    {
        let mut g = Game::empty();
        g.spawn_player();
        g.spawn_mob(Position::new(FIRST_MOB_START, FIRST_MOB_START));
        g
    }

    /// Removes an entity: its handle leaves the bridge, its shape leaves the
    /// index together with the pairs it was part of, and its components leave
    /// the store. Returns whether `e` was live.
    pub fn despawn(&mut self, e: EntityId) -> (r: bool)
        requires
            old(self).wf(),
        ensures
            final(self).wf(),
            r == old(self).store@.contains_key(e),
            final(self).store@ == old(self).store@.remove(e),
            final(self).store.issued() == old(self).store.issued(),
            final(self).bridge@ == old(self).bridge@.remove(e),
            final(self).index.issued() == old(self).index.issued(),
            final(self).index.pending() == old(self).index.pending(),
            match old(self).bridge.lookup(e) {
                Some(h) => {
                    &&& final(self).index.shapes() == old(self).index.shapes().remove(h)
                    &&& final(self).index.near() == Set::new(
                        |p: (Handle, Handle)|
                            old(self).index.near().contains(p) && p.0 != h && p.1 != h,
                    )
                },
                None => {
                    &&& final(self).index.shapes() == old(self).index.shapes()
                    &&& final(self).index.near() == old(self).index.near()
                },
            },
            final(self).players == old(self).players,
            final(self).mobs == old(self).mobs,
            final(self).bullets == old(self).bullets,
    {
        proof {
            self.bridge.lemma_one_to_one();
        }
        match self.bridge.untrack(e) {
            Some(h) => {
                self.index.remove(h);
            },
            None => {},
        }
        let removed = self.store.remove(e);
        proof {
            assert forall|k: Handle| #[trigger]
                self.index.shapes().contains_key(k) implies self.bridge.in_use(k) by {
                let owner = choose|x: EntityId|
                    old(self).bridge@.contains_key(x) && #[trigger] old(self).bridge@[x] == k;
                assert(self.bridge@.contains_key(owner) && self.bridge@[owner] == k);
            }
        }
        removed.is_some()
    }

    fn draw_into(&self, tag: Tag, out: &mut Vec<Drawable>)
        requires
            self.store.wf(),
        ensures
            final(out)@ == old(out)@ + drawables(self.store.matching(draw_query(tag))),
    {
        let q = Query { position: true, velocity: false, shape: true, tagged: Some(tag) };
        let rows = self.store.query(&q);
        proof {
            lemma_query_visits(self.store, q);
        }
        let mut k: usize = 0;
        while k < rows.len()
            invariant
                k <= rows@.len(),
                q == draw_query(tag),
                rows@ == self.store.matching(q),
                forall|m: int| 0 <= m < rows@.len() ==> q.admits((#[trigger] rows@[m]).bundle),
                out@ == old(out)@ + drawables(rows@.take(k as int)),
            decreases rows@.len() - k,
        {
            let row = rows[k];
            out.push(
                Drawable {
                    position: row.bundle.position.unwrap(),
                    shape: row.bundle.shape.unwrap(),
                    tag: row.bundle.tag.unwrap(),
                },
            );
            k += 1;
        }
    }

    /// What a renderer is to draw: every entity that holds a position, a
    /// shape and a role; the players first, then the bullets, then the mobs,
    /// each role in order of identity.
    pub fn scene(&self) -> (out: Vec<Drawable>)
        requires
            self.store.wf(),
        ensures
            out@ == drawables(self.store.matching(draw_query(Tag::Player))) + drawables(
                self.store.matching(draw_query(Tag::Bullet)),
            ) + drawables(self.store.matching(draw_query(Tag::Mob))),
    {
        let mut out: Vec<Drawable> = Vec::new();
        self.draw_into(Tag::Player, &mut out);
        self.draw_into(Tag::Bullet, &mut out);
        self.draw_into(Tag::Mob, &mut out);
        out
    }
}

} // verus!
