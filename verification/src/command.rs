//! The command layer: what the input signals do to the game.
//!
//! Steering is clamped and the last key wins: pressing a movement key sets
//! the player's speed along that key's axis to one unit in the key's
//! direction, whatever it was; releasing a key stops the axis only if the
//! speed is still the one that key gave. Repeating a press therefore adds
//! nothing, and no release leaves a residue.

use crate::component::{Bundle, Query, Tag};
use crate::error::SimError;
use crate::game::{bullet_bundle, mob_bundle, spawned, Game};
use crate::store::{applied_to_first, lemma_query_visits, EntityId};
use crate::vector::{Position, Velocity};
use vstd::prelude::*;

verus! {

/// The speed one movement key gives, in grid units per tick: one pixel.
pub const UNIT_SPEED: i64 = 10;

/// The keys the game listens to.
#[derive(Clone, Copy, Debug, PartialEq, Eq, Structural)]
pub enum Key {
    Up,
    Left,
    Down,
    Right,
    Shoot,
}

/// One input signal, delivered once per occurrence.
#[derive(Clone, Copy, Debug, PartialEq, Eq, Structural)]
pub enum InputEvent {
    Key { key: Key, pressed: bool },
    PointerClick { x: i64, y: i64 },
}

/// The speed along one axis after a key that contributes `contribution` to
/// it was pressed or released.
pub open spec fn settle(current: i64, contribution: i64, pressed: bool) -> i64 {
    if pressed {
        contribution
    } else if current == contribution {
        0
    } else {
        current
    }
}

/// The velocity after `key` was pressed or released. Up is towards smaller y.
pub open spec fn steer(v: Velocity, key: Key, pressed: bool) -> Velocity {
    match key {
        Key::Up => Velocity { dy: settle(v.dy, (-UNIT_SPEED) as i64, pressed), ..v },
        Key::Left => Velocity { dx: settle(v.dx, (-UNIT_SPEED) as i64, pressed), ..v },
        Key::Down => Velocity { dy: settle(v.dy, UNIT_SPEED, pressed), ..v },
        Key::Right => Velocity { dx: settle(v.dx, UNIT_SPEED, pressed), ..v },
        Key::Shoot => v,
    }
}

/// What a key does to a bundle: it steers the velocity of a player, and
/// leaves every other bundle alone.
pub open spec fn steer_bundle(b: Bundle, key: Key, pressed: bool) -> Bundle {
    if b.tag == Some(Tag::Player) && b.velocity is Some {
        Bundle { velocity: Some(steer(b.velocity.unwrap(), key, pressed)), ..b }
    } else {
        b
    }
}

/// The entities a movement key steers: those tagged as player that hold a velocity.
pub open spec fn pilot_query() -> Query {
    Query { position: false, velocity: true, shape: false, tagged: Some(Tag::Player) }
}

fn settled(current: i64, contribution: i64, pressed: bool) -> (r: i64)
    ensures
        r == settle(current, contribution, pressed),
{
    if pressed {
        contribution
    } else if current == contribution {
        0
    } else {
        current
    }
}

/// The velocity after `key` was pressed or released.
pub fn steered(v: Velocity, key: Key, pressed: bool) -> (r: Velocity)
    ensures
        r == steer(v, key, pressed),
{
    match key {
        Key::Up => Velocity { dx: v.dx, dy: settled(v.dy, -UNIT_SPEED, pressed) },
        Key::Left => Velocity { dx: settled(v.dx, -UNIT_SPEED, pressed), dy: v.dy },
        Key::Down => Velocity { dx: v.dx, dy: settled(v.dy, UNIT_SPEED, pressed) },
        Key::Right => Velocity { dx: settled(v.dx, UNIT_SPEED, pressed), dy: v.dy },
        Key::Shoot => v,
    }
}

/// A steered speed is never more than one unit along either axis, once it was so.
pub proof fn lemma_steer_is_clamped(v: Velocity, key: Key, pressed: bool)
    requires
        -UNIT_SPEED <= v.dx <= UNIT_SPEED,
        -UNIT_SPEED <= v.dy <= UNIT_SPEED,
    ensures
        -UNIT_SPEED <= steer(v, key, pressed).dx <= UNIT_SPEED,
        -UNIT_SPEED <= steer(v, key, pressed).dy <= UNIT_SPEED,
{
}

/// Pressing a key again changes nothing, and releasing the key that was
/// pressed last brings its axis to rest.
pub proof fn lemma_press_then_release(v: Velocity, key: Key)
    ensures
        steer(steer(v, key, true), key, true) == steer(v, key, true),
        key == Key::Left || key == Key::Right ==> steer(steer(v, key, true), key, false).dx == 0,
        key == Key::Up || key == Key::Down ==> steer(steer(v, key, true), key, false).dy == 0,
{
}

impl Game {
    /// Applies a key to every entity tagged as player that holds a velocity;
    /// where there is none, nothing changes. Only velocities change.
    pub fn apply_key(&mut self, key: Key, pressed: bool)
        requires
            old(self).wf(),
        ensures
            final(self).wf(),
            final(self).store.issued() == old(self).store.issued(),
            final(self).store@ == old(self).store@.map_values(
                |b: Bundle| steer_bundle(b, key, pressed),
            ),
            final(self).index == old(self).index,
            final(self).bridge == old(self).bridge,
            final(self).players == old(self).players,
            final(self).mobs == old(self).mobs,
            final(self).bullets == old(self).bullets,
    {
        let q = Query { position: false, velocity: true, shape: false, tagged: Some(Tag::Player) };
        let rows = self.store.query(&q);
        let ghost base = self.store@;
        let ghost f = |b: Bundle| steer_bundle(b, key, pressed);
        proof {
            lemma_query_visits(self.store, q);
        }
        let mut k: usize = 0;
        while k < rows.len()
            invariant
                k <= rows@.len(),
                q == pilot_query(),
                base == old(self).store@,
                forall|b: Bundle| #[trigger] f(b) == steer_bundle(b, key, pressed),
                forall|m: int|
                    0 <= m < rows@.len() ==> {
                        let row = #[trigger] rows@[m];
                        &&& base.contains_key(row.entity)
                        &&& row.bundle == base[row.entity]
                        &&& q.admits(row.bundle)
                    },
                forall|m: int, l: int|
                    0 <= m < l < rows@.len() ==> (#[trigger] rows@[m]).entity != (
                    #[trigger] rows@[l]).entity,
                self.store.wf(),
                self.store.issued() == old(self).store.issued(),
                self.store@ == applied_to_first(base, rows@, k as int, f),
                self.index == old(self).index,
                self.bridge == old(self).bridge,
                self.players == old(self).players,
                self.mobs == old(self).mobs,
                self.bullets == old(self).bullets,
            decreases rows@.len() - k,
        {
            let row = rows[k];
            let v = steered(row.bundle.velocity.unwrap(), key, pressed);
            self.store.write_velocity(row.entity, v);
            k += 1;
        }
    }

    /// On a press, shoots: see `spawn_bullet`. A release does nothing.
    pub fn apply_shoot(&mut self, pressed: bool) -> (r: Result<Option<EntityId>, SimError>)
        requires
            old(self).wf(),
        ensures
            final(self).wf(),
            r is Err <==> pressed && !old(self).has_player(),
            match r {
                Ok(Some(e)) => pressed && spawned(
                    *old(self),
                    *final(self),
                    e,
                    bullet_bundle(old(self).muzzle()),
                    old(self).bullets,
                ),
                Ok(None) => !pressed && *final(self) == *old(self),
                Err(err) => err == SimError::NoPlayer && *final(self) == *old(self),
            },
    {
        if pressed {
            match self.spawn_bullet() {
                Ok(e) => Ok(Some(e)),
                Err(err) => Err(err),
            }
        } else {
            Ok(None)
        }
    }

    /// Applies one input signal: a movement key steers, the shoot key
    /// shoots, a click spawns a mob where it fell. Returns the entity the
    /// signal created, if it created one.
    pub fn handle_event(&mut self, event: &InputEvent) -> (r: Result<Option<EntityId>, SimError>)
        requires
            old(self).wf(),
        ensures
            final(self).wf(),
            match *event {
                InputEvent::Key { key: Key::Shoot, pressed } => {
                    &&& r is Err <==> pressed && !old(self).has_player()
                    &&& match r {
                        Ok(Some(e)) => pressed && spawned(
                            *old(self),
                            *final(self),
                            e,
                            bullet_bundle(old(self).muzzle()),
                            old(self).bullets,
                        ),
                        Ok(None) => !pressed && *final(self) == *old(self),
                        Err(err) => err == SimError::NoPlayer && *final(self) == *old(self),
                    }
                },
                InputEvent::Key { key, pressed } => {
                    &&& r == Ok::<Option<EntityId>, SimError>(None)
                    &&& final(self).store.issued() == old(self).store.issued()
                    &&& final(self).store@ == old(self).store@.map_values(
                        |b: Bundle| steer_bundle(b, key, pressed),
                    )
                    &&& final(self).index == old(self).index
                    &&& final(self).bridge == old(self).bridge
                },
                InputEvent::PointerClick { x, y } => {
                    &&& r is Ok
                    &&& r.unwrap() is Some
                    &&& spawned(
                        *old(self),
                        *final(self),
                        r.unwrap().unwrap(),
                        mob_bundle(Position { x, y }),
                        old(self).mobs,
                    )
                },
            },
    {
        match *event {
            InputEvent::Key { key: Key::Shoot, pressed } => self.apply_shoot(pressed),
            InputEvent::Key { key, pressed } => {
                self.apply_key(key, pressed);
                Ok(None)
            },
            InputEvent::PointerClick { x, y } => Ok(Some(self.spawn_mob(Position::new(x, y)))),
        }
    }
}

} // verus!
