use dumb_game::command::{InputEvent, Key, UNIT_SPEED};
use dumb_game::component::{Bundle, Query, Shape, Tag};
use dumb_game::error::SimError;
use dumb_game::game::{
    Drawable, Game, BULLETS, BULLET_RADIUS, BULLET_SPEED, FIRST_MOB_START, MOBS, MOB_DRIFT_X,
    MOB_DRIFT_Y, MOB_HALF_EXTENT, PLAYERS, PLAYER_RADIUS, PLAYER_START,
};
use dumb_game::spatial::{Handle, Transition};
use dumb_game::step::ProximityEvent;
use dumb_game::store::EntityId;
use dumb_game::vector::{Position, Velocity, UNITS_PER_PIXEL};

fn everything() -> Query {
    Query { position: false, velocity: false, shape: false, tagged: None }
}

fn tagged(tag: Tag) -> Query {
    Query { position: false, velocity: false, shape: false, tagged: Some(tag) }
}

#[test]
fn constants_are_the_pixel_values_on_the_grid() {
    assert_eq!(UNITS_PER_PIXEL, 10);
    assert_eq!(PLAYER_START, 200 * UNITS_PER_PIXEL);
    assert_eq!(FIRST_MOB_START, 10 * UNITS_PER_PIXEL);
    assert_eq!(PLAYER_RADIUS as i64, 15 * UNITS_PER_PIXEL);
    assert_eq!(BULLET_RADIUS as i64, 5 * UNITS_PER_PIXEL);
    assert_eq!(MOB_HALF_EXTENT as i64, 10 * UNITS_PER_PIXEL);
    assert_eq!(BULLET_SPEED, 5 * UNITS_PER_PIXEL);
    assert_eq!(UNIT_SPEED, UNITS_PER_PIXEL);
    assert_eq!((MOB_DRIFT_X, MOB_DRIFT_Y), (3, 1));
}

#[test]
fn new_game_holds_the_player_and_one_mob() {
    let game = Game::new();
    let rows = game.store.query(&everything());
    assert_eq!(rows.len(), 2);
    assert_eq!(rows[0].entity, EntityId { index: 0 });
    assert_eq!(
        rows[0].bundle,
        Bundle {
            position: Some(Position::new(2000, 2000)),
            velocity: Some(Velocity::new(0, 0)),
            shape: Some(Shape::Circle { radius: 150 }),
            tag: Some(Tag::Player),
        }
    );
    assert_eq!(rows[1].entity, EntityId { index: 1 });
    assert_eq!(
        rows[1].bundle,
        Bundle {
            position: Some(Position::new(100, 100)),
            velocity: Some(Velocity::new(3, 1)),
            shape: Some(Shape::Box { half_width: 100, half_height: 100 }),
            tag: Some(Tag::Mob),
        }
    );
    assert_eq!(game.bridge.handle_for(EntityId { index: 0 }), Some(Handle { index: 0 }));
    assert_eq!(game.bridge.handle_for(EntityId { index: 1 }), Some(Handle { index: 1 }));
    assert!(game.index.get(Handle { index: 0 }).unwrap().groups.is_member_of(PLAYERS));
    assert!(game.index.get(Handle { index: 1 }).unwrap().groups.is_member_of(MOBS));
    assert!(game.index.get(Handle { index: 2 }).is_none());
}

#[test]
fn scenario_spawn_and_move() {
    let mut game = Game::empty();
    let player = game.spawn_player();
    let before = game.store.get(player).unwrap();
    assert_eq!(before.position, Some(Position::new(2000, 2000)));
    assert_eq!(before.velocity, Some(Velocity::new(0, 0)));

    game.apply_key(Key::Right, true);
    assert_eq!(game.update(), Ok(vec![]));

    let after = game.store.get(player).unwrap();
    assert_eq!(after.position, Some(Position::new(2000 + UNIT_SPEED, 2000)));
    assert_eq!(after.position, Some(Position::new(2010, 2000)));
    assert_eq!(after.velocity, Some(Velocity::new(10, 0)));
    let handle = game.bridge.handle_for(player).unwrap();
    assert_eq!(game.index.get(handle).unwrap().position, Position::new(2010, 2000));
}

#[test]
fn scenario_shoot() {
    let mut game = Game::empty();
    let player = game.spawn_player();
    game.apply_key(Key::Down, true);
    assert_eq!(game.update(), Ok(vec![]));
    let stand = game.store.get(player).unwrap().position.unwrap();
    assert_eq!(stand, Position::new(2000, 2010));
    assert_eq!(game.store.query(&tagged(Tag::Bullet)).len(), 0);

    let shot = game.apply_shoot(true);
    let bullet = shot.unwrap().unwrap();
    assert_eq!(bullet, EntityId { index: 1 });

    let bullets = game.store.query(&tagged(Tag::Bullet));
    assert_eq!(bullets.len(), 1);
    assert_eq!(bullets[0].entity, bullet);
    assert_eq!(
        bullets[0].bundle,
        Bundle {
            position: Some(stand),
            velocity: Some(Velocity::new(50, 0)),
            shape: Some(Shape::Circle { radius: 50 }),
            tag: Some(Tag::Bullet),
        }
    );
    assert_eq!(game.store.query(&everything()).len(), 2);

    let handle = game.bridge.handle_for(bullet).unwrap();
    assert_eq!(game.bridge.entity_for(handle), Some(bullet));
    let placed = game.index.get(handle).unwrap();
    assert_eq!(placed.position, stand);
    assert_eq!(placed.shape, Shape::Circle { radius: 50 });
    assert!(placed.groups.is_member_of(BULLETS));
    assert!(!placed.groups.is_member_of(MOBS));
    assert!(!placed.groups.is_member_of(PLAYERS));
    assert!(placed.groups.is_group_whitelisted(MOBS));
    assert!(!placed.groups.is_group_whitelisted(BULLETS));
}

#[test]
fn release_of_the_shoot_key_does_nothing() {
    let mut game = Game::new();
    assert_eq!(game.apply_shoot(false), Ok(None));
    assert_eq!(game.store.query(&everything()).len(), 2);
}

#[test]
fn scenario_no_player_shoot() {
    let mut game = Game::empty();
    assert_eq!(game.apply_shoot(true), Err(SimError::NoPlayer));
    assert_eq!(game.store.query(&everything()).len(), 0);
    assert!(game.index.get(Handle { index: 0 }).is_none());
    assert_eq!(game.spawn_bullet(), Err(SimError::NoPlayer));
    assert_eq!(
        game.handle_event(&InputEvent::Key { key: Key::Shoot, pressed: true }),
        Err(SimError::NoPlayer)
    );
    assert_eq!(game.store.query(&everything()).len(), 0);

    // A mob alone does not make a player.
    game.spawn_mob(Position::new(0, 0));
    assert_eq!(game.apply_shoot(true), Err(SimError::NoPlayer));
    assert_eq!(game.store.query(&everything()).len(), 1);
}

#[test]
fn scenario_proximity() {
    let mut game = Game::empty();
    let player = game.spawn_player();
    let mob = game.spawn_mob(Position::new(2100, 2000));
    let bullet = game.apply_shoot(true).unwrap().unwrap();
    assert_eq!((player.index, mob.index, bullet.index), (0, 1, 2));

    // The bullet starts inside the player and against the mob; only the mob counts.
    let entered = ProximityEvent { entity_a: mob, entity_b: bullet, state: Transition::Entered };
    assert_eq!(game.update(), Ok(vec![entered]));
    assert_eq!(game.store.get(bullet).unwrap().position, Some(Position::new(2050, 2000)));
    assert_eq!(game.store.get(mob).unwrap().position, Some(Position::new(2103, 2001)));

    // While they stay close nothing is reported.
    for _ in 0..4 {
        assert_eq!(game.update(), Ok(vec![]));
    }
    assert_eq!(game.store.get(bullet).unwrap().position, Some(Position::new(2250, 2000)));
    assert_eq!(game.store.get(mob).unwrap().position, Some(Position::new(2115, 2005)));

    // The tick on which they part reports it, once; later ticks report nothing.
    let exited = ProximityEvent { entity_a: mob, entity_b: bullet, state: Transition::Exited };
    assert_eq!(game.update(), Ok(vec![exited]));
    assert_eq!(game.update(), Ok(vec![]));
    assert_eq!(game.update(), Ok(vec![]));
}

#[test]
fn bullets_do_not_meet_bullets_nor_the_player() {
    let mut game = Game::empty();
    game.spawn_player();
    game.apply_shoot(true).unwrap();
    game.apply_shoot(true).unwrap();
    assert_eq!(game.store.query(&tagged(Tag::Bullet)).len(), 2);
    assert_eq!(game.update(), Ok(vec![]));
}

#[test]
fn mobs_do_not_meet_mobs_nor_the_player() {
    let mut game = Game::empty();
    game.spawn_player();
    game.spawn_mob(Position::new(2000, 2000));
    game.spawn_mob(Position::new(2010, 2010));
    assert_eq!(game.update(), Ok(vec![]));
}

#[test]
fn tick_moves_every_entity_by_its_velocity() {
    let mut game = Game::new();
    let bullet = game.apply_shoot(true).unwrap().unwrap();
    game.apply_key(Key::Up, true);
    game.apply_key(Key::Left, true);
    assert_eq!(game.update(), Ok(vec![]));
    let player = EntityId { index: 0 };
    let mob = EntityId { index: 1 };
    assert_eq!(game.store.get(player).unwrap().position, Some(Position::new(1990, 1990)));
    assert_eq!(game.store.get(mob).unwrap().position, Some(Position::new(103, 101)));
    assert_eq!(game.store.get(bullet).unwrap().position, Some(Position::new(2050, 2000)));
    assert_eq!(game.update(), Ok(vec![]));
    assert_eq!(game.store.get(player).unwrap().position, Some(Position::new(1980, 1980)));
    assert_eq!(game.store.get(mob).unwrap().position, Some(Position::new(106, 102)));
    assert_eq!(game.store.get(bullet).unwrap().position, Some(Position::new(2100, 2000)));
    for e in [player, mob, bullet] {
        let handle = game.bridge.handle_for(e).unwrap();
        assert_eq!(
            Some(game.index.get(handle).unwrap().position),
            game.store.get(e).unwrap().position
        );
    }
}

#[test]
fn tick_fails_whole_when_a_position_would_leave_the_grid() {
    let mut game = Game::new();
    let far = game.spawn_mob(Position::new(i64::MAX - 2, 0));
    assert_eq!(game.update(), Err(SimError::OutOfRange));
    assert_eq!(game.store.get(far).unwrap().position, Some(Position::new(i64::MAX - 2, 0)));
    assert_eq!(
        game.store.get(EntityId { index: 1 }).unwrap().position,
        Some(Position::new(100, 100))
    );
    assert!(game.despawn(far));
    assert_eq!(game.update(), Ok(vec![]));
    assert_eq!(
        game.store.get(EntityId { index: 1 }).unwrap().position,
        Some(Position::new(103, 101))
    );
}

#[test]
fn tick_reaches_the_edge_of_the_grid_exactly() {
    let mut game = Game::empty();
    let edge = game.spawn_mob(Position::new(i64::MAX - 3, i64::MAX - 1));
    assert_eq!(game.update(), Ok(vec![]));
    assert_eq!(game.store.get(edge).unwrap().position, Some(Position::new(i64::MAX, i64::MAX)));
    assert_eq!(game.update(), Err(SimError::OutOfRange));
}

#[test]
fn keys_without_a_player_change_nothing() {
    let mut game = Game::empty();
    let mob = game.spawn_mob(Position::new(5, 5));
    game.apply_key(Key::Right, true);
    game.apply_key(Key::Up, true);
    assert_eq!(game.store.get(mob).unwrap().velocity, Some(Velocity::new(3, 1)));
}

#[test]
fn keys_steer_the_player_only() {
    let mut game = Game::new();
    let player = EntityId { index: 0 };
    let mob = EntityId { index: 1 };
    let velocity = |game: &Game, e: EntityId| game.store.get(e).unwrap().velocity.unwrap();

    game.apply_key(Key::Right, true);
    assert_eq!(velocity(&game, player), Velocity::new(10, 0));
    game.apply_key(Key::Right, true);
    assert_eq!(velocity(&game, player), Velocity::new(10, 0));
    game.apply_key(Key::Up, true);
    assert_eq!(velocity(&game, player), Velocity::new(10, -10));
    game.apply_key(Key::Left, true);
    assert_eq!(velocity(&game, player), Velocity::new(-10, -10));
    game.apply_key(Key::Right, false);
    assert_eq!(velocity(&game, player), Velocity::new(-10, -10));
    game.apply_key(Key::Left, false);
    assert_eq!(velocity(&game, player), Velocity::new(0, -10));
    game.apply_key(Key::Shoot, true);
    assert_eq!(velocity(&game, player), Velocity::new(0, -10));
    game.apply_key(Key::Up, false);
    assert_eq!(velocity(&game, player), Velocity::new(0, 0));
    game.apply_key(Key::Down, true);
    assert_eq!(velocity(&game, player), Velocity::new(0, 10));
    assert_eq!(velocity(&game, mob), Velocity::new(3, 1));
}

#[test]
fn events_dispatch_to_the_commands() {
    let mut game = Game::new();
    let player = EntityId { index: 0 };
    assert_eq!(game.handle_event(&InputEvent::Key { key: Key::Left, pressed: true }), Ok(None));
    assert_eq!(game.store.get(player).unwrap().velocity, Some(Velocity::new(-10, 0)));
    assert_eq!(game.handle_event(&InputEvent::Key { key: Key::Left, pressed: false }), Ok(None));
    assert_eq!(game.store.get(player).unwrap().velocity, Some(Velocity::new(0, 0)));

    let click = game.handle_event(&InputEvent::PointerClick { x: 700, y: -40 });
    let mob = click.unwrap().unwrap();
    assert_eq!(mob, EntityId { index: 2 });
    assert_eq!(
        game.store.get(mob),
        Some(Bundle {
            position: Some(Position::new(700, -40)),
            velocity: Some(Velocity::new(3, 1)),
            shape: Some(Shape::Box { half_width: 100, half_height: 100 }),
            tag: Some(Tag::Mob),
        })
    );
    assert!(game.bridge.handle_for(mob).is_some());

    let shot = game.handle_event(&InputEvent::Key { key: Key::Shoot, pressed: true });
    let bullet = shot.unwrap().unwrap();
    assert_eq!(game.store.get(bullet).unwrap().tag, Some(Tag::Bullet));
    assert_eq!(game.store.get(bullet).unwrap().position, Some(Position::new(2000, 2000)));
    assert_eq!(game.handle_event(&InputEvent::Key { key: Key::Shoot, pressed: false }), Ok(None));
    assert_eq!(game.store.query(&everything()).len(), 4);
}

#[test]
fn scene_lists_players_then_bullets_then_mobs() {
    let mut game = Game::new();
    game.spawn_mob(Position::new(7, 8));
    game.apply_shoot(true).unwrap();
    let scene = game.scene();
    assert_eq!(
        scene,
        vec![
            Drawable {
                position: Position::new(2000, 2000),
                shape: Shape::Circle { radius: 150 },
                tag: Tag::Player,
            },
            Drawable {
                position: Position::new(2000, 2000),
                shape: Shape::Circle { radius: 50 },
                tag: Tag::Bullet,
            },
            Drawable {
                position: Position::new(100, 100),
                shape: Shape::Box { half_width: 100, half_height: 100 },
                tag: Tag::Mob,
            },
            Drawable {
                position: Position::new(7, 8),
                shape: Shape::Box { half_width: 100, half_height: 100 },
                tag: Tag::Mob,
            },
        ]
    );
}

#[test]
fn despawn_clears_store_bridge_and_index() {
    let mut game = Game::empty();
    game.spawn_player();
    let mob = game.spawn_mob(Position::new(2100, 2000));
    let bullet = game.apply_shoot(true).unwrap().unwrap();
    let entered = ProximityEvent { entity_a: mob, entity_b: bullet, state: Transition::Entered };
    assert_eq!(game.update(), Ok(vec![entered]));

    let handle = game.bridge.handle_for(bullet).unwrap();
    assert!(game.despawn(bullet));
    assert_eq!(game.store.get(bullet), None);
    assert_eq!(game.bridge.handle_for(bullet), None);
    assert_eq!(game.bridge.entity_for(handle), None);
    assert!(game.index.get(handle).is_none());
    assert!(!game.despawn(bullet));

    // The pair went with the shape: nothing is left to part.
    assert_eq!(game.update(), Ok(vec![]));

    // A later entity gets a new identity and a new handle.
    let next = game.apply_shoot(true).unwrap().unwrap();
    assert_eq!(next, EntityId { index: 3 });
    assert_eq!(game.bridge.handle_for(next), Some(Handle { index: 3 }));
}

#[test]
fn an_entity_without_a_handle_moves_and_is_skipped_by_the_index() {
    let mut game = Game::new();
    let loose = game.store.insert(Bundle {
        position: Some(Position::new(100, 100)),
        velocity: Some(Velocity::new(-4, 6)),
        shape: Some(Shape::Circle { radius: 500 }),
        tag: Some(Tag::Bullet),
    });
    let still = game.store.insert(Bundle {
        position: Some(Position::new(1, 1)),
        ..Bundle::empty()
    });
    assert_eq!(game.bridge.handle_for(loose), None);
    assert_eq!(game.update(), Ok(vec![]));
    assert_eq!(game.store.get(loose).unwrap().position, Some(Position::new(96, 106)));
    assert_eq!(game.store.get(still).unwrap().position, Some(Position::new(1, 1)));
    assert_eq!(game.bridge.handle_for(loose), None);
    assert!(game.index.get(Handle { index: 2 }).is_none());
}
