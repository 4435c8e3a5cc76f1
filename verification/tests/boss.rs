use combat_core::boss::{spawn_bigfoot, update_bigfoot, update_bigfoot_position};
use combat_core::components::{
    Bigfoot, BigfootState, Collider, Health, Invulnerability, Player, Resettable,
};
use combat_core::events::Sound;
use combat_core::geometry::{Position, Size};
use combat_core::timing::Countdown;
use combat_core::world::{Actor, World};

const MILLISECOND: u64 = 1_000_000;

fn at(x: i32, y: i32) -> Position {
    Position { x, y }
}

fn player(x: i32, y: i32) -> Actor {
    let mut actor = Actor::new(at(x, y));
    actor.player = Some(Player);
    actor.health = Some(Health { hp: 500 });
    actor.collider = Some(Collider::new(Size { width: 112_500, height: 112_500 }));
    actor
}

fn boss_of(world: &World) -> (Position, Bigfoot) {
    let actor = world.actors.iter().find(|actor| actor.bigfoot.is_some()).unwrap();
    (actor.position, actor.bigfoot.unwrap())
}

fn player_hp(world: &World) -> i32 {
    world.actors.iter().find(|actor| actor.player.is_some()).unwrap().health.unwrap().hp
}

#[test]
fn the_boss_enters_beside_the_player() {
    let mut world = World::new();
    world.spawn(player(30_000, -20_000)).unwrap();
    spawn_bigfoot(&mut world);
    assert_eq!(world.actors.len(), 2);
    let boss = &world.actors[1];
    assert_eq!(boss.position, at(100_000, -20_000));
    assert_eq!(boss.bigfoot, Some(Bigfoot::new(30_000, -20_000)));
    assert_eq!(boss.collider.as_ref().unwrap().size, Size { width: 256_000, height: 256_000 });
    assert_eq!(boss.resettable, Some(Resettable));
    assert_eq!(boss.health, None);
}

#[test]
fn there_is_only_one_boss() {
    let mut world = World::new();
    world.spawn(player(0, 0)).unwrap();
    spawn_bigfoot(&mut world);
    spawn_bigfoot(&mut world);
    assert_eq!(world.actors.len(), 2);
}

#[test]
fn the_boss_needs_a_player_to_enter() {
    let mut world = World::new();
    spawn_bigfoot(&mut world);
    assert!(world.actors.is_empty());
}

#[test]
fn the_boss_mirrors_its_position() {
    let mut world = World::new();
    world.spawn(player(30_000, -20_000)).unwrap();
    spawn_bigfoot(&mut world);
    update_bigfoot_position(&mut world);
    let (position, boss) = boss_of(&world);
    assert_eq!(position, at(100_000, -20_000));
    assert_eq!((boss.x, boss.y), (100_000, -20_000));
    assert_eq!(world.actors[0].position, at(30_000, -20_000));
}

#[test]
fn the_boss_lands_when_its_timer_runs_out() {
    let mut world = World::new();
    world.spawn(player(1_000_000, 0)).unwrap();
    spawn_bigfoot(&mut world);
    update_bigfoot_position(&mut world);
    assert!(update_bigfoot(&mut world, 2_499 * MILLISECOND).is_empty());
    let (_, boss) = boss_of(&world);
    assert_eq!(boss.state, BigfootState::Invulnerable);
    assert_eq!(boss.timer.remaining, MILLISECOND);
    let sounds = update_bigfoot(&mut world, MILLISECOND);
    assert_eq!(sounds, vec![Sound::Stomp]);
    let (position, boss) = boss_of(&world);
    assert_eq!(boss.state, BigfootState::Solid);
    assert_eq!(boss.timer.remaining, 5_000 * MILLISECOND);
    assert_eq!(position, at(100_000, 0));
    // The player stood out of reach.
    assert_eq!(player_hp(&world), 500);
}

#[test]
fn the_boss_leaps_to_the_player_when_the_ground_phase_ends() {
    let mut world = World::new();
    world.spawn(player(1_000_000, 0)).unwrap();
    spawn_bigfoot(&mut world);
    update_bigfoot(&mut world, 3_000 * MILLISECOND);
    assert!(update_bigfoot(&mut world, 4_999 * MILLISECOND).is_empty());
    let (position, boss) = boss_of(&world);
    assert_eq!(boss.state, BigfootState::Solid);
    assert_eq!(boss.timer.remaining, MILLISECOND);
    assert_eq!(position, at(100_000, 0));
    world.actors[0].position = at(-7_000, 9_000);
    assert!(update_bigfoot(&mut world, 16 * MILLISECOND).is_empty());
    let (position, boss) = boss_of(&world);
    assert_eq!(boss.state, BigfootState::Invulnerable);
    assert_eq!(boss.timer.remaining, 2_500 * MILLISECOND);
    assert_eq!(position, at(-7_000, 9_000));
    assert_eq!((boss.x, boss.y), (-7_000, 9_000));
    assert_eq!(boss.health, 5);
}

#[test]
fn the_stomp_hurts_a_player_within_reach() {
    let mut world = World::new();
    world.spawn(player(0, 0)).unwrap();
    spawn_bigfoot(&mut world);
    // The boss remembers the player's position as its own: the player stands right under it.
    let sounds = update_bigfoot(&mut world, 2_500 * MILLISECOND);
    assert_eq!(sounds, vec![Sound::Stomp]);
    assert_eq!(player_hp(&world), 0);
}

#[test]
fn the_stomp_reaches_to_the_rim_of_its_radius() {
    for (distance, expected) in [(175_000, 0), (175_001, 500)] {
        let mut world = World::new();
        world.spawn(player(0, 0)).unwrap();
        spawn_bigfoot(&mut world);
        world.actors[1].position = at(distance, 0);
        update_bigfoot_position(&mut world);
        update_bigfoot(&mut world, 2_500 * MILLISECOND);
        assert_eq!(player_hp(&world), expected);
    }
    // 105 and 140 units: exactly 175 units away.
    let mut world = World::new();
    world.spawn(player(105_000, -140_000)).unwrap();
    spawn_bigfoot(&mut world);
    world.actors[1].position = at(0, 0);
    update_bigfoot_position(&mut world);
    update_bigfoot(&mut world, 2_500 * MILLISECOND);
    assert_eq!(player_hp(&world), 0);
}

#[test]
fn the_stomp_spares_an_invulnerable_player() {
    let mut world = World::new();
    let mut shielded = player(0, 0);
    shielded.invulnerability = Some(Invulnerability { timer: Countdown { remaining: 1 } });
    world.spawn(shielded).unwrap();
    spawn_bigfoot(&mut world);
    let sounds = update_bigfoot(&mut world, 2_500 * MILLISECOND);
    assert_eq!(sounds, vec![Sound::Stomp]);
    assert_eq!(player_hp(&world), 500);
    let (_, boss) = boss_of(&world);
    assert_eq!(boss.state, BigfootState::Solid);
}

#[test]
fn a_boss_without_a_player_waits_on_the_ground() {
    let mut world = World::new();
    world.spawn(player(0, 0)).unwrap();
    spawn_bigfoot(&mut world);
    world.actors.remove(0);
    assert_eq!(update_bigfoot(&mut world, 2_500 * MILLISECOND), vec![Sound::Stomp]);
    update_bigfoot(&mut world, 6_000 * MILLISECOND);
    let (position, boss) = boss_of(&world);
    assert_eq!(boss.state, BigfootState::Solid);
    assert_eq!(boss.timer.remaining, 0);
    assert_eq!(position, at(100_000, 0));
    // As soon as a player is back the boss leaps.
    world.spawn(player(5, 6)).unwrap();
    update_bigfoot(&mut world, 0);
    let (position, boss) = boss_of(&world);
    assert_eq!(boss.state, BigfootState::Invulnerable);
    assert_eq!(position, at(5, 6));
}

#[test]
fn the_farewell_phase_changes_nothing() {
    let mut world = World::new();
    world.spawn(player(0, 0)).unwrap();
    spawn_bigfoot(&mut world);
    world.actors[1].bigfoot.as_mut().unwrap().state = BigfootState::Cleanup;
    assert!(update_bigfoot(&mut world, 1_000 * MILLISECOND).is_empty());
    let (_, boss) = boss_of(&world);
    assert_eq!(boss.state, BigfootState::Cleanup);
    assert_eq!(boss.timer.remaining, 1_500 * MILLISECOND);
    assert!(update_bigfoot(&mut world, 10_000 * MILLISECOND).is_empty());
    let (position, boss) = boss_of(&world);
    assert_eq!(boss.state, BigfootState::Cleanup);
    assert_eq!(boss.timer.remaining, 0);
    assert_eq!(position, at(100_000, 0));
    assert_eq!(player_hp(&world), 500);
}

#[test]
fn the_phases_follow_each_other_over_many_small_ticks() {
    let mut world = World::new();
    world.spawn(player(2_000_000, 0)).unwrap();
    spawn_bigfoot(&mut world);
    let frame = 10 * MILLISECOND;
    let mut stomps = 0;
    let mut switches = Vec::new();
    let mut last = BigfootState::Invulnerable;
    for step in 1..=1_500u64 {
        stomps += update_bigfoot(&mut world, frame).len();
        let (_, boss) = boss_of(&world);
        if boss.state != last {
            switches.push((step * 10, boss.state));
            last = boss.state;
        }
    }
    assert_eq!(
        switches,
        vec![
            (2_500, BigfootState::Solid),
            (7_500, BigfootState::Invulnerable),
            (10_000, BigfootState::Solid),
            (15_000, BigfootState::Invulnerable),
        ]
    );
    assert_eq!(stomps, 2);
    let (position, _) = boss_of(&world);
    assert_eq!(position, at(2_000_000, 0));
}
