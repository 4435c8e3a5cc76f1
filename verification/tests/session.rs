use combat_core::components::{
    Ability, BigfootState, Cooldowns, GameState, Health, Invulnerability, Line, Player,
    PointMarker,
};
use combat_core::events::Sound;
use combat_core::geometry::{Position, Size};
use combat_core::player::AbilityKeys;
use combat_core::session::{
    cooldown_remaining, player_health, score, spawn_actor, tick, ActorKind, TickInput,
};
use combat_core::boss::spawn_bigfoot;
use combat_core::timing::Countdown;
use combat_core::world::World;

const SECOND: u64 = 1_000_000_000;
const MILLISECOND: u64 = 1_000_000;

fn at(x: i32, y: i32) -> Position {
    Position { x, y }
}

fn side(length: u32) -> Size {
    Size { width: length, height: length }
}

fn idle() -> TickInput {
    TickInput {
        pointer: at(0, 0),
        keys: AbilityKeys { ranged: false, dash: false, attack: false, aoe: false },
    }
}

fn pressing(ability: Ability, pointer: Position) -> TickInput {
    TickInput {
        pointer,
        keys: AbilityKeys {
            ranged: ability == Ability::Ranged,
            dash: ability == Ability::Dash,
            attack: ability == Ability::Attack,
            aoe: ability == Ability::Aoe,
        },
    }
}

#[test]
fn actors_of_every_kind_can_be_spawned() {
    let mut world = World::new();
    let p = spawn_actor(&mut world, ActorKind::Player, at(1, 2), side(3), Some(4)).unwrap();
    let e = spawn_actor(&mut world, ActorKind::Enemy, at(5, 6), side(7), None).unwrap();
    let b = spawn_actor(&mut world, ActorKind::Boss, at(8, 9), side(10), Some(11)).unwrap();
    let a = spawn_actor(&mut world, ActorKind::AttackVolume, at(0, 0), side(1), None).unwrap();
    let m = spawn_actor(&mut world, ActorKind::PointMarker, at(0, 0), side(0), None).unwrap();
    assert_eq!((p, e, b, a, m), (0, 1, 2, 3, 4));
    let actors = &world.actors;
    assert_eq!(actors[0].player, Some(Player));
    assert_eq!(actors[0].health, Some(Health { hp: 4 }));
    assert_eq!(actors[0].cooldowns, Some(Cooldowns::new()));
    assert_eq!(actors[0].position, at(1, 2));
    assert_eq!(actors[0].collider.as_ref().unwrap().size, side(3));
    assert!(actors[1].enemy.is_some());
    assert_eq!(actors[1].health, None);
    let boss = actors[2].bigfoot.unwrap();
    assert_eq!((boss.x, boss.y, boss.health), (8, 9, 11));
    assert_eq!(boss.state, BigfootState::Invulnerable);
    assert_eq!(boss.timer.remaining, 2_500 * MILLISECOND);
    assert_eq!(actors[3].line, Some(Line));
    assert_eq!(actors[3].lifetime.unwrap().timer.remaining, 100 * MILLISECOND);
    assert_eq!(actors[4].point_marker, Some(PointMarker));
    assert_eq!(actors[4].lifetime.unwrap().timer.remaining, 100 * MILLISECOND);
}

#[test]
fn a_full_world_takes_no_more_actors() {
    let mut world = World::new();
    world.next_entity = u64::MAX;
    assert_eq!(spawn_actor(&mut world, ActorKind::Enemy, at(0, 0), side(1), Some(1)), None);
    assert!(world.actors.is_empty());
    assert_eq!(world.next_entity, u64::MAX);
}

#[test]
fn the_accessors_read_the_player() {
    let mut world = World::new();
    assert_eq!(player_health(&world), None);
    assert_eq!(cooldown_remaining(&world, Ability::Dash), None);
    assert_eq!(score(&world), 0);
    spawn_actor(&mut world, ActorKind::Enemy, at(0, 0), side(1), Some(9)).unwrap();
    spawn_actor(&mut world, ActorKind::Player, at(0, 0), side(1), Some(77)).unwrap();
    assert_eq!(player_health(&world), Some(77));
    assert_eq!(cooldown_remaining(&world, Ability::Dash), Some(5 * SECOND));
    assert_eq!(cooldown_remaining(&world, Ability::Aoe), Some(10 * SECOND));
    spawn_actor(&mut world, ActorKind::Player, at(0, 0), side(1), Some(1)).unwrap();
    assert_eq!(player_health(&world), None);
    assert_eq!(cooldown_remaining(&world, Ability::Dash), None);
}

#[test]
fn a_tick_ages_every_countdown_by_the_elapsed_time() {
    let mut world = World::new();
    spawn_actor(&mut world, ActorKind::Player, at(0, 0), side(1), Some(500)).unwrap();
    tick(&mut world, idle(), 250 * MILLISECOND);
    assert_eq!(cooldown_remaining(&world, Ability::Attack), Some(750 * MILLISECOND));
    assert_eq!(cooldown_remaining(&world, Ability::Ranged), Some(2_750 * MILLISECOND));
    assert_eq!(world.timer.0, 250 * MILLISECOND);
    tick(&mut world, idle(), 800 * MILLISECOND);
    assert_eq!(cooldown_remaining(&world, Ability::Attack), Some(0));
    assert_eq!(world.timer.0, 1_050 * MILLISECOND);
}

#[test]
fn nothing_moves_unless_the_game_is_running() {
    let halted = [
        GameState::Menu,
        GameState::Paused,
        GameState::Reset,
        GameState::GameOver,
        GameState::Won,
    ];
    for state in halted {
        let mut world = World::new();
        spawn_actor(&mut world, ActorKind::Player, at(0, 0), side(100_000), Some(500)).unwrap();
        spawn_actor(&mut world, ActorKind::Enemy, at(0, 0), side(100_000), Some(1)).unwrap();
        spawn_actor(&mut world, ActorKind::AttackVolume, at(0, 0), side(100_000), None).unwrap();
        world.state.state = state;
        let report = tick(&mut world, pressing(Ability::Attack, at(5, 5)), 20 * SECOND);
        assert_eq!(report.used, None);
        assert!(report.sounds.is_empty());
        assert!(!report.game_over);
        assert_eq!(world.actors.len(), 3);
        assert_eq!(player_health(&world), Some(500));
        assert_eq!(cooldown_remaining(&world, Ability::Attack), Some(SECOND));
        assert_eq!(world.timer.0, 0);
        assert_eq!(world.state.state, state);
        assert_eq!((world.mouse.x, world.mouse.y), (0, 0));
    }
}

#[test]
fn attack_geometry_acts_in_the_tick_in_which_it_is_spawned() {
    let mut world = World::new();
    spawn_actor(&mut world, ActorKind::Player, at(0, 0), side(1_000), Some(500)).unwrap();
    let foe =
        spawn_actor(&mut world, ActorKind::Enemy, at(600_000, 0), side(112_500), Some(1)).unwrap();
    tick(&mut world, idle(), 3 * SECOND);
    let report = tick(&mut world, pressing(Ability::Ranged, at(10_000, 0)), 16 * MILLISECOND);
    assert_eq!(report.used, Some(Ability::Ranged));
    assert_eq!(report.sounds, vec![Sound::BoneHit]);
    assert_eq!(score(&world), 1);
    assert!(world.actors.iter().all(|actor| actor.entity != foe));
    // The beam landed a strike and is gone with its victim.
    assert_eq!(world.actors.len(), 1);
    assert_eq!((world.mouse.x, world.mouse.y), (10_000, 0));
}

#[test]
fn point_markers_expire_after_their_lifetime() {
    let mut world = World::new();
    spawn_actor(&mut world, ActorKind::Player, at(0, 0), side(1_000), Some(500)).unwrap();
    tick(&mut world, idle(), SECOND);
    tick(&mut world, pressing(Ability::Attack, at(10_000, 0)), 16 * MILLISECOND);
    assert_eq!(world.actors.len(), 551);
    tick(&mut world, idle(), 99 * MILLISECOND);
    assert_eq!(world.actors.len(), 551);
    tick(&mut world, idle(), MILLISECOND);
    assert_eq!(world.actors.len(), 1);
    assert_eq!(world.points.0.len(), 550);
}

#[test]
fn the_dash_shields_the_player_from_contact() {
    let mut world = World::new();
    spawn_actor(&mut world, ActorKind::Player, at(0, 0), side(100_000), Some(500)).unwrap();
    spawn_actor(&mut world, ActorKind::Enemy, at(1_000_000, 0), side(100_000), Some(3)).unwrap();
    tick(&mut world, idle(), 5 * SECOND);
    // Dash right onto the enemy.
    let report = tick(&mut world, pressing(Ability::Dash, at(1_000_000, 0)), 16 * MILLISECOND);
    assert_eq!(report.used, Some(Ability::Dash));
    assert_eq!(player_health(&world), Some(500));
    assert_eq!(world.actors[0].position, at(1_000_000, 0));
    assert_eq!(
        world.actors[0].invulnerability,
        Some(Invulnerability { timer: Countdown { remaining: 500 * MILLISECOND } })
    );
    // The trail struck the enemy once.
    assert_eq!(world.actors[1].health, Some(Health { hp: 2 }));
    tick(&mut world, idle(), 499 * MILLISECOND);
    assert_eq!(player_health(&world), Some(500));
    tick(&mut world, idle(), MILLISECOND);
    assert_eq!(player_health(&world), Some(490));
}

#[test]
fn the_stomp_can_end_the_game() {
    let mut world = World::new();
    // The player stands clear of the boss's box, but within reach of its stomp.
    spawn_actor(&mut world, ActorKind::Player, at(-50_000, 0), side(1_000), Some(500)).unwrap();
    spawn_bigfoot(&mut world);
    let report = tick(&mut world, idle(), 2_499 * MILLISECOND);
    assert!(!report.game_over);
    assert_eq!(player_health(&world), Some(500));
    let report = tick(&mut world, idle(), MILLISECOND);
    assert!(report.game_over);
    assert_eq!(report.sounds, vec![Sound::Stomp, Sound::Death]);
    assert_eq!(world.state.state, GameState::GameOver);
    assert_eq!(player_health(&world), None);
    assert_eq!(world.actors.len(), 1);
    // The game is over for good: further ticks change nothing.
    let timer = world.timer;
    let report = tick(&mut world, idle(), 10 * SECOND);
    assert!(!report.game_over);
    assert_eq!(world.state.state, GameState::GameOver);
    assert_eq!(world.timer, timer);
    assert_eq!(world.actors[0].bigfoot.unwrap().state, BigfootState::Solid);
}

#[test]
fn the_boss_can_be_slain_while_it_is_on_the_ground() {
    let mut world = World::new();
    spawn_actor(&mut world, ActorKind::Player, at(2_000_000, 0), side(1_000), Some(500)).unwrap();
    let boss = spawn_actor(&mut world, ActorKind::Boss, at(0, 0), side(256_000), Some(2)).unwrap();
    spawn_actor(&mut world, ActorKind::PointMarker, at(0, 0), side(0), None).unwrap();
    world.actors[2].lifetime = None;
    tick(&mut world, idle(), 2_000 * MILLISECOND);
    assert_eq!(world.actors[1].bigfoot.unwrap().health, 2);
    tick(&mut world, idle(), 500 * MILLISECOND);
    // The boss landed in this tick, after the collisions were resolved.
    assert_eq!(world.actors[1].bigfoot.unwrap().state, BigfootState::Solid);
    assert_eq!(world.actors[1].bigfoot.unwrap().health, 2);
    tick(&mut world, idle(), 16 * MILLISECOND);
    assert_eq!(world.actors[1].bigfoot.unwrap().health, 1);
    let report = tick(&mut world, idle(), 16 * MILLISECOND);
    assert_eq!(report.sounds, vec![Sound::BoneHit]);
    assert_eq!(score(&world), 1);
    assert!(world.actors.iter().all(|actor| actor.entity != boss));
}
