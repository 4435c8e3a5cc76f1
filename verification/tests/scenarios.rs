use combat_core::components::{Ability, GameState, CONTACT_DAMAGE};
use combat_core::geometry::{Position, Size};
use combat_core::player::AbilityKeys;
use combat_core::session::{
    cooldown_remaining, player_health, score, spawn_actor, tick, ActorKind, TickInput,
};
use combat_core::world::World;

const SECOND: u64 = 1_000_000_000;
const FRAME: u64 = 16_000_000;

fn no_keys() -> AbilityKeys {
    AbilityKeys { ranged: false, dash: false, attack: false, aoe: false }
}

fn box_of(side: u32) -> Size {
    Size { width: side, height: side }
}

#[test]
fn melee_swing_kills_enemy_inside_the_wedge() {
    let mut world = World::new();
    spawn_actor(&mut world, ActorKind::Player, Position { x: 0, y: 0 }, box_of(1_000), Some(500))
        .unwrap();
    let enemy = spawn_actor(
        &mut world,
        ActorKind::Enemy,
        Position { x: 10_000, y: 10_000 },
        box_of(112_500),
        Some(1),
    )
    .unwrap();
    // Let the melee cooldown run out first.
    let idle = TickInput { pointer: Position { x: 100_000, y: 100_000 }, keys: no_keys() };
    tick(&mut world, idle, SECOND);
    assert_eq!(cooldown_remaining(&world, Ability::Attack), Some(0));
    let before = score(&world);
    let swing = TickInput {
        pointer: Position { x: 100_000, y: 100_000 },
        keys: AbilityKeys { attack: true, ..no_keys() },
    };
    let report = tick(&mut world, swing, FRAME);
    assert_eq!(report.used, Some(Ability::Attack));
    assert_eq!(score(&world), before + 1);
    assert!(world.actors.iter().all(|actor| actor.entity != enemy));
    assert_eq!(cooldown_remaining(&world, Ability::Attack), Some(SECOND));
}

#[test]
fn contact_damage_is_taken_once_per_window() {
    let mut world = World::new();
    spawn_actor(&mut world, ActorKind::Player, Position { x: 0, y: 0 }, box_of(112_500), Some(500))
        .unwrap();
    spawn_actor(
        &mut world,
        ActorKind::Enemy,
        Position { x: 20_000, y: 0 },
        box_of(112_500),
        Some(1),
    )
    .unwrap();
    let idle = TickInput { pointer: Position { x: 0, y: 0 }, keys: no_keys() };
    tick(&mut world, idle, FRAME);
    assert_eq!(player_health(&world), Some(500 - CONTACT_DAMAGE));
    // Still touching, still inside the window of half a second: no further loss.
    tick(&mut world, idle, 200_000_000);
    assert_eq!(player_health(&world), Some(500 - CONTACT_DAMAGE));
    tick(&mut world, idle, 200_000_000);
    assert_eq!(player_health(&world), Some(500 - CONTACT_DAMAGE));
    // The window lapses in this tick, and the contact of the same tick hurts again.
    tick(&mut world, idle, 200_000_000);
    assert_eq!(player_health(&world), Some(500 - 2 * CONTACT_DAMAGE));
    assert_eq!(world.state.state, GameState::Running);
}
