use combat_core::components::{
    Ability, Bigfoot, Collider, Cooldowns, CurrentGameState, Enemy, GameState, GameTimer, Health,
    Invulnerability, Lifetime, MousePosition, Player, Points, Resettable, Score, Velocity,
};
use combat_core::enemy::{enemy_movement_system, enemy_spawn_system, player_tracking_system};
use combat_core::events::Sound;
use combat_core::geometry::{Direction, Position, Size};
use combat_core::systems::{
    camera_follow_player, clean_dead, handle_escape_pressed, manage_invulnerability, reset_game,
    update_cooldowns, update_lifetime, update_mouse_position, update_timer,
};
use combat_core::timing::Countdown;
use combat_core::world::{Actor, World};

const SECOND: u64 = 1_000_000_000;
const MILLISECOND: u64 = 1_000_000;

fn at(x: i32, y: i32) -> Position {
    Position { x, y }
}

fn player(x: i32, y: i32, hp: i32) -> Actor {
    let mut actor = Actor::new(at(x, y));
    actor.player = Some(Player);
    actor.health = Some(Health { hp });
    actor.cooldowns = Some(Cooldowns::new());
    actor
}

fn enemy(x: i32, y: i32, hp: i32) -> Actor {
    let mut actor = Actor::new(at(x, y));
    actor.enemy = Some(Enemy);
    actor.health = Some(Health { hp });
    actor.velocity = Some(Velocity { x: 0, y: 0 });
    actor
}

fn transient(remaining: u64) -> Actor {
    let mut actor = Actor::new(at(0, 0));
    actor.lifetime = Some(Lifetime { timer: Countdown { remaining } });
    actor
}

fn handles(world: &World) -> Vec<u64> {
    world.actors.iter().map(|actor| actor.entity).collect()
}

#[test]
fn the_survival_time_adds_up() {
    let mut world = World::new();
    update_timer(&mut world, 16 * MILLISECOND);
    update_timer(&mut world, 16 * MILLISECOND);
    assert_eq!(world.timer, GameTimer(32 * MILLISECOND));
    update_timer(&mut world, u64::MAX);
    assert_eq!(world.timer, GameTimer(u64::MAX));
}

#[test]
fn the_pointer_is_stored() {
    let mut world = World::new();
    update_mouse_position(&mut world, at(-3, 9));
    assert_eq!(world.mouse, MousePosition { x: -3, y: 9 });
}

#[test]
fn cooldowns_of_every_actor_age() {
    let mut world = World::new();
    world.spawn(player(0, 0, 500)).unwrap();
    world.spawn(enemy(0, 0, 1)).unwrap();
    world.spawn(player(0, 0, 500)).unwrap();
    update_cooldowns(&mut world, 2 * SECOND);
    for index in [0, 2] {
        let cooldowns = world.actors[index].cooldowns.unwrap();
        assert_eq!(cooldowns.get_cooldown(Ability::Attack), Some(0));
        assert_eq!(cooldowns.get_cooldown(Ability::Ranged), Some(SECOND));
        assert_eq!(cooldowns.get_cooldown(Ability::Dash), Some(3 * SECOND));
        assert_eq!(cooldowns.get_cooldown(Ability::Aoe), Some(8 * SECOND));
    }
    assert_eq!(world.actors[1].cooldowns, None);
}

#[test]
fn a_window_that_has_run_out_is_removed() {
    let mut world = World::new();
    let mut shielded = player(0, 0, 500);
    shielded.invulnerability = Some(Invulnerability { timer: Countdown { remaining: 500 } });
    world.spawn(shielded).unwrap();
    world.spawn(enemy(0, 0, 1)).unwrap();
    manage_invulnerability(&mut world, 499);
    assert_eq!(
        world.actors[0].invulnerability,
        Some(Invulnerability { timer: Countdown { remaining: 1 } })
    );
    manage_invulnerability(&mut world, 1);
    assert_eq!(world.actors[0].invulnerability, None);
    manage_invulnerability(&mut world, 1);
    assert_eq!(world.actors[0].invulnerability, None);
    assert_eq!(world.actors[1].invulnerability, None);
}

#[test]
fn transient_actors_are_despawned_when_their_lifetime_runs_out() {
    let mut world = World::new();
    let short = world.spawn(transient(100)).unwrap();
    let keeper = world.spawn(enemy(0, 0, 1)).unwrap();
    let long = world.spawn(transient(300)).unwrap();
    let exact = world.spawn(transient(200)).unwrap();
    update_lifetime(&mut world, 100);
    assert_eq!(handles(&world), vec![keeper, long, exact]);
    assert_eq!(world.actors[1].lifetime, Some(Lifetime { timer: Countdown { remaining: 200 } }));
    update_lifetime(&mut world, 100);
    assert_eq!(handles(&world), vec![keeper, long]);
    update_lifetime(&mut world, 1_000);
    assert_eq!(handles(&world), vec![keeper]);
    assert!(!handles(&world).contains(&short));
}

#[test]
fn the_dead_are_cleaned_up() {
    let mut world = World::new();
    let alive = world.spawn(enemy(0, 0, 1)).unwrap();
    world.spawn(enemy(0, 0, 0)).unwrap();
    world.spawn(enemy(0, 0, -5)).unwrap();
    let hero = world.spawn(player(0, 0, 1)).unwrap();
    let mut fallen_boss = Actor::new(at(0, 0));
    let mut bigfoot = Bigfoot::new(0, 0);
    bigfoot.health = 0;
    fallen_boss.bigfoot = Some(bigfoot);
    world.spawn(fallen_boss).unwrap();
    let no_health = world.spawn(Actor::new(at(0, 0))).unwrap();
    let sound = clean_dead(&mut world);
    assert_eq!(sound, None);
    assert_eq!(handles(&world), vec![alive, hero, no_health]);
    assert_eq!(world.state.state, GameState::Running);
}

#[test]
fn the_death_of_the_player_ends_the_game() {
    let mut world = World::new();
    world.spawn(enemy(0, 0, 1)).unwrap();
    world.spawn(player(0, 0, 0)).unwrap();
    let sound = clean_dead(&mut world);
    assert_eq!(sound, Some(Sound::Death));
    assert_eq!(world.state.state, GameState::GameOver);
    assert_eq!(world.actors.len(), 1);
    assert!(world.actors[0].player.is_none());
}

#[test]
fn a_restart_clears_the_episode() {
    let mut world = World::new();
    let hero = world.spawn(player(5, 5, 123)).unwrap();
    let mut boss = Actor::new(at(0, 0));
    boss.bigfoot = Some(Bigfoot::new(0, 0));
    boss.resettable = Some(Resettable);
    boss.collider = Some(Collider::new(Size { width: 1, height: 1 }));
    world.spawn(boss).unwrap();
    let foe = world.spawn(enemy(0, 0, 1)).unwrap();
    world.actors[0].cooldowns.as_mut().unwrap().tick(60 * SECOND);
    world.score = Score { enemies_killed: 42 };
    world.timer = GameTimer(99);
    world.points = Points(vec![at(1, 1)]);
    world.enemy_spawn_rate = 7;
    world.state = CurrentGameState { state: GameState::Reset };
    world.mouse = MousePosition { x: 3, y: 4 };
    reset_game(&mut world);
    assert_eq!(handles(&world), vec![hero, foe]);
    assert_eq!(world.actors[0].cooldowns, Some(Cooldowns::new()));
    assert_eq!(world.actors[0].health, Some(Health { hp: 123 }));
    assert_eq!(world.score.enemies_killed, 0);
    assert_eq!(world.timer, GameTimer(0));
    assert!(world.points.0.is_empty());
    assert_eq!(world.enemy_spawn_rate, 2 * SECOND);
    assert_eq!(world.state.state, GameState::Running);
    assert_eq!(world.mouse, MousePosition { x: 3, y: 4 });
    assert_eq!(world.next_entity, 3);
}

#[test]
fn enemies_enter_on_the_circle_around_the_player() {
    let mut world = World::new();
    world.spawn(player(1_000, -1_000, 500)).unwrap();
    enemy_spawn_system(&mut world, Direction { x: 600_000, y: -800_000 });
    assert_eq!(world.actors.len(), 2);
    let foe = &world.actors[1];
    assert_eq!(foe.position, at(1_000 + 300_000, -1_000 - 400_000));
    assert_eq!(foe.enemy, Some(Enemy));
    assert_eq!(foe.health, Some(Health { hp: 1 }));
    assert_eq!(foe.velocity, Some(Velocity { x: 0, y: 0 }));
    assert_eq!(foe.collider.as_ref().unwrap().size, Size { width: 112_500, height: 112_500 });
    assert_eq!(world.enemy_spawn_rate, 2 * SECOND - 25 * MILLISECOND);
    world.enemy_spawn_rate = 10;
    enemy_spawn_system(&mut world, Direction { x: 0, y: 1_000_000 });
    assert_eq!(world.enemy_spawn_rate, 0);
    assert_eq!(world.actors[2].position, at(1_000, 499_000));
}

#[test]
fn enemies_need_a_player_to_enter() {
    let mut world = World::new();
    enemy_spawn_system(&mut world, Direction { x: 1_000_000, y: 0 });
    assert!(world.actors.is_empty());
    assert_eq!(world.enemy_spawn_rate, 2 * SECOND);
}

#[test]
fn enemies_turn_towards_the_player_and_march() {
    let mut world = World::new();
    world.spawn(player(0, 0, 500)).unwrap();
    world.spawn(enemy(-30_000, 40_000, 1)).unwrap();
    let mut still = enemy(10, 10, 1);
    still.velocity = None;
    world.spawn(still).unwrap();
    player_tracking_system(&mut world);
    assert_eq!(world.actors[1].velocity, Some(Velocity { x: 600_000, y: -800_000 }));
    assert_eq!(world.actors[2].velocity, None);
    assert_eq!(world.actors[0].velocity, None);
    // 150 units a second for a tenth of a second: 15 units.
    enemy_movement_system(&mut world, 100 * MILLISECOND);
    assert_eq!(world.actors[1].position, at(-30_000 + 9_000, 40_000 - 12_000));
    assert_eq!(world.actors[2].position, at(10, 10));
    assert_eq!(world.actors[0].position, at(0, 0));
}

#[test]
fn the_camera_is_held_inside_its_range() {
    assert_eq!(camera_follow_player(at(0, 0), 100_000, 100_000), at(0, 0));
    let far = camera_follow_player(at(450_000, -450_000), 100_000, 200_000);
    assert_eq!(far, at(400_000, -300_000));
    let far = camera_follow_player(at(-450_000, 450_000), 100_000, 200_000);
    assert_eq!(far, at(-400_000, 300_000));
    assert_eq!(camera_follow_player(at(399_999, 7), 100_000, 200_000), at(399_999, 7));
}

#[test]
fn a_window_too_large_lets_the_camera_follow_the_player() {
    assert_eq!(camera_follow_player(at(9_000_000, -3), 500_000, 100), at(9_000_000, -3));
    assert_eq!(camera_follow_player(at(9_000_000, -3), 100, 640_000), at(9_000_000, -3));
    assert_eq!(camera_follow_player(at(9_000_000, -3), 499_999, 499_999), at(1, -1));
}

#[test]
fn the_pause_key_switches_between_running_and_paused() {
    assert_eq!(handle_escape_pressed(GameState::Running, true, false), Some(GameState::Paused));
    assert_eq!(handle_escape_pressed(GameState::Paused, true, true), Some(GameState::Running));
    assert_eq!(handle_escape_pressed(GameState::Paused, false, true), Some(GameState::Menu));
    assert_eq!(handle_escape_pressed(GameState::Running, false, true), None);
    assert_eq!(handle_escape_pressed(GameState::GameOver, true, true), None);
    assert_eq!(handle_escape_pressed(GameState::Menu, true, false), None);
    assert_eq!(handle_escape_pressed(GameState::Paused, false, false), None);
}
