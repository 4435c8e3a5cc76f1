use combat_core::collision::detect_collisions;
use combat_core::combat::handle_collisions;
use combat_core::components::{
    Bigfoot, BigfootState, Collider, Enemy, Health, Invulnerability, Line, Player, PointMarker,
    Score,
};
use combat_core::events::{CollisionEvent, Sound};
use combat_core::geometry::{Position, Size};
use combat_core::timing::Countdown;
use combat_core::world::{Actor, World};

fn body(x: i32, y: i32, side: u32) -> Actor {
    let mut actor = Actor::new(Position { x, y });
    actor.collider = Some(Collider::new(Size { width: side, height: side }));
    actor
}

fn player(x: i32, y: i32) -> Actor {
    let mut actor = body(x, y, 100_000);
    actor.player = Some(Player);
    actor.health = Some(Health { hp: 500 });
    actor
}

fn enemy(x: i32, y: i32, hp: i32) -> Actor {
    let mut actor = body(x, y, 100_000);
    actor.enemy = Some(Enemy);
    actor.health = Some(Health { hp });
    actor
}

fn line(x: i32, y: i32) -> Actor {
    let mut actor = body(x, y, 100_000);
    actor.line = Some(Line);
    actor
}

fn marker(x: i32, y: i32) -> Actor {
    let mut actor = body(x, y, 0);
    actor.point_marker = Some(PointMarker);
    actor
}

fn boss(x: i32, y: i32, state: BigfootState) -> Actor {
    let mut actor = body(x, y, 256_000);
    let mut bigfoot = Bigfoot::new(x, y);
    bigfoot.state = state;
    actor.bigfoot = Some(bigfoot);
    actor
}

fn window(remaining: u64) -> Option<Invulnerability> {
    Some(Invulnerability { timer: Countdown { remaining } })
}

fn find(world: &World, entity: u64) -> Option<&Actor> {
    world.actors.iter().find(|actor| actor.entity == entity)
}

fn fight(world: &mut World) -> Vec<Sound> {
    let events = detect_collisions(world);
    handle_collisions(world, &events)
}

#[test]
fn enemy_touched_by_two_attack_volumes_dies_once() {
    let mut world = World::new();
    world.score = Score { enemies_killed: 7 };
    let first = world.spawn(line(0, 0)).unwrap();
    let second = world.spawn(line(10_000, 0)).unwrap();
    let victim = world.spawn(enemy(5_000, 0, 1)).unwrap();
    let sounds = fight(&mut world);
    assert_eq!(world.score.enemies_killed, 8);
    assert_eq!(sounds, vec![Sound::BoneHit]);
    assert!(find(&world, victim).is_none());
    // The volume that landed the strike is gone, the other one waits for its lifetime.
    assert!(find(&world, first).is_none());
    assert!(find(&world, second).is_some());
    assert_eq!(world.actors.len(), 1);
}

#[test]
fn a_victim_is_struck_once_however_many_points_touch_it() {
    let mut world = World::new();
    for k in 0..20 {
        world.spawn(marker(k * 100, 0)).unwrap();
    }
    let victim = world.spawn(enemy(0, 0, 3)).unwrap();
    let sounds = fight(&mut world);
    assert_eq!(find(&world, victim).unwrap().health, Some(Health { hp: 2 }));
    assert_eq!(world.score.enemies_killed, 0);
    assert!(sounds.is_empty());
    // Point markers are never despawned by a hit.
    assert_eq!(world.actors.len(), 21);
    // The next tick strikes again, once.
    fight(&mut world);
    assert_eq!(find(&world, victim).unwrap().health, Some(Health { hp: 1 }));
    let sounds = fight(&mut world);
    assert!(find(&world, victim).is_none());
    assert_eq!(world.score.enemies_killed, 1);
    assert_eq!(sounds, vec![Sound::BoneHit]);
}

#[test]
fn one_beam_can_slay_several_enemies() {
    let mut world = World::new();
    let beam = world.spawn(line(0, 0)).unwrap();
    let a = world.spawn(enemy(10_000, 0, 1)).unwrap();
    let b = world.spawn(enemy(-10_000, 0, 1)).unwrap();
    let c = world.spawn(enemy(0, 10_000, 2)).unwrap();
    let sounds = fight(&mut world);
    assert_eq!(world.score.enemies_killed, 2);
    assert_eq!(sounds, vec![Sound::BoneHit, Sound::BoneHit]);
    assert!(find(&world, a).is_none());
    assert!(find(&world, b).is_none());
    assert_eq!(find(&world, c).unwrap().health, Some(Health { hp: 1 }));
    assert!(find(&world, beam).is_none());
}

#[test]
fn an_invulnerable_victim_is_not_struck() {
    let mut world = World::new();
    let beam = world.spawn(line(0, 0)).unwrap();
    let mut shielded = enemy(0, 0, 1);
    shielded.invulnerability = window(1);
    let victim = world.spawn(shielded).unwrap();
    let sounds = fight(&mut world);
    assert_eq!(find(&world, victim).unwrap().health, Some(Health { hp: 1 }));
    assert_eq!(world.score.enemies_killed, 0);
    assert!(sounds.is_empty());
    // A volume that landed nothing stays.
    assert!(find(&world, beam).is_some());
    // Without the window the same overlap applies damage.
    world.actors[1].invulnerability = None;
    fight(&mut world);
    assert!(find(&world, victim).is_none());
    assert_eq!(world.score.enemies_killed, 1);
}

#[test]
fn the_boss_takes_damage_only_on_the_ground() {
    let mut world = World::new();
    let foe = world.spawn(boss(0, 0, BigfootState::Invulnerable)).unwrap();
    world.spawn(marker(0, 0)).unwrap();
    fight(&mut world);
    assert_eq!(find(&world, foe).unwrap().bigfoot.unwrap().health, 5);
    world.actors[0].bigfoot.as_mut().unwrap().state = BigfootState::Cleanup;
    fight(&mut world);
    assert_eq!(find(&world, foe).unwrap().bigfoot.unwrap().health, 5);
    world.actors[0].bigfoot.as_mut().unwrap().state = BigfootState::Solid;
    fight(&mut world);
    assert_eq!(find(&world, foe).unwrap().bigfoot.unwrap().health, 4);
    assert_eq!(world.score.enemies_killed, 0);
}

#[test]
fn the_boss_is_despawned_when_its_health_reaches_zero() {
    let mut world = World::new();
    let mut foe = boss(0, 0, BigfootState::Solid);
    foe.bigfoot.as_mut().unwrap().health = 2;
    let foe = world.spawn(foe).unwrap();
    world.spawn(marker(0, 0)).unwrap();
    let sounds = fight(&mut world);
    assert!(sounds.is_empty());
    assert_eq!(find(&world, foe).unwrap().bigfoot.unwrap().health, 1);
    let sounds = fight(&mut world);
    assert_eq!(sounds, vec![Sound::BoneHit]);
    assert!(find(&world, foe).is_none());
    assert_eq!(world.score.enemies_killed, 1);
}

#[test]
fn contact_hurts_the_player_once_and_shoves_it_away() {
    let mut world = World::new();
    let p = world.spawn(player(0, 0)).unwrap();
    world.spawn(enemy(20_000, 0, 1)).unwrap();
    world.spawn(enemy(0, -30_000, 1)).unwrap();
    let events = detect_collisions(&mut world);
    assert_eq!(events, vec![CollisionEvent::Collision, CollisionEvent::Collision]);
    let sounds = handle_collisions(&mut world, &events);
    assert!(sounds.is_empty());
    let hurt = find(&world, p).unwrap();
    assert_eq!(hurt.health, Some(Health { hp: 490 }));
    assert_eq!(hurt.invulnerability, window(500_000_000));
    // One step away from each enemy: to the left and upwards.
    assert_eq!(hurt.position, Position { x: -4_167, y: 4_167 });
    assert_eq!(world.actors.len(), 3);
}

#[test]
fn contact_spares_an_invulnerable_player() {
    let mut world = World::new();
    let mut shielded = player(0, 0);
    shielded.invulnerability = window(1);
    let p = world.spawn(shielded).unwrap();
    world.spawn(enemy(20_000, 0, 1)).unwrap();
    fight(&mut world);
    let same = find(&world, p).unwrap();
    assert_eq!(same.health, Some(Health { hp: 500 }));
    assert_eq!(same.position, Position { x: 0, y: 0 });
    assert_eq!(same.invulnerability, window(1));
}

#[test]
fn contact_needs_exactly_one_player_with_health() {
    let mut world = World::new();
    let mut bare = player(0, 0);
    bare.health = None;
    let p = world.spawn(bare).unwrap();
    world.spawn(enemy(20_000, 0, 1)).unwrap();
    handle_collisions(&mut world, &vec![CollisionEvent::Collision]);
    assert_eq!(find(&world, p).unwrap().invulnerability, None);
    assert_eq!(find(&world, p).unwrap().position, Position { x: 0, y: 0 });

    let mut crowded = World::new();
    let a = crowded.spawn(player(0, 0)).unwrap();
    let b = crowded.spawn(player(0, 0)).unwrap();
    crowded.spawn(enemy(20_000, 0, 1)).unwrap();
    fight(&mut crowded);
    assert_eq!(find(&crowded, a).unwrap().health, Some(Health { hp: 500 }));
    assert_eq!(find(&crowded, b).unwrap().health, Some(Health { hp: 500 }));
}

#[test]
fn stale_handles_are_skipped() {
    let mut world = World::new();
    let beam = world.spawn(line(0, 0)).unwrap();
    let victim = world.spawn(enemy(0, 0, 1)).unwrap();
    world.actors[0].collider.as_mut().unwrap().collisions = vec![999, victim, 999];
    let events = vec![CollisionEvent::Damage(12345), CollisionEvent::Damage(beam)];
    let sounds = handle_collisions(&mut world, &events);
    assert_eq!(sounds, vec![Sound::BoneHit]);
    assert!(find(&world, victim).is_none());
    assert_eq!(world.score.enemies_killed, 1);
}

#[test]
fn only_attack_geometry_deals_damage() {
    let mut world = World::new();
    let p = world.spawn(player(0, 0)).unwrap();
    let other = world.spawn(enemy(50_000, 0, 1)).unwrap();
    let victim = world.spawn(enemy(0, 0, 1)).unwrap();
    world.actors[0].collider.as_mut().unwrap().collisions = vec![victim];
    world.actors[1].collider.as_mut().unwrap().collisions = vec![victim];
    let events = vec![CollisionEvent::Damage(p), CollisionEvent::Damage(other)];
    handle_collisions(&mut world, &events);
    assert_eq!(find(&world, victim).unwrap().health, Some(Health { hp: 1 }));
}

#[test]
fn victims_without_health_are_skipped() {
    let mut world = World::new();
    world.spawn(marker(0, 0)).unwrap();
    let mut hollow = enemy(0, 0, 1);
    hollow.health = None;
    let victim = world.spawn(hollow).unwrap();
    let sounds = fight(&mut world);
    assert!(sounds.is_empty());
    assert!(find(&world, victim).is_some());
    assert_eq!(world.score.enemies_killed, 0);
}

#[test]
fn strikers_never_hurt_bystanders() {
    let mut world = World::new();
    let p = world.spawn(player(0, 0)).unwrap();
    let beam = world.spawn(line(0, 0)).unwrap();
    world.actors[1].collider.as_mut().unwrap().collisions = vec![p];
    handle_collisions(&mut world, &vec![CollisionEvent::Damage(beam)]);
    assert_eq!(find(&world, p).unwrap().health, Some(Health { hp: 500 }));
    assert!(find(&world, beam).is_some());
}

#[test]
fn the_score_stops_at_its_largest_value() {
    let mut world = World::new();
    world.score = Score { enemies_killed: u32::MAX };
    world.spawn(marker(0, 0)).unwrap();
    let victim = world.spawn(enemy(0, 0, 1)).unwrap();
    fight(&mut world);
    assert!(find(&world, victim).is_none());
    assert_eq!(world.score.enemies_killed, u32::MAX);
}

#[test]
fn resolution_without_events_changes_nothing() {
    let mut world = World::new();
    world.spawn(line(0, 0)).unwrap();
    world.spawn(enemy(0, 0, 1)).unwrap();
    detect_collisions(&mut world);
    let sounds = handle_collisions(&mut world, &Vec::new());
    assert!(sounds.is_empty());
    assert_eq!(world.actors.len(), 2);
    assert_eq!(world.actors[1].health, Some(Health { hp: 1 }));
}
