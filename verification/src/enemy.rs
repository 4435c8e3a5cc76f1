//! Enemies: how they enter the world and how they chase the player.

use crate::components::{Collider, Enemy, Health, Velocity};
use crate::geometry::{
    direction, direction_between, displace, displaced, Direction, Position, Size,
};
use crate::timing::{aged, MILLISECOND};
use crate::world::{
    bare_actor, changed_upto, fresh_collider, has_single_player, lemma_changed_step,
    lemma_same_handles_wf, player_index, Actor, ActorView, World, WorldView,
};
use vstd::prelude::*;

verus! {

/// Distance from the player at which enemies enter the world.
pub const PLAYER_RADIUS: u32 = 500_000;

/// Side of an enemy's bounding box.
pub const ENEMY_SIZE: u32 = 112_500;

/// Health of a freshly spawned enemy.
pub const ENEMY_HEALTH: i32 = 1;

/// Time by which the spawn interval shrinks with every enemy.
pub const SPAWN_INTERVAL_STEP: u64 = 25 * MILLISECOND;

/// An enemy as it enters the world at `at`: one hit point, a bounding box
/// and no velocity.
pub open spec fn new_enemy(at: Position) -> ActorView {
    ActorView {
        enemy: Some(Enemy),
        health: Some(Health { hp: ENEMY_HEALTH }),
        collider: Some(fresh_collider(Size { width: ENEMY_SIZE, height: ENEMY_SIZE })),
        velocity: Some(Velocity { x: 0, y: 0 }),
        ..bare_actor(0, at)
    }
}

/// The world after an enemy was asked for in the direction `toward` of the
/// player: it enters on the circle around the player, and the spawn interval
/// shrinks by one step, not below zero. Without a single player nothing
/// changes.
pub open spec fn with_enemy(world: WorldView, toward: Direction) -> WorldView {
    if !has_single_player(world.actors) {
        world
    } else {
        let center = world.actors[player_index(world.actors)].position;
        WorldView {
            enemy_spawn_rate: aged(world.enemy_spawn_rate, SPAWN_INTERVAL_STEP),
            ..world.with_actor(new_enemy(displaced(center, toward, PLAYER_RADIUS)))
        }
    }
}

/// Puts an enemy into the world, on the circle around the player, in the
/// direction `toward` as seen from the player.
pub fn enemy_spawn_system(world: &mut World, toward: Direction)
    ensures
        old(world).wf() ==> final(world).wf(),
        final(world)@ == with_enemy(old(world)@, toward),
{
    match world.single_player() {
        None => {},
        Some(index) => {
            let center = world.actors[index].position;
            let mut actor = Actor::new(displace(center, toward, PLAYER_RADIUS));
            actor.enemy = Some(Enemy);
            actor.health = Some(Health { hp: ENEMY_HEALTH });
            actor.collider = Some(Collider::new(Size { width: ENEMY_SIZE, height: ENEMY_SIZE }));
            actor.velocity = Some(Velocity { x: 0, y: 0 });
            let _ = world.spawn(actor);
            world.enemy_spawn_rate = world.enemy_spawn_rate.saturating_sub(SPAWN_INTERVAL_STEP);
        },
    }
}

/// Speed of an enemy, in thousandths of a unit per second.
pub const ENEMY_SPEED: u64 = 150_000;

/// The enemy `actor` turned towards `target`. An actor that is no enemy or
/// has no velocity stays as it is.
pub open spec fn tracking(actor: ActorView, target: Position) -> ActorView {
    if actor.enemy is Some && actor.velocity is Some {
        let toward = direction_between(actor.position, target);
        ActorView { velocity: Some(Velocity { x: toward.x, y: toward.y }), ..actor }
    } else {
        actor
    }
}

/// The actors after every enemy has turned towards the player. Without a
/// single player nothing changes.
pub open spec fn tracking_all(actors: Seq<ActorView>) -> Seq<ActorView> {
    if has_single_player(actors) {
        Seq::new(
            actors.len(),
            |i: int| tracking(actors[i], actors[player_index(actors)].position),
        )
    } else {
        actors
    }
}

/// Turns the velocity of every enemy towards the player.
pub fn player_tracking_system(world: &mut World)
    ensures
        final(world)@ == (WorldView { actors: tracking_all(old(world)@.actors), ..old(world)@ }),
        old(world).wf() ==> final(world).wf(),
{
    let ghost before = world@.actors;
    match world.single_player() {
        None => {},
        Some(player) => {
            let target = world.actors[player].position;
            let ghost change = |actor: ActorView| tracking(actor, target);
            let count = world.actors.len();
            let mut index: usize = 0;
            while index < count
                invariant
                    index <= count,
                    count == before.len(),
                    world.actors.len() == count,
                    change == (|actor: ActorView| tracking(actor, target)),
                    world@ == (WorldView { actors: world@.actors, ..old(world)@ }),
                    world@.actors == changed_upto(before, change, index as int),
                decreases count - index,
            {
                let ghost prior = world.actors@;
                assert(world@.actors[index as int] == prior[index as int]@);
                if world.actors[index].enemy.is_some() && world.actors[index].velocity.is_some() {
                    let toward = direction(world.actors[index].position, target);
                    world.actors[index].velocity = Some(Velocity { x: toward.x, y: toward.y });
                }
                proof {
                    lemma_changed_step(before, change, index as int, prior, world.actors@);
                }
                index += 1;
            }
            proof {
                assert(world@.actors =~= tracking_all(before));
                if old(world).wf() {
                    lemma_same_handles_wf(old(world)@, world@);
                }
            }
        },
    }
}

/// The way an enemy covers in `delta` nanoseconds, held to the range of
/// `u32`.
pub open spec fn enemy_stride(delta: u64) -> u32 {
    if ENEMY_SPEED * delta / 1_000_000_000 > u32::MAX {
        u32::MAX
    } else {
        (ENEMY_SPEED * delta / 1_000_000_000) as u32
    }
}

/// The enemy `actor` moved along its velocity for `delta` nanoseconds. An
/// actor that is no enemy or has no velocity stays where it is.
pub open spec fn marched(actor: ActorView, delta: u64) -> ActorView {
    match actor.velocity {
        Some(velocity) => if actor.enemy is Some {
            ActorView {
                position: displaced(
                    actor.position,
                    Direction { x: velocity.x, y: velocity.y },
                    enemy_stride(delta),
                ),
                ..actor
            }
        } else {
            actor
        },
        None => actor,
    }
}

/// The actors after every enemy has moved for `delta` nanoseconds.
pub open spec fn marched_all(actors: Seq<ActorView>, delta: u64) -> Seq<ActorView> {
    Seq::new(actors.len(), |i: int| marched(actors[i], delta))
}

/// Moves every enemy along its velocity for `delta` nanoseconds.
pub fn enemy_movement_system(world: &mut World, delta: u64)
    ensures
        final(world)@ == (WorldView {
            actors: marched_all(old(world)@.actors, delta),
            ..old(world)@
        }),
        old(world).wf() ==> final(world).wf(),
{
    let ghost before = world@.actors;
    let ghost change = |actor: ActorView| marched(actor, delta);
    let way: u128 = (ENEMY_SPEED as u128) * (delta as u128) / 1_000_000_000;
    let stride: u32 = if way > u32::MAX as u128 {
        u32::MAX
    } else {
        way as u32
    };
    let count = world.actors.len();
    let mut index: usize = 0;
    while index < count
        invariant
            index <= count,
            count == before.len(),
            world.actors.len() == count,
            stride == enemy_stride(delta),
            change == (|actor: ActorView| marched(actor, delta)),
            world@ == (WorldView { actors: world@.actors, ..old(world)@ }),
            world@.actors == changed_upto(before, change, index as int),
        decreases count - index,
    {
        let ghost prior = world.actors@;
        assert(world@.actors[index as int] == prior[index as int]@);
        match world.actors[index].velocity {
            Some(velocity) => {
                if world.actors[index].enemy.is_some() {
                    world.actors[index].position = displace(
                        world.actors[index].position,
                        Direction { x: velocity.x, y: velocity.y },
                        stride,
                    );
                }
            },
            None => {},
        }
        proof {
            lemma_changed_step(before, change, index as int, prior, world.actors@);
        }
        index += 1;
    }
    proof {
        assert(world@.actors =~= marched_all(before, delta));
        if old(world).wf() {
            lemma_same_handles_wf(old(world)@, world@);
        }
    }
}

} // verus!
