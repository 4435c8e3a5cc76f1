//! The boss: its spawn and its timed phases.

use crate::components::{
    clamp_i32, Bigfoot, BigfootState, Collider, Health, Resettable, BOSS_HEALTH,
    BOSS_INVULNERABLE_TIME, BOSS_SOLID_TIME, STOMP_DAMAGE,
};
use crate::events::Sound;
use crate::geometry::{within_radius, Position, Size};
use crate::timing::{aged, Countdown};
use crate::world::{
    bare_actor, fresh_collider, has_single_player, lemma_same_handles_wf, lemma_views_update,
    player_index, Actor, ActorView, World, WorldView,
};
use vstd::prelude::*;

verus! {

/// Side of the boss's bounding box.
pub const BOSS_SIZE: u32 = 256_000;

/// The x coordinate at which the boss enters the world.
pub const BOSS_SPAWN_X: i32 = 100_000;

/// Radius around the boss within which its stomp hurts.
pub const STOMP_RADIUS: u32 = 175_000;

/// Whether some actor is a boss.
pub open spec fn has_boss(actors: Seq<ActorView>) -> bool {
    exists|i: int| 0 <= i < actors.len() && (#[trigger] actors[i]).bigfoot is Some
}

/// The boss as it enters the world when the player stands at `player`: it
/// starts its invulnerable phase with full health, remembers the player's
/// position as its own, and is removed when the episode restarts.
pub open spec fn new_boss(player: Position) -> ActorView {
    ActorView {
        bigfoot: Some(
            Bigfoot {
                x: player.x,
                y: player.y,
                state: BigfootState::Invulnerable,
                timer: Countdown { remaining: BOSS_INVULNERABLE_TIME },
                health: BOSS_HEALTH,
            },
        ),
        collider: Some(fresh_collider(Size { width: BOSS_SIZE, height: BOSS_SIZE })),
        resettable: Some(Resettable),
        ..bare_actor(0, Position { x: BOSS_SPAWN_X, y: player.y })
    }
}

/// The world after the boss was asked for: it enters unless there is a boss
/// already or no single player to spawn it for.
pub open spec fn with_boss(world: WorldView) -> WorldView {
    if has_boss(world.actors) || !has_single_player(world.actors) {
        world
    } else {
        world.with_actor(new_boss(world.actors[player_index(world.actors)].position))
    }
}

/// Decides whether some actor is a boss.
fn boss_present(world: &World) -> (present: bool)
    ensures
        present == has_boss(world@.actors),
{
    let mut index: usize = 0;
    while index < world.actors.len()
        invariant
            index <= world.actors.len(),
            forall|j: int| 0 <= j < index ==> (#[trigger] world@.actors[j]).bigfoot is None,
        decreases world.actors.len() - index,
    {
        if world.actors[index].bigfoot.is_some() {
            assert(world@.actors[index as int].bigfoot is Some);
            return true;
        }
        index += 1;
    }
    false
}

/// Puts the boss into the world, unless there is one already or there is no
/// single player.
pub fn spawn_bigfoot(world: &mut World)
    ensures
        old(world).wf() ==> final(world).wf(),
        final(world)@ == with_boss(old(world)@),
{
    if boss_present(world) {
        return ;
    }
    match world.single_player() {
        None => {},
        Some(index) => {
            let at = world.actors[index].position;
            let mut actor = Actor::new(Position { x: BOSS_SPAWN_X, y: at.y });
            actor.bigfoot = Some(Bigfoot::new(at.x, at.y));
            actor.collider = Some(Collider::new(Size { width: BOSS_SIZE, height: BOSS_SIZE }));
            actor.resettable = Some(Resettable);
            let _ = world.spawn(actor);
        },
    }
}

/// The actor with its position mirrored into its boss state.
pub open spec fn mirrored(actor: ActorView) -> ActorView {
    match actor.bigfoot {
        Some(boss) => ActorView {
            bigfoot: Some(Bigfoot { x: actor.position.x, y: actor.position.y, ..boss }),
            ..actor
        },
        None => actor,
    }
}

/// The actors with every boss's position mirrored into its boss state.
pub open spec fn mirrored_all(actors: Seq<ActorView>) -> Seq<ActorView> {
    Seq::new(actors.len(), |i: int| mirrored(actors[i]))
}

/// Mirrors the position of every boss into its boss state.
pub fn update_bigfoot_position(world: &mut World)
    ensures
        final(world)@ == (WorldView { actors: mirrored_all(old(world)@.actors), ..old(world)@ }),
        old(world).wf() ==> final(world).wf(),
{
    let ghost before = world@.actors;
    let count = world.actors.len();
    let mut index: usize = 0;
    while index < count
        invariant
            index <= count,
            count == before.len(),
            world.actors.len() == count,
            world@ == (WorldView { actors: world@.actors, ..old(world)@ }),
            forall|j: int| 0 <= j < index ==> (#[trigger] world@.actors[j]) == mirrored(before[j]),
            forall|j: int| index <= j < count ==> (#[trigger] world@.actors[j]) == before[j],
        decreases count - index,
    {
        let ghost prior = world.actors@;
        let ghost views = world@.actors;
        assert(views[index as int] == prior[index as int]@);
        let at = world.actors[index].position;
        match &mut world.actors[index].bigfoot {
            Some(boss) => {
                boss.x = at.x;
                boss.y = at.y;
            },
            None => {},
        }
        proof {
            lemma_views_update(prior, world.actors@, index as int);
        }
        index += 1;
    }
    proof {
        assert(world@.actors =~= mirrored_all(before));
        if old(world).wf() {
            lemma_same_handles_wf(old(world)@, world@);
        }
    }
}

/// Whether `target` lies within the stomp radius of `center`.
pub open spec fn in_stomp_reach(center: Position, target: Position) -> bool {
    (target.x - center.x) * (target.x - center.x) + (target.y - center.y) * (target.y
        - center.y) <= STOMP_RADIUS * STOMP_RADIUS
}

/// The actors after a stomp at `at`: the player, if there is exactly one,
/// loses the stomp damage when it stands within reach, has health and holds
/// no invulnerability window.
pub open spec fn stomped(actors: Seq<ActorView>, at: Position) -> Seq<ActorView> {
    if !has_single_player(actors) {
        actors
    } else {
        let p = player_index(actors);
        let player = actors[p];
        if in_stomp_reach(at, player.position) && player.invulnerability is None
            && player.health is Some {
            actors.update(
                p,
                ActorView {
                    health: Some(Health { hp: clamp_i32(player.health->0.hp - STOMP_DAMAGE) }),
                    ..player
                },
            )
        } else {
            actors
        }
    }
}

/// Whether the actor is a boss that is driven by the phase machine: it has
/// a boss state and is not the player.
pub open spec fn is_boss(actor: ActorView) -> bool {
    actor.bigfoot is Some && actor.player is None
}

/// Whether the timer of the boss runs out within `delta` nanoseconds.
pub open spec fn phase_ends(boss: Bigfoot, delta: u64) -> bool {
    aged(boss.timer.remaining, delta) == 0
}

/// Whether the actor is a boss that lands within `delta` nanoseconds: its
/// invulnerable phase ends.
pub open spec fn lands(actor: ActorView, delta: u64) -> bool {
    is_boss(actor) && actor.bigfoot->0.state == BigfootState::Invulnerable && phase_ends(
        actor.bigfoot->0,
        delta,
    )
}

/// The boss `actor` with `left` nanoseconds on its timer.
pub open spec fn waiting(actor: ActorView, left: u64) -> ActorView {
    ActorView {
        bigfoot: Some(Bigfoot { timer: Countdown { remaining: left }, ..actor.bigfoot->0 }),
        ..actor
    }
}

/// The boss after it has landed: vulnerable for the length of the
/// vulnerable phase.
pub open spec fn landed(actor: ActorView) -> ActorView {
    ActorView {
        bigfoot: Some(
            Bigfoot {
                state: BigfootState::Solid,
                timer: Countdown { remaining: BOSS_SOLID_TIME },
                ..actor.bigfoot->0
            },
        ),
        ..actor
    }
}

/// The boss after it has leapt to `target`: it stands there, invulnerable
/// for the length of the invulnerable phase.
pub open spec fn leapt(actor: ActorView, target: Position) -> ActorView {
    ActorView {
        position: target,
        bigfoot: Some(
            Bigfoot {
                x: target.x,
                y: target.y,
                state: BigfootState::Invulnerable,
                timer: Countdown { remaining: BOSS_INVULNERABLE_TIME },
                ..actor.bigfoot->0
            },
        ),
        ..actor
    }
}

/// The actors after `delta` nanoseconds have passed for the actor at
/// `index`, if it is a boss.
///
/// While its timer has not run out the boss only waits. When the
/// invulnerable phase ends it lands: it turns vulnerable and stomps at the
/// position it remembers. When the vulnerable phase ends it leaps to the
/// player and turns invulnerable again; without a single player it waits on.
/// A boss in the farewell phase only waits.
pub open spec fn advance_boss(actors: Seq<ActorView>, index: int, delta: u64) -> Seq<ActorView> {
    let actor = actors[index];
    if !is_boss(actor) {
        actors
    } else {
        let boss = actor.bigfoot->0;
        let left = aged(boss.timer.remaining, delta);
        if left > 0 {
            actors.update(index, waiting(actor, left))
        } else {
            match boss.state {
                BigfootState::Invulnerable => stomped(
                    actors.update(index, landed(actor)),
                    Position { x: boss.x, y: boss.y },
                ),
                BigfootState::Solid => if has_single_player(actors) {
                    actors.update(index, leapt(actor, actors[player_index(actors)].position))
                } else {
                    actors.update(index, waiting(actor, 0))
                },
                BigfootState::Cleanup => actors.update(index, waiting(actor, 0)),
            }
        }
    }
}

/// The actors after `delta` nanoseconds have passed for the first `count`
/// of them, one after the other.
pub open spec fn advance_bosses(actors: Seq<ActorView>, delta: u64, count: nat) -> Seq<ActorView>
    decreases count,
{
    if count == 0 {
        actors
    } else {
        advance_boss(advance_bosses(actors, delta, (count - 1) as nat), count - 1, delta)
    }
}

/// The sounds asked for while `delta` nanoseconds pass for the first `count`
/// actors: a stomp for every boss that lands.
pub open spec fn stomp_sounds(actors: Seq<ActorView>, delta: u64, count: nat) -> Seq<Sound>
    decreases count,
{
    if count == 0 {
        Seq::empty()
    } else {
        let sounds = stomp_sounds(actors, delta, (count - 1) as nat);
        if lands(advance_bosses(actors, delta, (count - 1) as nat)[count - 1], delta) {
            sounds.push(Sound::Stomp)
        } else {
            sounds
        }
    }
}

/// Whether two sequences of actors agree, actor by actor, on the handle.
pub open spec fn same_handles(a: Seq<ActorView>, b: Seq<ActorView>) -> bool {
    &&& a.len() == b.len()
    &&& forall|i: int| 0 <= i < a.len() ==> (#[trigger] a[i]).entity == b[i].entity
}

/// A step of the phase machine keeps every actor's handle.
pub proof fn lemma_advance_keeps_handles(actors: Seq<ActorView>, index: int, delta: u64)
    requires
        0 <= index < actors.len(),
    ensures
        same_handles(advance_boss(actors, index, delta), actors),
{
}

/// Lets the player take the stomp of a boss that has landed at `at`.
fn stomp(world: &mut World, at: Position)
    ensures
        final(world)@ == (WorldView { actors: stomped(old(world)@.actors, at), ..old(world)@ }),
{
    match world.single_player() {
        None => {},
        Some(p) => {
            let player = &world.actors[p];
            if player.invulnerability.is_some() || !within_radius(
                at,
                player.position,
                STOMP_RADIUS,
            ) {
                return ;
            }
            match player.health {
                None => {},
                Some(health) => {
                    let mut health = health;
                    health.take_damage(STOMP_DAMAGE);
                    let ghost prior = world.actors@;
                    world.actors[p].health = Some(health);
                    proof {
                        lemma_views_update(prior, world.actors@, p as int);
                    }
                },
            }
        },
    }
}

/// Advances the phase machine of every boss by `delta` nanoseconds.
///
/// A boss starts invulnerable. When its timer runs out it lands, turns
/// vulnerable and stomps; when the timer of the vulnerable phase runs out it
/// leaps to the player and turns invulnerable again. Returns the sounds
/// asked for: a stomp for every landing.
pub fn update_bigfoot(world: &mut World, delta: u64) -> (sounds: Vec<Sound>)
    ensures
        final(world)@ == (WorldView {
            actors: advance_bosses(old(world)@.actors, delta, old(world)@.actors.len()),
            ..old(world)@
        }),
        sounds@ == stomp_sounds(old(world)@.actors, delta, old(world)@.actors.len()),
        old(world).wf() ==> final(world).wf(),
{
    let ghost before = world@.actors;
    let count = world.actors.len();
    let mut sounds: Vec<Sound> = Vec::new();
    let mut index: usize = 0;
    while index < count
        invariant
            index <= count,
            count == before.len(),
            world.actors.len() == count,
            world@ == (WorldView { actors: world@.actors, ..old(world)@ }),
            world@.actors == advance_bosses(before, delta, index as nat),
            same_handles(world@.actors, before),
            sounds@ == stomp_sounds(before, delta, index as nat),
        decreases count - index,
    {
        let ghost reached = world@.actors;
        proof {
            lemma_advance_keeps_handles(reached, index as int, delta);
        }
        let is_player = world.actors[index].player.is_some();
        match world.actors[index].bigfoot {
            None => {},
            Some(boss) => {
                if !is_player {
                    let ghost prior = world.actors@;
                    let mut boss = boss;
                    boss.timer.tick(delta);
                    if !boss.timer.finished() {
                        world.actors[index].bigfoot = Some(boss);
                        proof {
                            lemma_views_update(prior, world.actors@, index as int);
                        }
                    } else {
                        match boss.state {
                            BigfootState::Invulnerable => {
                                boss.state = BigfootState::Solid;
                                boss.timer = Countdown::new(BOSS_SOLID_TIME);
                                world.actors[index].bigfoot = Some(boss);
                                proof {
                                    lemma_views_update(prior, world.actors@, index as int);
                                }
                                stomp(world, Position { x: boss.x, y: boss.y });
                                sounds.push(Sound::Stomp);
                            },
                            BigfootState::Solid => {
                                match world.single_player() {
                                    Some(p) => {
                                        let target = world.actors[p].position;
                                        boss.x = target.x;
                                        boss.y = target.y;
                                        boss.state = BigfootState::Invulnerable;
                                        boss.timer = Countdown::new(BOSS_INVULNERABLE_TIME);
                                        world.actors[index].bigfoot = Some(boss);
                                        world.actors[index].position = target;
                                        proof {
                                            lemma_views_update(prior, world.actors@, index as int);
                                        }
                                    },
                                    None => {
                                        world.actors[index].bigfoot = Some(boss);
                                        proof {
                                            lemma_views_update(prior, world.actors@, index as int);
                                        }
                                    },
                                }
                            },
                            BigfootState::Cleanup => {
                                world.actors[index].bigfoot = Some(boss);
                                proof {
                                    lemma_views_update(prior, world.actors@, index as int);
                                }
                            },
                        }
                    }
                }
            },
        }
        index += 1;
    }
    proof {
        if old(world).wf() {
            lemma_same_handles_wf(old(world)@, world@);
        }
    }
    sounds
}

} // verus!
