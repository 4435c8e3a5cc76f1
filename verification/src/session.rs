//! The session as seen from outside: spawning actors, advancing the world by
//! one tick and reading what the interface shows.

use crate::boss::{
    advance_bosses, mirrored_all, stomp_sounds, update_bigfoot, update_bigfoot_position,
};
use crate::collision::{collision_events, detect_collisions, detected};
use crate::combat::{begin, handle_collisions, resolve_events, resolved_world};
use crate::components::{
    Ability, Bigfoot, BigfootState, Collider, Cooldowns, Enemy, GameState, Health, Lifetime,
    Line, MousePosition, Player, PointMarker, Resettable, Velocity, ATTACK_LIFETIME,
    BOSS_HEALTH, BOSS_INVULNERABLE_TIME,
};
use crate::events::Sound;
use crate::geometry::{Position, Size};
use crate::player::{ability_system, after_abilities, served, AbilityKeys};
use crate::systems::{
    clean_dead, cleaned, cooled_all, manage_invulnerability, outlasting, player_fell,
    timer_after, unshielded_all, update_cooldowns, update_lifetime, update_mouse_position,
    update_timer,
};
use crate::timing::Countdown;
use crate::world::{
    bare_actor, fresh_collider, has_single_player, player_index, Actor, ActorView, World,
    WorldView,
};
use vstd::prelude::*;

verus! {

/// The kinds of actors that can be asked for.
#[derive(Clone, Copy, Debug, PartialEq, Eq, Structural)]
pub enum ActorKind {
    Player,
    Enemy,
    Boss,
    AttackVolume,
    PointMarker,
}

/// The health component for an optional number of hit points.
pub open spec fn health_of(health: Option<i32>) -> Option<Health> {
    match health {
        Some(hp) => Some(Health { hp }),
        None => None,
    }
}

/// An actor of the given kind as it enters the world.
///
/// Every kind has a bounding box of the given size. The player and enemies
/// carry the given health and stand still; the player also tracks
/// cooldowns. The boss starts its invulnerable phase; the given health is
/// the health of its boss state, and without one it has the health of a
/// freshly spawned boss. Attack volumes and point markers carry the given
/// health and live for the attack lifetime.
pub open spec fn actor_of(kind: ActorKind, position: Position, size: Size, health: Option<i32>)
    -> ActorView {
    let body = ActorView { collider: Some(fresh_collider(size)), ..bare_actor(0, position) };
    match kind {
        ActorKind::Player => ActorView {
            player: Some(Player),
            health: health_of(health),
            velocity: Some(Velocity { x: 0, y: 0 }),
            cooldowns: Some(Cooldowns::full()),
            ..body
        },
        ActorKind::Enemy => ActorView {
            enemy: Some(Enemy),
            health: health_of(health),
            velocity: Some(Velocity { x: 0, y: 0 }),
            ..body
        },
        ActorKind::Boss => ActorView {
            bigfoot: Some(
                Bigfoot {
                    x: position.x,
                    y: position.y,
                    state: BigfootState::Invulnerable,
                    timer: Countdown { remaining: BOSS_INVULNERABLE_TIME },
                    health: match health {
                        Some(hp) => hp,
                        None => BOSS_HEALTH,
                    },
                },
            ),
            resettable: Some(Resettable),
            ..body
        },
        ActorKind::AttackVolume => ActorView {
            line: Some(Line),
            health: health_of(health),
            lifetime: Some(Lifetime { timer: Countdown { remaining: ATTACK_LIFETIME } }),
            ..body
        },
        ActorKind::PointMarker => ActorView {
            point_marker: Some(PointMarker),
            health: health_of(health),
            lifetime: Some(Lifetime { timer: Countdown { remaining: ATTACK_LIFETIME } }),
            ..body
        },
    }
}

/// Puts an actor of the given kind into the world and returns its handle.
/// A world that has no handle left stays as it is.
pub fn spawn_actor(
    world: &mut World,
    kind: ActorKind,
    position: Position,
    size: Size,
    health: Option<i32>,
) -> (handle: Option<u64>)
    ensures
        old(world).wf() ==> final(world).wf(),
        final(world)@ == old(world)@.with_actor(actor_of(kind, position, size, health)),
        handle == (if old(world).next_entity < u64::MAX {
            Some(old(world).next_entity)
        } else {
            None
        }),
{
    let mut actor = Actor::new(position);
    actor.collider = Some(Collider::new(size));
    let hit_points = match health {
        Some(hp) => Some(Health { hp }),
        None => None,
    };
    match kind {
        ActorKind::Player => {
            actor.player = Some(Player);
            actor.health = hit_points;
            actor.velocity = Some(Velocity { x: 0, y: 0 });
            actor.cooldowns = Some(Cooldowns::new());
        },
        ActorKind::Enemy => {
            actor.enemy = Some(Enemy);
            actor.health = hit_points;
            actor.velocity = Some(Velocity { x: 0, y: 0 });
        },
        ActorKind::Boss => {
            let mut boss = Bigfoot::new(position.x, position.y);
            boss.health = match health {
                Some(hp) => hp,
                None => BOSS_HEALTH,
            };
            actor.bigfoot = Some(boss);
            actor.resettable = Some(Resettable);
        },
        ActorKind::AttackVolume => {
            actor.line = Some(Line);
            actor.health = hit_points;
            actor.lifetime = Some(Lifetime { timer: Countdown::new(ATTACK_LIFETIME) });
        },
        ActorKind::PointMarker => {
            actor.point_marker = Some(PointMarker);
            actor.health = hit_points;
            actor.lifetime = Some(Lifetime { timer: Countdown::new(ATTACK_LIFETIME) });
        },
    }
    world.spawn(actor)
}

/// The health of the player: that of the only actor with the player tag, if
/// it has health.
pub open spec fn spec_player_health(world: WorldView) -> Option<i32> {
    if has_single_player(world.actors) {
        match world.actors[player_index(world.actors)].health {
            Some(health) => Some(health.hp),
            None => None,
        }
    } else {
        None
    }
}

/// Reads the health of the player.
pub fn player_health(world: &World) -> (hp: Option<i32>)
    ensures
        hp == spec_player_health(world@),
{
    match world.single_player() {
        None => None,
        Some(index) => {
            match world.actors[index].health {
                Some(health) => Some(health.hp),
                None => None,
            }
        },
    }
}

/// Reads the number of kills of the episode.
pub fn score(world: &World) -> (killed: u32)
    ensures
        killed == world@.score.enemies_killed,
{
    world.score.get_enemies_killed()
}

/// The time left before the player can use `ability` again: that of the
/// only actor with the player tag, if it tracks cooldowns.
pub open spec fn spec_cooldown_remaining(world: WorldView, ability: Ability) -> Option<u64> {
    if has_single_player(world.actors) {
        match world.actors[player_index(world.actors)].cooldowns {
            Some(cooldowns) => Some(cooldowns.remaining(ability)),
            None => None,
        }
    } else {
        None
    }
}

/// Reads the time left before the player can use `ability` again.
pub fn cooldown_remaining(world: &World, ability: Ability) -> (left: Option<u64>)
    ensures
        left == spec_cooldown_remaining(world@, ability),
{
    match world.single_player() {
        None => None,
        Some(index) => {
            match &world.actors[index].cooldowns {
                Some(cooldowns) => cooldowns.get_cooldown(ability),
                None => None,
            }
        },
    }
}

/// What the outside feeds into a tick: where the pointer is and which
/// ability keys went down.
#[derive(Clone, Copy, Debug, PartialEq, Eq, Structural)]
pub struct TickInput {
    pub pointer: Position,
    pub keys: AbilityKeys,
}

/// What a tick hands back: the ability that was used, the sounds asked for
/// and whether the game ended in this tick.
#[derive(Debug)]
pub struct TickReport {
    pub used: Option<Ability>,
    pub sounds: Vec<Sound>,
    pub game_over: bool,
}

/// The world after cooldowns, invulnerability windows and lifetimes have
/// aged by `delta` nanoseconds.
pub open spec fn aged_world(world: WorldView, delta: u64) -> WorldView {
    WorldView {
        timer: timer_after(world.timer, delta),
        actors: outlasting(unshielded_all(cooled_all(world.actors, delta), delta), delta),
        ..world
    }
}

/// The world after the pointer was stored and the abilities dispatched.
pub open spec fn dispatched(world: WorldView, input: TickInput) -> WorldView {
    after_abilities(
        WorldView { mouse: MousePosition { x: input.pointer.x, y: input.pointer.y }, ..world },
        input.keys,
    )
}

/// The ability used in a tick that starts after ageing in `world`.
pub open spec fn dispatched_ability(world: WorldView, input: TickInput) -> Option<Ability> {
    served(
        WorldView { mouse: MousePosition { x: input.pointer.x, y: input.pointer.y }, ..world },
        input.keys,
    )
}

/// The world after collisions were detected and resolved.
pub open spec fn fought(world: WorldView) -> WorldView {
    resolved_world(
        WorldView { actors: detected(world.actors), ..world },
        collision_events(world.actors, world.actors.len()),
    )
}

/// The sounds asked for while the collisions of `world` are resolved.
pub open spec fn fight_sounds(world: WorldView) -> Seq<Sound> {
    let events = collision_events(world.actors, world.actors.len());
    resolve_events(
        begin(WorldView { actors: detected(world.actors), ..world }),
        events,
        events.len(),
    ).sounds
}

/// The world after every boss has mirrored its position and its phase
/// machine has advanced by `delta` nanoseconds.
pub open spec fn boss_moved(world: WorldView, delta: u64) -> WorldView {
    let mirrored = mirrored_all(world.actors);
    WorldView { actors: advance_bosses(mirrored, delta, mirrored.len()), ..world }
}

/// The world in which the tick of `world` resolves its collisions.
pub open spec fn before_fight(world: WorldView, input: TickInput, delta: u64) -> WorldView {
    dispatched(aged_world(world, delta), input)
}

/// The world in which the tick of `world` cleans up the dead.
pub open spec fn before_cleanup(world: WorldView, input: TickInput, delta: u64) -> WorldView {
    boss_moved(fought(before_fight(world, input, delta)), delta)
}

/// The world one tick of `delta` nanoseconds later.
///
/// A world that is not running stays as it is. Otherwise the phases follow
/// each other: ageing, dispatch of abilities, detection and resolution of
/// collisions, the boss, and the cleaning up of the dead.
pub open spec fn after_tick(world: WorldView, input: TickInput, delta: u64) -> WorldView {
    if world.state.state != GameState::Running {
        world
    } else {
        cleaned(before_cleanup(world, input, delta))
    }
}

/// The sounds asked for by one tick: those of the resolution, then the
/// stomps, then the death of the player.
pub open spec fn tick_sounds(world: WorldView, input: TickInput, delta: u64) -> Seq<Sound> {
    if world.state.state != GameState::Running {
        Seq::empty()
    } else {
        let fight = before_fight(world, input, delta);
        let mirrored = mirrored_all(fought(fight).actors);
        let sounds = fight_sounds(fight) + stomp_sounds(mirrored, delta, mirrored.len());
        if player_fell(before_cleanup(world, input, delta).actors) {
            sounds.push(Sound::Death)
        } else {
            sounds
        }
    }
}

/// Advances the world by one tick of `delta` nanoseconds.
///
/// Nothing moves unless the game is running, so that a game that is over
/// stays over and a paused game keeps every countdown where it was.
pub fn tick(world: &mut World, input: TickInput, delta: u64) -> (report: TickReport)
    ensures
        old(world).wf() ==> final(world).wf(),
        final(world)@ == after_tick(old(world)@, input, delta),
        report.sounds@ == tick_sounds(old(world)@, input, delta),
        report.used == (if old(world)@.state.state == GameState::Running {
            dispatched_ability(aged_world(old(world)@, delta), input)
        } else {
            None
        }),
        report.game_over == (old(world)@.state.state == GameState::Running && player_fell(
            before_cleanup(old(world)@, input, delta).actors,
        )),
{
    if world.state.state != GameState::Running {
        return TickReport { used: None, sounds: Vec::new(), game_over: false };
    }
    update_timer(world, delta);
    update_cooldowns(world, delta);
    manage_invulnerability(world, delta);
    update_lifetime(world, delta);
    update_mouse_position(world, input.pointer);
    let used = ability_system(world, input.keys);
    let events = detect_collisions(world);
    let mut sounds = handle_collisions(world, &events);
    update_bigfoot_position(world);
    let mut stomps = update_bigfoot(world, delta);
    sounds.append(&mut stomps);
    let death = clean_dead(world);
    let game_over = match death {
        Some(sound) => {
            sounds.push(sound);
            true
        },
        None => false,
    };
    TickReport { used, sounds, game_over }
}

} // verus!
