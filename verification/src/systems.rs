//! The bookkeeping phases of a tick: timers, cooldowns, invulnerability
//! windows, lifetimes, the cleaning up of the dead and the restart of an
//! episode.

use crate::combat::is_slain;
use crate::components::{
    Cooldowns, CurrentGameState, GameState, GameTimer, Invulnerability, Lifetime,
    MousePosition, Points, Score,
};
use crate::events::Sound;
use crate::geometry::Position;
use crate::timing::{aged, Countdown};
use crate::world::{
    changed_upto, despawn_doomed, lemma_changed_step, lemma_same_handles_wf, survivors, Actor,
    ActorView, World, WorldView, INITIAL_SPAWN_INTERVAL,
};
use vstd::prelude::*;

verus! {

/// The survival time after `delta` more nanoseconds; it stops at the largest
/// `u64`.
pub open spec fn timer_after(timer: GameTimer, delta: u64) -> GameTimer {
    if timer.0 + delta > u64::MAX {
        GameTimer(u64::MAX)
    } else {
        GameTimer((timer.0 + delta) as u64)
    }
}

/// Adds `delta` nanoseconds to the survival time.
pub fn update_timer(world: &mut World, delta: u64)
    ensures
        final(world)@ == (WorldView {
            timer: timer_after(old(world)@.timer, delta),
            ..old(world)@
        }),
{
    let sum = world.timer.0.checked_add(delta);
    world.timer = match sum {
        Some(total) => GameTimer(total),
        None => GameTimer(u64::MAX),
    };
}

/// Stores the pointer's position in the world.
pub fn update_mouse_position(world: &mut World, pointer: Position)
    ensures
        final(world)@ == (WorldView {
            mouse: MousePosition { x: pointer.x, y: pointer.y },
            ..old(world)@
        }),
{
    world.mouse = MousePosition { x: pointer.x, y: pointer.y };
}

/// The actor after `delta` nanoseconds of recovery: each of its cooldowns
/// has moved towards zero.
pub open spec fn cooled(actor: ActorView, delta: u64) -> ActorView {
    match actor.cooldowns {
        Some(cooldowns) => ActorView { cooldowns: Some(cooldowns.after_tick(delta)), ..actor },
        None => actor,
    }
}

/// The actors after `delta` nanoseconds of recovery.
pub open spec fn cooled_all(actors: Seq<ActorView>, delta: u64) -> Seq<ActorView> {
    Seq::new(actors.len(), |i: int| cooled(actors[i], delta))
}

/// Lets `delta` nanoseconds pass on the cooldowns of every actor. No
/// countdown rises, and none falls below zero.
pub fn update_cooldowns(world: &mut World, delta: u64)
    ensures
        final(world)@ == (WorldView {
            actors: cooled_all(old(world)@.actors, delta),
            ..old(world)@
        }),
        old(world).wf() ==> final(world).wf(),
{
    let ghost before = world@.actors;
    let ghost change = |actor: ActorView| cooled(actor, delta);
    let count = world.actors.len();
    let mut index: usize = 0;
    while index < count
        invariant
            index <= count,
            count == before.len(),
            world.actors.len() == count,
            change == (|actor: ActorView| cooled(actor, delta)),
            world@ == (WorldView { actors: world@.actors, ..old(world)@ }),
            world@.actors == changed_upto(before, change, index as int),
        decreases count - index,
    {
        let ghost prior = world.actors@;
        assert(world@.actors[index as int] == prior[index as int]@);
        match &mut world.actors[index].cooldowns {
            Some(cooldowns) => {
                cooldowns.tick(delta);
            },
            None => {},
        }
        proof {
            lemma_changed_step(before, change, index as int, prior, world.actors@);
        }
        index += 1;
    }
    proof {
        assert(world@.actors =~= cooled_all(before, delta));
        if old(world).wf() {
            lemma_same_handles_wf(old(world)@, world@);
        }
    }
}

/// The actor after `delta` nanoseconds of its invulnerability window: the
/// window has moved towards zero, and a window that has run out is gone.
pub open spec fn unshielded(actor: ActorView, delta: u64) -> ActorView {
    match actor.invulnerability {
        Some(window) => if aged(window.timer.remaining, delta) == 0 {
            ActorView { invulnerability: None, ..actor }
        } else {
            ActorView {
                invulnerability: Some(
                    Invulnerability {
                        timer: Countdown { remaining: aged(window.timer.remaining, delta) },
                    },
                ),
                ..actor
            }
        },
        None => actor,
    }
}

/// The actors after `delta` nanoseconds of their invulnerability windows.
pub open spec fn unshielded_all(actors: Seq<ActorView>, delta: u64) -> Seq<ActorView> {
    Seq::new(actors.len(), |i: int| unshielded(actors[i], delta))
}

/// Lets `delta` nanoseconds pass on every invulnerability window and takes
/// away the windows that have run out.
pub fn manage_invulnerability(world: &mut World, delta: u64)
    ensures
        final(world)@ == (WorldView {
            actors: unshielded_all(old(world)@.actors, delta),
            ..old(world)@
        }),
        old(world).wf() ==> final(world).wf(),
{
    let ghost before = world@.actors;
    let ghost change = |actor: ActorView| unshielded(actor, delta);
    let count = world.actors.len();
    let mut index: usize = 0;
    while index < count
        invariant
            index <= count,
            count == before.len(),
            world.actors.len() == count,
            change == (|actor: ActorView| unshielded(actor, delta)),
            world@ == (WorldView { actors: world@.actors, ..old(world)@ }),
            world@.actors == changed_upto(before, change, index as int),
        decreases count - index,
    {
        let ghost prior = world.actors@;
        assert(world@.actors[index as int] == prior[index as int]@);
        match world.actors[index].invulnerability {
            Some(window) => {
                let mut window = window;
                window.timer.tick(delta);
                if window.timer.finished() {
                    world.actors[index].invulnerability = None;
                } else {
                    world.actors[index].invulnerability = Some(window);
                }
            },
            None => {},
        }
        proof {
            lemma_changed_step(before, change, index as int, prior, world.actors@);
        }
        index += 1;
    }
    proof {
        assert(world@.actors =~= unshielded_all(before, delta));
        if old(world).wf() {
            lemma_same_handles_wf(old(world)@, world@);
        }
    }
}

/// The actor after `delta` nanoseconds of its lifetime.
pub open spec fn elapsed(actor: ActorView, delta: u64) -> ActorView {
    match actor.lifetime {
        Some(lifetime) => ActorView {
            lifetime: Some(
                Lifetime { timer: Countdown { remaining: aged(lifetime.timer.remaining, delta) } },
            ),
            ..actor
        },
        None => actor,
    }
}

/// Whether the lifetime of the actor has run out.
pub open spec fn expired(actor: ActorView) -> bool {
    actor.lifetime matches Some(lifetime) && lifetime.timer.remaining == 0
}

/// The actors after `delta` nanoseconds of their lifetimes.
pub open spec fn elapsed_all(actors: Seq<ActorView>, delta: u64) -> Seq<ActorView> {
    Seq::new(actors.len(), |i: int| elapsed(actors[i], delta))
}

/// For each actor, whether its lifetime has run out.
pub open spec fn expired_all(actors: Seq<ActorView>) -> Seq<bool> {
    Seq::new(actors.len(), |i: int| expired(actors[i]))
}

/// The actors that are left after `delta` nanoseconds of their lifetimes:
/// those whose lifetime has not run out, and those that have none.
pub open spec fn outlasting(actors: Seq<ActorView>, delta: u64) -> Seq<ActorView> {
    survivors(
        elapsed_all(actors, delta),
        expired_all(elapsed_all(actors, delta)),
        actors.len(),
    )
}

/// Lets `delta` nanoseconds pass on every lifetime and despawns the actors
/// whose lifetime has run out.
pub fn update_lifetime(world: &mut World, delta: u64)
    ensures
        old(world).wf() ==> final(world).wf(),
        final(world)@ == (WorldView {
            actors: outlasting(old(world)@.actors, delta),
            ..old(world)@
        }),
{
    let ghost before = world@.actors;
    let ghost change = |actor: ActorView| elapsed(actor, delta);
    let count = world.actors.len();
    let mut gone: Vec<bool> = Vec::new();
    let mut index: usize = 0;
    while index < count
        invariant
            index <= count,
            count == before.len(),
            world.actors.len() == count,
            change == (|actor: ActorView| elapsed(actor, delta)),
            world@ == (WorldView { actors: world@.actors, ..old(world)@ }),
            world@.actors == changed_upto(before, change, index as int),
            gone@.len() == index,
            forall|j: int| 0 <= j < index ==> gone@[j] == expired(elapsed(before[j], delta)),
        decreases count - index,
    {
        let ghost prior = world.actors@;
        assert(world@.actors[index as int] == prior[index as int]@);
        match world.actors[index].lifetime {
            Some(lifetime) => {
                let mut lifetime = lifetime;
                lifetime.timer.tick(delta);
                gone.push(lifetime.timer.finished());
                world.actors[index].lifetime = Some(lifetime);
            },
            None => {
                gone.push(false);
            },
        }
        proof {
            lemma_changed_step(before, change, index as int, prior, world.actors@);
        }
        index += 1;
    }
    proof {
        assert(world@.actors =~= elapsed_all(before, delta));
        assert(gone@ =~= expired_all(elapsed_all(before, delta)));
        if old(world).wf() {
            lemma_same_handles_wf(old(world)@, world@);
        }
    }
    despawn_doomed(world, &gone);
}

/// For each actor, whether it has no health left.
pub open spec fn slain_all(actors: Seq<ActorView>) -> Seq<bool> {
    Seq::new(actors.len(), |i: int| is_slain(actors[i]))
}

/// Whether an actor with the player tag has no health left.
pub open spec fn player_fell(actors: Seq<ActorView>) -> bool {
    exists|i: int|
        0 <= i < actors.len() && is_slain(#[trigger] actors[i]) && actors[i].player is Some
}

/// The world after the dead were cleaned up: every actor without health
/// left is gone, and the game is over if the player was among them.
pub open spec fn cleaned(world: WorldView) -> WorldView {
    WorldView {
        actors: survivors(world.actors, slain_all(world.actors), world.actors.len()),
        state: if player_fell(world.actors) {
            CurrentGameState { state: GameState::GameOver }
        } else {
            world.state
        },
        ..world
    }
}

/// Decides whether the actor has no health left.
fn has_fallen(actor: &Actor) -> (fallen: bool)
    ensures
        fallen == is_slain(actor@),
{
    match actor.bigfoot {
        Some(boss) => boss.is_dead(),
        None => match actor.health {
            Some(health) => health.hp <= 0,
            None => false,
        },
    }
}

/// Despawns every actor whose health is at or below zero. If the player is
/// among them the game is over, for good, and the death sound is asked for.
pub fn clean_dead(world: &mut World) -> (sound: Option<Sound>)
    ensures
        old(world).wf() ==> final(world).wf(),
        final(world)@ == cleaned(old(world)@),
        sound == (if player_fell(old(world)@.actors) {
            Some(Sound::Death)
        } else {
            None
        }),
{
    let count = world.actors.len();
    let mut dead: Vec<bool> = Vec::new();
    let mut game_over = false;
    let mut index: usize = 0;
    while index < count
        invariant
            index <= count,
            count == world.actors.len(),
            world == old(world),
            dead@.len() == index,
            forall|j: int| 0 <= j < index ==> dead@[j] == is_slain(world@.actors[j]),
            game_over == (exists|i: int|
                0 <= i < index && is_slain(#[trigger] world@.actors[i])
                    && world@.actors[i].player is Some),
        decreases count - index,
    {
        assert(world@.actors[index as int] == world.actors@[index as int]@);
        let fallen = has_fallen(&world.actors[index]);
        if fallen && world.actors[index].player.is_some() {
            game_over = true;
        }
        dead.push(fallen);
        index += 1;
    }
    assert(dead@ =~= slain_all(world@.actors));
    despawn_doomed(world, &dead);
    if game_over {
        world.state = CurrentGameState { state: GameState::GameOver };
        Some(Sound::Death)
    } else {
        None
    }
}

/// The actor with all its cooldowns started anew.
pub open spec fn rearmed(actor: ActorView) -> ActorView {
    match actor.cooldowns {
        Some(cooldowns) => ActorView { cooldowns: Some(Cooldowns::full()), ..actor },
        None => actor,
    }
}

/// The actors with all their cooldowns started anew.
pub open spec fn rearmed_all(actors: Seq<ActorView>) -> Seq<ActorView> {
    Seq::new(actors.len(), |i: int| rearmed(actors[i]))
}

/// For each actor, whether it is removed when the episode restarts.
pub open spec fn resettable_all(actors: Seq<ActorView>) -> Seq<bool> {
    Seq::new(actors.len(), |i: int| actors[i].resettable is Some)
}

/// The world at the start of a new episode: the resettable actors are gone,
/// every cooldown has started anew, score and survival time are zero, the
/// sampled points are forgotten, the spawn interval is the initial one and
/// the game is running.
pub open spec fn restarted(world: WorldView) -> WorldView {
    WorldView {
        actors: survivors(
            rearmed_all(world.actors),
            resettable_all(world.actors),
            world.actors.len(),
        ),
        score: Score { enemies_killed: 0 },
        timer: GameTimer(0),
        points: Seq::empty(),
        enemy_spawn_rate: INITIAL_SPAWN_INTERVAL,
        state: CurrentGameState { state: GameState::Running },
        ..world
    }
}

/// Starts a new episode.
pub fn reset_game(world: &mut World)
    ensures
        old(world).wf() ==> final(world).wf(),
        final(world)@ == restarted(old(world)@),
{
    let ghost before = world@.actors;
    let ghost change = |actor: ActorView| rearmed(actor);
    let count = world.actors.len();
    let mut leaving: Vec<bool> = Vec::new();
    let mut index: usize = 0;
    while index < count
        invariant
            index <= count,
            count == before.len(),
            world.actors.len() == count,
            change == (|actor: ActorView| rearmed(actor)),
            world@ == (WorldView { actors: world@.actors, ..old(world)@ }),
            world@.actors == changed_upto(before, change, index as int),
            leaving@.len() == index,
            forall|j: int| 0 <= j < index ==> leaving@[j] == (before[j].resettable is Some),
        decreases count - index,
    {
        let ghost prior = world.actors@;
        assert(world@.actors[index as int] == prior[index as int]@);
        leaving.push(world.actors[index].resettable.is_some());
        match &mut world.actors[index].cooldowns {
            Some(cooldowns) => {
                cooldowns.reset_all();
            },
            None => {},
        }
        proof {
            lemma_changed_step(before, change, index as int, prior, world.actors@);
        }
        index += 1;
    }
    proof {
        assert(world@.actors =~= rearmed_all(before));
        assert(leaving@ =~= resettable_all(before));
        if old(world).wf() {
            lemma_same_handles_wf(old(world)@, world@);
        }
    }
    despawn_doomed(world, &leaving);
    world.score.reset();
    world.timer = GameTimer(0);
    world.points = Points(Vec::new());
    world.enemy_spawn_rate = INITIAL_SPAWN_INTERVAL;
    world.state = CurrentGameState { state: GameState::Running };
}

/// Half the side of the square within which the camera is held.
pub const CAMERA_RANGE: i32 = 500_000;

/// `value` held between `low` and `high`.
pub open spec fn held_between(value: int, low: int, high: int) -> int {
    if value < low {
        low
    } else if value > high {
        high
    } else {
        value
    }
}

/// Where the camera looks when the player stands at `player` and the window
/// shows `half_width` to each side and `half_height` up and down.
///
/// The camera follows the player but shows nothing beyond the camera range.
/// A window too large for that range leaves no room to hold the camera in,
/// and the camera simply follows the player.
pub open spec fn camera_target(player: Position, half_width: u32, half_height: u32) -> Position {
    if half_width < CAMERA_RANGE && half_height < CAMERA_RANGE {
        Position {
            x: held_between(
                player.x as int,
                half_width - CAMERA_RANGE,
                CAMERA_RANGE - half_width,
            ) as i32,
            y: held_between(
                player.y as int,
                half_height - CAMERA_RANGE,
                CAMERA_RANGE - half_height,
            ) as i32,
        }
    } else {
        player
    }
}

/// Computes where the camera looks.
pub fn camera_follow_player(player: Position, half_width: u32, half_height: u32) -> (camera:
    Position)
    ensures
        camera == camera_target(player, half_width, half_height),
{
    if half_width < CAMERA_RANGE as u32 && half_height < CAMERA_RANGE as u32 {
        let max_x: i32 = CAMERA_RANGE - half_width as i32;
        let max_y: i32 = CAMERA_RANGE - half_height as i32;
        Position {
            x: if player.x < -max_x {
                -max_x
            } else if player.x > max_x {
                max_x
            } else {
                player.x
            },
            y: if player.y < -max_y {
                -max_y
            } else if player.y > max_y {
                max_y
            } else {
                player.y
            },
        }
    } else {
        player
    }
}

/// The state that the game enters when the pause key or the key that leads
/// back to the menu went down, if it enters one: the pause key switches
/// between running and paused, the other key leads from the pause to the
/// menu.
pub open spec fn state_after_keys(state: GameState, pause: bool, back: bool) -> Option<GameState> {
    if pause {
        match state {
            GameState::Running => Some(GameState::Paused),
            GameState::Paused => Some(GameState::Running),
            _ => None,
        }
    } else if back && state == GameState::Paused {
        Some(GameState::Menu)
    } else {
        None
    }
}

/// Decides which state the game enters on the pause key and on the key that
/// leads back to the menu.
pub fn handle_escape_pressed(state: GameState, pause: bool, back: bool) -> (next: Option<
    GameState,
>)
    ensures
        next == state_after_keys(state, pause, back),
{
    if pause {
        match state {
            GameState::Running => Some(GameState::Paused),
            GameState::Paused => Some(GameState::Running),
            _ => None,
        }
    } else if back && state == GameState::Paused {
        Some(GameState::Menu)
    } else {
        None
    }
}

} // verus!
