//! Combat resolution: what the collisions of a tick do to the actors.

use crate::collision::is_victim;
use crate::components::{
    clamp_i32, Bigfoot, BigfootState, Health, Invulnerability, Score, CONTACT_DAMAGE,
    INVULNERABILITY_TIME, STRIKE_DAMAGE,
};
use crate::events::{CollisionEvent, Sound};
use crate::geometry::{direction, direction_between, displace, displaced, Position};
use crate::timing::Countdown;
use crate::world::{
    despawn_doomed, has_single_player, holds, index_of, lemma_index_of, lemma_views_update,
    player_index,
    survivors, Actor, ActorView, World, WorldView,
};
use vstd::prelude::*;

verus! {

/// Distance by which the player is shoved away from each enemy it touches.
pub const RECOIL_STEP: u32 = 4_167;

/// The state of one resolution phase: the actors as changed so far, which
/// of them, by index, were already struck this tick, which are to be
/// despawned when the phase ends, the score and the sounds asked for.
pub struct Resolution {
    pub actors: Seq<ActorView>,
    pub resolved: Seq<bool>,
    pub doomed: Seq<bool>,
    pub score: Score,
    pub sounds: Seq<Sound>,
}

impl Resolution {
    /// Whether the marks cover the actors one for one.
    pub open spec fn wf(self) -> bool {
        self.resolved.len() == self.actors.len() && self.doomed.len() == self.actors.len()
    }
}

/// The state at the start of a resolution phase: nobody struck, nobody
/// doomed, no sound.
pub open spec fn begin(world: WorldView) -> Resolution {
    Resolution {
        actors: world.actors,
        resolved: Seq::new(world.actors.len(), |i: int| false),
        doomed: Seq::new(world.actors.len(), |i: int| false),
        score: world.score,
        sounds: Seq::empty(),
    }
}

/// Whether a strike can hurt the actor: it is a victim, no invulnerability
/// window protects it, and it is either the boss in its vulnerable phase or
/// an actor with health.
pub open spec fn receptive(victim: ActorView) -> bool {
    &&& is_victim(victim)
    &&& victim.invulnerability is None
    &&& match victim.bigfoot {
        Some(boss) => boss.state == BigfootState::Solid,
        None => victim.health is Some,
    }
}

/// The victim after one strike: the boss loses health down to zero, any
/// other victim loses hit points.
pub open spec fn struck(victim: ActorView) -> ActorView {
    match victim.bigfoot {
        Some(boss) => ActorView {
            bigfoot: Some(
                Bigfoot { health: Bigfoot::health_after(boss.health, STRIKE_DAMAGE), ..boss },
            ),
            ..victim
        },
        None => match victim.health {
            Some(health) => ActorView {
                health: Some(Health { hp: clamp_i32(health.hp - STRIKE_DAMAGE) }),
                ..victim
            },
            None => victim,
        },
    }
}

/// Whether the victim has no health left.
pub open spec fn is_slain(victim: ActorView) -> bool {
    match victim.bigfoot {
        Some(boss) => boss.health <= 0,
        None => victim.health matches Some(health) && health.hp <= 0,
    }
}

/// The state after the actor at index `attacker` has touched the actor with
/// the handle `victim`.
///
/// Nothing happens if no such actor is left, if it was struck before in
/// this tick or if it is not receptive. Otherwise the victim is struck once
/// and marked; if it is slain it is doomed, the score counts it and a sound
/// is asked for. A rectangular attack volume that lands a strike is doomed
/// too.
pub open spec fn strike(r: Resolution, attacker: int, victim: u64) -> Resolution {
    if !holds(r.actors, victim) {
        r
    } else {
        let v = index_of(r.actors, victim);
        if r.resolved[v] || !receptive(r.actors[v]) {
            r
        } else {
            let hurt = struck(r.actors[v]);
            let slain = is_slain(hurt);
            let doomed = r.doomed.update(v, r.doomed[v] || slain);
            Resolution {
                actors: r.actors.update(v, hurt),
                resolved: r.resolved.update(v, true),
                doomed: if r.actors[attacker].line is Some {
                    doomed.update(attacker, true)
                } else {
                    doomed
                },
                score: if slain {
                    Score { enemies_killed: Score::after_kill(r.score.enemies_killed) }
                } else {
                    r.score
                },
                sounds: if slain {
                    r.sounds.push(Sound::BoneHit)
                } else {
                    r.sounds
                },
            }
        }
    }
}

/// The state after the actor at index `attacker` has touched the first
/// `count` handles of `list`, one after the other.
pub open spec fn strike_list(r: Resolution, attacker: int, list: Seq<u64>, count: nat)
    -> Resolution
    decreases count,
{
    if count == 0 {
        r
    } else {
        strike(strike_list(r, attacker, list, (count - 1) as nat), attacker, list[count - 1])
    }
}

/// The state after a damage event of the attack geometry with the handle
/// `attacker`: it strikes every actor of its overlap list. An event whose
/// attacker is gone, has no collider or is no attack geometry changes
/// nothing.
pub open spec fn resolve_damage(r: Resolution, attacker: u64) -> Resolution {
    if !holds(r.actors, attacker) {
        r
    } else {
        let a = index_of(r.actors, attacker);
        let actor = r.actors[a];
        if actor.player is Some || !(actor.line is Some || actor.point_marker is Some) {
            r
        } else {
            match actor.collider {
                Some(collider) => strike_list(
                    r,
                    a,
                    collider.collisions,
                    collider.collisions.len(),
                ),
                None => r,
            }
        }
    }
}

/// The position to which the player at `from` is shoved by the first `count`
/// actors of `list`: one step away from each that is still there, in the
/// direction that leads from it to `from`.
pub open spec fn recoiled(actors: Seq<ActorView>, from: Position, list: Seq<u64>, count: nat)
    -> Position
    decreases count,
{
    if count == 0 {
        from
    } else {
        let before = recoiled(actors, from, list, (count - 1) as nat);
        if holds(actors, list[count - 1]) {
            let other = actors[index_of(actors, list[count - 1])];
            displaced(before, direction_between(other.position, from), RECOIL_STEP)
        } else {
            before
        }
    }
}

/// Whether contact can hurt the player: no invulnerability window protects
/// it, and it has health and a collider.
pub open spec fn exposed(player: ActorView) -> bool {
    player.invulnerability is None && player.health is Some && player.collider is Some
}

/// The player after contact damage: it loses the contact damage, gains an
/// invulnerability window and is shoved away from what it touches.
pub open spec fn bruised(actors: Seq<ActorView>, player: ActorView) -> ActorView {
    ActorView {
        health: Some(Health { hp: clamp_i32(player.health->0.hp - CONTACT_DAMAGE) }),
        invulnerability: Some(
            Invulnerability { timer: Countdown { remaining: INVULNERABILITY_TIME } },
        ),
        position: recoiled(
            actors,
            player.position,
            player.collider->0.collisions,
            player.collider->0.collisions.len(),
        ),
        ..player
    }
}

/// The state after a contact event. Without exactly one player, or with a
/// player that is not exposed, the event changes nothing.
pub open spec fn resolve_contact(r: Resolution) -> Resolution {
    if !has_single_player(r.actors) {
        r
    } else {
        let p = player_index(r.actors);
        if !exposed(r.actors[p]) {
            r
        } else {
            Resolution { actors: r.actors.update(p, bruised(r.actors, r.actors[p])), ..r }
        }
    }
}

/// The state after one event.
pub open spec fn resolve_event(r: Resolution, event: CollisionEvent) -> Resolution {
    match event {
        CollisionEvent::Collision => resolve_contact(r),
        CollisionEvent::Damage(attacker) => resolve_damage(r, attacker),
    }
}

/// The state after the first `count` events of `events`, in order.
pub open spec fn resolve_events(r: Resolution, events: Seq<CollisionEvent>, count: nat)
    -> Resolution
    decreases count,
{
    if count == 0 {
        r
    } else {
        resolve_event(resolve_events(r, events, (count - 1) as nat), events[count - 1])
    }
}

/// The world after a resolution phase over `events`: every event is
/// resolved in order, then the doomed are despawned.
pub open spec fn resolved_world(world: WorldView, events: Seq<CollisionEvent>) -> WorldView {
    let r = resolve_events(begin(world), events, events.len());
    WorldView {
        actors: survivors(r.actors, r.doomed, r.actors.len()),
        score: r.score,
        ..world
    }
}

/// The marks of a resolution phase under way.
struct Marks {
    resolved: Vec<bool>,
    doomed: Vec<bool>,
    sounds: Vec<Sound>,
}

/// The state that a world and the marks of a phase stand for.
spec fn state_of(world: WorldView, marks: Marks) -> Resolution {
    Resolution {
        actors: world.actors,
        resolved: marks.resolved@,
        doomed: marks.doomed@,
        score: world.score,
        sounds: marks.sounds@,
    }
}

/// Whether two worlds differ at most in their actors and their score.
pub open spec fn same_session(a: WorldView, b: WorldView) -> bool {
    a == (WorldView { actors: a.actors, score: a.score, ..b })
}

/// Whether two sequences of actors agree, actor by actor, on handle,
/// collider and tags, and on which of them are bosses.
pub open spec fn same_cast(a: Seq<ActorView>, b: Seq<ActorView>) -> bool {
    &&& a.len() == b.len()
    &&& forall|i: int|
        0 <= i < a.len() ==> {
            &&& (#[trigger] a[i]).entity == b[i].entity
            &&& a[i].collider == b[i].collider
            &&& a[i].player == b[i].player
            &&& a[i].enemy == b[i].enemy
            &&& a[i].line == b[i].line
            &&& a[i].point_marker == b[i].point_marker
            &&& a[i].bigfoot is Some == b[i].bigfoot is Some
        }
}

/// A strike changes neither handles nor colliders nor tags, and keeps the
/// marks in step with the actors.
pub proof fn lemma_strike_keeps_cast(r: Resolution, attacker: int, victim: u64)
    requires
        r.wf(),
        0 <= attacker < r.actors.len(),
    ensures
        strike(r, attacker, victim).wf(),
        same_cast(strike(r, attacker, victim).actors, r.actors),
{
    if holds(r.actors, victim) {
        lemma_index_of(r.actors, victim);
    }
}

/// Builds the marks of a fresh phase over `count` actors.
fn fresh_marks(count: usize) -> (marks: Marks)
    ensures
        marks.resolved@ == Seq::new(count as nat, |i: int| false),
        marks.doomed@ == Seq::new(count as nat, |i: int| false),
        marks.sounds@ == Seq::<Sound>::empty(),
{
    let mut resolved: Vec<bool> = Vec::new();
    let mut doomed: Vec<bool> = Vec::new();
    let mut index: usize = 0;
    while index < count
        invariant
            index <= count,
            resolved@ == Seq::new(index as nat, |i: int| false),
            doomed@ == Seq::new(index as nat, |i: int| false),
        decreases count - index,
    {
        resolved.push(false);
        doomed.push(false);
        index += 1;
    }
    Marks { resolved, doomed, sounds: Vec::new() }
}

/// Decides whether a strike can hurt the actor.
fn is_receptive(victim: &Actor) -> (open: bool)
    ensures
        open == receptive(victim@),
{
    if !(victim.enemy.is_some() || victim.bigfoot.is_some()) {
        return false;
    }
    if victim.invulnerability.is_some() {
        return false;
    }
    match victim.bigfoot {
        Some(boss) => boss.state == BigfootState::Solid,
        None => victim.health.is_some(),
    }
}

/// Lets the actor at index `attacker` touch the actor with the handle
/// `victim`.
fn strike_victim(world: &mut World, marks: &mut Marks, attacker: usize, victim: u64)
    requires
        state_of(old(world)@, *old(marks)).wf(),
        attacker < old(world).actors.len(),
    ensures
        old(world).wf() ==> final(world).wf(),
        same_session(final(world)@, old(world)@),
        state_of(final(world)@, *final(marks)) == strike(
            state_of(old(world)@, *old(marks)),
            attacker as int,
            victim,
        ),
{
    let ghost r = state_of(world@, *marks);
    proof {
        lemma_strike_keeps_cast(r, attacker as int, victim);
    }
    let found = world.find(victim);
    match found {
        None => {},
        Some(v) => {
            if marks.resolved[v] || !is_receptive(&world.actors[v]) {
                return ;
            }
            let ghost prior = world.actors@;
            let slain: bool;
            match world.actors[v].bigfoot {
                Some(boss) => {
                    let mut boss = boss;
                    boss.take_damage(STRIKE_DAMAGE);
                    slain = boss.is_dead();
                    world.actors[v].bigfoot = Some(boss);
                },
                None => {
                    match world.actors[v].health {
                        Some(health) => {
                            let mut health = health;
                            health.take_damage(STRIKE_DAMAGE);
                            slain = health.hp <= 0;
                            world.actors[v].health = Some(health);
                        },
                        None => {
                            slain = false;
                        },
                    }
                },
            }
            proof {
                lemma_views_update(prior, world.actors@, v as int);
            }
            marks.resolved[v] = true;
            if slain {
                marks.doomed[v] = true;
                world.score.increment();
                marks.sounds.push(Sound::BoneHit);
            }
            if world.actors[attacker].line.is_some() {
                marks.doomed[attacker] = true;
            }
            proof {
                let after = strike(r, attacker as int, victim);
                assert(state_of(world@, *marks).doomed =~= after.doomed);
            }
        },
    }
}

/// A run of strikes changes neither handles nor colliders nor tags.
pub proof fn lemma_strike_list_keeps_cast(r: Resolution, attacker: int, list: Seq<u64>, count: nat)
    requires
        r.wf(),
        0 <= attacker < r.actors.len(),
        count <= list.len(),
    ensures
        strike_list(r, attacker, list, count).wf(),
        same_cast(strike_list(r, attacker, list, count).actors, r.actors),
    decreases count,
{
    if count > 0 {
        lemma_strike_list_keeps_cast(r, attacker, list, (count - 1) as nat);
        lemma_strike_keeps_cast(
            strike_list(r, attacker, list, (count - 1) as nat),
            attacker,
            list[count - 1],
        );
    }
}

/// Resolves a damage event of the attack geometry with the handle
/// `attacker`.
fn resolve_damage_event(world: &mut World, marks: &mut Marks, attacker: u64)
    requires
        state_of(old(world)@, *old(marks)).wf(),
    ensures
        old(world).wf() ==> final(world).wf(),
        same_session(final(world)@, old(world)@),
        state_of(final(world)@, *final(marks)).wf(),
        state_of(final(world)@, *final(marks)) == resolve_damage(
            state_of(old(world)@, *old(marks)),
            attacker,
        ),
{
    let ghost r = state_of(world@, *marks);
    let found = world.find(attacker);
    match found {
        None => {},
        Some(a) => {
            let actor = &world.actors[a];
            if actor.player.is_some() || !(actor.line.is_some() || actor.point_marker.is_some()) {
                return ;
            }
            let count = match &actor.collider {
                Some(collider) => collider.collisions.len(),
                None => {
                    return ;
                },
            };
            let ghost list = r.actors[a as int].collider->0.collisions;
            let mut k: usize = 0;
            while k < count
                invariant
                    k <= count,
                    count == list.len(),
                    r.actors[a as int].collider is Some,
                    list == r.actors[a as int].collider->0.collisions,
                    old(world).wf() ==> world.wf(),
                    a < world.actors.len(),
                    r.wf(),
                    r.actors.len() == world.actors.len(),
                    same_session(world@, old(world)@),
                    state_of(world@, *marks) == strike_list(r, a as int, list, k as nat),
                decreases count - k,
            {
                let ghost reached = state_of(world@, *marks);
                proof {
                    lemma_strike_list_keeps_cast(r, a as int, list, k as nat);
                    assert(reached.actors[a as int].collider == r.actors[a as int].collider);
                }
                let victim = match &world.actors[a].collider {
                    Some(collider) => collider.collisions[k],
                    None => 0,
                };
                strike_victim(world, marks, a, victim);
                proof {
                    lemma_strike_keeps_cast(reached, a as int, victim);
                }
                k += 1;
            }
            proof {
                lemma_strike_list_keeps_cast(r, a as int, list, count as nat);
            }
        },
    }
}

/// Computes the position to which the player at index `player` is shoved by
/// the actors it touches.
fn recoil(world: &World, player: usize) -> (end: Position)
    requires
        player < world.actors.len(),
        world@.actors[player as int].collider is Some,
    ensures
        end == recoiled(
            world@.actors,
            world@.actors[player as int].position,
            world@.actors[player as int].collider->0.collisions,
            world@.actors[player as int].collider->0.collisions.len(),
        ),
{
    let from = world.actors[player].position;
    let mut end = from;
    match &world.actors[player].collider {
        Some(collider) => {
            let count = collider.collisions.len();
            let mut k: usize = 0;
            while k < count
                invariant
                    k <= count,
                    count == collider.collisions@.len(),
                    end == recoiled(world@.actors, from, collider.collisions@, k as nat),
                decreases count - k,
            {
                match world.find(collider.collisions[k]) {
                    Some(other) => {
                        let away = direction(world.actors[other].position, from);
                        end = displace(end, away, RECOIL_STEP);
                    },
                    None => {},
                }
                k += 1;
            }
        },
        None => {},
    }
    end
}

/// Resolves a contact event.
fn resolve_contact_event(world: &mut World, marks: &Marks)
    requires
        state_of(old(world)@, *marks).wf(),
    ensures
        old(world).wf() ==> final(world).wf(),
        same_session(final(world)@, old(world)@),
        state_of(final(world)@, *marks) == resolve_contact(state_of(old(world)@, *marks)),
        state_of(final(world)@, *marks).wf(),
{
    let found = world.single_player();
    match found {
        None => {},
        Some(p) => {
            let player = &world.actors[p];
            if player.invulnerability.is_some() || player.collider.is_none() {
                return ;
            }
            match player.health {
                None => {},
                Some(health) => {
                    let end = recoil(world, p);
                    let mut health = health;
                    health.take_damage(CONTACT_DAMAGE);
                    let ghost prior = world.actors@;
                    world.actors[p].health = Some(health);
                    world.actors[p].invulnerability = Some(
                        Invulnerability { timer: Countdown::new(INVULNERABILITY_TIME) },
                    );
                    world.actors[p].position = end;
                    proof {
                        lemma_views_update(prior, world.actors@, p as int);
                        assert(same_cast(world@.actors, old(world)@.actors));
                    }
                },
            }
        },
    }
}

/// Resolves the collisions of a tick.
///
/// The events are resolved in order. A damage event lets its attack geometry
/// strike every actor of its overlap list; a victim is struck at most once
/// in the phase, whatever the number of events that reach it, and not at all
/// while it is invulnerable. A contact event hurts an exposed player once and
/// gives it an invulnerability window, so that further contact within the
/// phase does nothing. The slain, and the rectangular attack volumes that
/// landed a strike, are despawned when all events are resolved. Returns the
/// sounds asked for: one for each victim slain.
pub fn handle_collisions(world: &mut World, events: &Vec<CollisionEvent>) -> (sounds: Vec<Sound>)
    ensures
        old(world).wf() ==> final(world).wf(),
        final(world)@ == resolved_world(old(world)@, events@),
        sounds@ == resolve_events(begin(old(world)@), events@, events@.len()).sounds,
{
    let mut marks = fresh_marks(world.actors.len());
    let ghost start = begin(world@);
    let mut k: usize = 0;
    while k < events.len()
        invariant
            k <= events.len(),
            old(world).wf() ==> world.wf(),
            same_session(world@, old(world)@),
            state_of(world@, marks).wf(),
            start == begin(old(world)@),
            state_of(world@, marks) == resolve_events(start, events@, k as nat),
        decreases events.len() - k,
    {
        match events[k] {
            CollisionEvent::Collision => {
                resolve_contact_event(world, &marks);
            },
            CollisionEvent::Damage(attacker) => {
                resolve_damage_event(world, &mut marks, attacker);
            },
        }
        k += 1;
    }
    despawn_doomed(world, &marks.doomed);
    marks.sounds
}

} // verus!
