//! Laws of the combat core: what holds of every world, whatever happens in
//! it.

use crate::boss::{advance_boss, is_boss, landed, leapt, stomped, waiting};
use crate::collision::{
    boxes_meet, collides, detected, is_victim, lemma_overlaps_among_complete,
    lemma_overlaps_among_sound, overlap_list,
};
use crate::combat::{
    begin, exposed, is_slain, lemma_strike_keeps_cast, lemma_strike_list_keeps_cast, receptive,
    resolve_event, resolve_events, resolved_world, same_cast, strike, strike_list, struck,
    Resolution,
};
use crate::components::{
    clamp_i32, Ability, Bigfoot, BigfootState, Cooldowns, GameState, Health, Invulnerability,
    Score, BOSS_INVULNERABLE_TIME, BOSS_SOLID_TIME, CONTACT_DAMAGE, INVULNERABILITY_TIME,
    STRIKE_DAMAGE,
};
use crate::events::{CollisionEvent, Sound};
use crate::geometry::{overlaps, Position, Size};
use crate::player::{
    after_activation, after_attack, after_cooldown_reset, aoe_points, can_activate,
    lemma_attack_keeps_actors, lemma_caster_stays, melee_points, with_markers,
};
use crate::session::{after_tick, tick_sounds, TickInput};
use crate::systems::{
    cleaned, elapsed_all, expired_all, outlasting, player_fell, slain_all, unshielded,
};
use crate::timing::{aged, Countdown};
use crate::world::{
    distinct_handles, has_single_player, holds, index_of, is_first_with, is_only_player,
    lemma_first_unique, lemma_index_of, lemma_survivors_complete, lemma_survivors_hold,
    lemma_survivors_sound, player_index, survivors, ActorView, WorldView,
};
use vstd::prelude::*;

verus! {

/// Overlap is symmetric: a box overlaps another exactly when that other
/// overlaps it.
pub proof fn law_overlap_symmetric(a: Position, a_size: Size, b: Position, b_size: Size)
    ensures
        overlaps(a, a_size, b, b_size) == overlaps(b, b_size, a, a_size),
{
}

/// The boxes of two actors meet exactly when they meet the other way round.
pub proof fn law_boxes_meet_symmetric(a: ActorView, b: ActorView)
    ensures
        boxes_meet(a, b) == boxes_meet(b, a),
{
}

/// No actor overlaps itself: after detection no collider holds the handle of
/// its own actor.
pub proof fn law_no_self_overlap(actors: Seq<ActorView>, i: int, k: int)
    requires
        0 <= i < actors.len(),
        detected(actors)[i].collider is Some,
        0 <= k < detected(actors)[i].collider->0.collisions.len(),
    ensures
        detected(actors)[i].collider->0.collisions[k] != actors[i].entity,
        detected(actors)[i].entity == actors[i].entity,
{
    lemma_overlaps_among_sound(actors, actors[i], actors.len(), k);
}

/// An overlap list is complete: each actor that `a` collides with has its
/// handle in the overlap list of `a`.
pub proof fn law_overlap_list_complete(actors: Seq<ActorView>, a: ActorView, j: int)
    requires
        0 <= j < actors.len(),
        collides(a, actors[j]),
    ensures
        overlap_list(actors, a).contains(actors[j].entity),
{
    lemma_overlaps_among_complete(actors, a, actors.len(), j);
}

/// An overlap list holds nothing else: every handle in it is the handle of
/// an actor that `a` collides with.
pub proof fn law_overlap_list_sound(actors: Seq<ActorView>, a: ActorView, k: int)
    requires
        0 <= k < overlap_list(actors, a).len(),
    ensures
        exists|j: int|
            0 <= j < actors.len() && #[trigger] actors[j].entity == overlap_list(actors, a)[k]
                && collides(a, actors[j]),
{
    lemma_overlaps_among_sound(actors, a, actors.len(), k);
}

/// Cooldowns never rise while time passes, and never fall below zero: each
/// countdown is what it was less the time passed, or zero.
pub proof fn law_cooldowns_never_rise(cooldowns: Cooldowns, delta: u64, ability: Ability)
    ensures
        cooldowns.after_tick(delta).remaining(ability) == aged(cooldowns.remaining(ability), delta),
        cooldowns.after_tick(delta).remaining(ability) <= cooldowns.remaining(ability),
        delta >= cooldowns.remaining(ability) ==> cooldowns.after_tick(delta).remaining(ability)
            == 0,
{
}

/// Time adds up: two ticks wear the cooldowns down as one tick of the same
/// length in all does, so that no countdown drifts with the length of the
/// ticks.
pub proof fn law_cooldown_time_adds_up(cooldowns: Cooldowns, first: u64, second: u64)
    requires
        first + second <= u64::MAX,
    ensures
        cooldowns.after_tick(first).after_tick(second) == cooldowns.after_tick(
            (first + second) as u64,
        ),
{
}

/// The cooldown gate, closed: while the countdown of an ability is above
/// zero the caster cannot use it.
pub proof fn law_cooldown_gate_closed(world: WorldView, ability: Ability, caster: u64)
    requires
        holds(world.actors, caster),
        world.actors[index_of(world.actors, caster)].cooldowns matches Some(cooldowns)
            && cooldowns.remaining(ability) > 0,
    ensures
        !can_activate(world, ability, caster),
{
}

/// The cooldown gate, open: an ability used with its countdown at zero
/// recovers from its full recovery time afterwards, the other abilities of
/// the caster stand where they stood, and as long as the world has a handle
/// left attack geometry has entered it.
pub proof fn law_cooldown_gate_open(
    world: WorldView,
    ability: Ability,
    caster: u64,
    target: Position,
)
    requires
        can_activate(world, ability, caster),
    ensures
        ({
            let after = after_activation(world, ability, caster, target);
            let index = index_of(world.actors, caster);
            &&& after.actors.len() >= world.actors.len()
            &&& after.actors[index].entity == caster
            &&& after.actors[index].cooldowns matches Some(cooldowns)
            &&& cooldowns.remaining(ability) == ability.spec_base_cooldown()
            &&& forall|other: Ability|
                other != ability ==> cooldowns.remaining(other)
                    == world.actors[index].cooldowns->0.remaining(other)
            &&& world.next_entity < u64::MAX ==> after.actors.len() > world.actors.len()
        }),
{
    let index = index_of(world.actors, caster);
    let attacked = after_attack(world, ability, caster, target);
    lemma_caster_stays(world, ability, caster, target);
    lemma_attack_keeps_actors(world, ability, caster, target);
    if world.next_entity < u64::MAX {
        lemma_attack_adds_geometry(world, ability, caster, target);
    }
    lemma_reset_recovers(attacked, ability, caster);
}

/// A cooldown that is started anew stands at the recovery time of its
/// ability; nothing else changes.
proof fn lemma_reset_recovers(world: WorldView, ability: Ability, caster: u64)
    requires
        holds(world.actors, caster),
        world.actors[index_of(world.actors, caster)].cooldowns is Some,
    ensures
        ({
            let after = after_cooldown_reset(world, ability, caster);
            let index = index_of(world.actors, caster);
            let before = world.actors[index].cooldowns->0;
            &&& after.actors.len() == world.actors.len()
            &&& after.actors[index].entity == caster
            &&& after.actors[index].cooldowns == Some(before.after_reset(ability))
            &&& before.after_reset(ability).remaining(ability) == ability.spec_base_cooldown()
            &&& forall|other: Ability|
                other != ability ==> before.after_reset(ability).remaining(other)
                    == before.remaining(other)
        }),
{
    lemma_index_of(world.actors, caster);
}

/// As long as the world has a handle left, an attack of a caster that is
/// there adds at least one actor.
proof fn lemma_attack_adds_geometry(
    world: WorldView,
    ability: Ability,
    caster: u64,
    target: Position,
)
    requires
        holds(world.actors, caster),
        world.next_entity < u64::MAX,
    ensures
        after_attack(world, ability, caster, target).actors.len() > world.actors.len(),
{
    lemma_index_of(world.actors, caster);
    let from = world.actors[index_of(world.actors, caster)].position;
    match ability {
        Ability::Attack => {
            let points = melee_points(from, target);
            lemma_first_marker_enters(WorldView { points, ..world }, points, points.len());
        },
        Ability::Aoe => {
            let points = aoe_points(from);
            lemma_first_marker_enters(WorldView { points, ..world }, points, points.len());
        },
        Ability::Ranged => {},
        Ability::Dash => {},
    }
}

/// With a handle left and a point to mark, at least one marker enters.
proof fn lemma_first_marker_enters(world: WorldView, points: Seq<Position>, count: nat)
    requires
        world.next_entity < u64::MAX,
        0 < count <= points.len(),
    ensures
        with_markers(world, points, count).actors.len() > world.actors.len(),
    decreases count,
{
    if count > 1 {
        lemma_first_marker_enters(world, points, (count - 1) as nat);
    } else {
        assert(with_markers(world, points, 0) == world);
    }
}

/// The score after `kills` more kills; it stops at the largest `u32`.
pub open spec fn score_after(score: Score, kills: nat) -> u32 {
    if score.enemies_killed + kills > u32::MAX {
        u32::MAX
    } else {
        (score.enemies_killed + kills) as u32
    }
}

/// What holds throughout a resolution phase that started in `world`.
///
/// The actors keep their places, handles, colliders and tags. An actor that
/// held an invulnerability window at the start is as it was. Any other
/// actor but the player is as it was, or was struck exactly once, and is
/// marked if so. The score has grown by one for each sound asked for.
pub open spec fn phase_invariant(world: WorldView, r: Resolution) -> bool {
    &&& r.wf()
    &&& same_cast(r.actors, world.actors)
    &&& forall|i: int|
        0 <= i < world.actors.len() && world.actors[i].invulnerability is Some ==> (
        #[trigger] r.actors[i]) == world.actors[i]
    &&& forall|i: int|
        0 <= i < world.actors.len() && world.actors[i].player is None ==> (#[trigger] r.actors[i])
            == (if r.resolved[i] {
            struck(world.actors[i])
        } else {
            world.actors[i]
        })
    &&& forall|i: int|
        0 <= i < world.actors.len() && world.actors[i].player is None && r.resolved[i]
            && is_slain(#[trigger] r.actors[i]) ==> r.doomed[i]
    &&& forall|i: int|
        0 <= i < world.actors.len() && world.actors[i].player is None && #[trigger] r.doomed[i]
            ==> world.actors[i].line is Some || (r.resolved[i] && is_slain(
            struck(world.actors[i]),
        ))
    &&& r.score.enemies_killed == score_after(world.score, r.sounds.len())
}

/// A strike keeps the invariant of the phase.
proof fn lemma_strike_keeps_invariant(world: WorldView, r: Resolution, attacker: int, victim: u64)
    requires
        phase_invariant(world, r),
        0 <= attacker < r.actors.len(),
    ensures
        phase_invariant(world, strike(r, attacker, victim)),
{
    lemma_strike_keeps_cast(r, attacker, victim);
    if holds(r.actors, victim) {
        lemma_index_of(r.actors, victim);
    }
}

/// A run of strikes keeps the invariant of the phase.
proof fn lemma_strike_list_keeps_invariant(
    world: WorldView,
    r: Resolution,
    attacker: int,
    list: Seq<u64>,
    count: nat,
)
    requires
        phase_invariant(world, r),
        0 <= attacker < r.actors.len(),
        count <= list.len(),
    ensures
        phase_invariant(world, strike_list(r, attacker, list, count)),
    decreases count,
{
    if count > 0 {
        lemma_strike_list_keeps_invariant(world, r, attacker, list, (count - 1) as nat);
        lemma_strike_keeps_invariant(
            world,
            strike_list(r, attacker, list, (count - 1) as nat),
            attacker,
            list[count - 1],
        );
    }
}

/// An event keeps the invariant of the phase.
proof fn lemma_event_keeps_invariant(world: WorldView, r: Resolution, event: CollisionEvent)
    requires
        phase_invariant(world, r),
    ensures
        phase_invariant(world, resolve_event(r, event)),
{
    match event {
        CollisionEvent::Collision => {},
        CollisionEvent::Damage(attacker) => {
            if holds(r.actors, attacker) {
                lemma_index_of(r.actors, attacker);
                let a = index_of(r.actors, attacker);
                match r.actors[a].collider {
                    Some(collider) => {
                        lemma_strike_list_keeps_invariant(
                            world,
                            r,
                            a,
                            collider.collisions,
                            collider.collisions.len(),
                        );
                    },
                    None => {},
                }
            }
        },
    }
}

/// The marks at the start of a phase.
proof fn lemma_begin_holds(world: WorldView)
    ensures
        phase_invariant(world, begin(world)),
{
}

/// The invariant of the phase holds after any run of events.
pub proof fn lemma_phase_invariant(world: WorldView, events: Seq<CollisionEvent>, count: nat)
    requires
        count <= events.len(),
    ensures
        phase_invariant(world, resolve_events(begin(world), events, count)),
    decreases count,
{
    if count == 0 {
        lemma_begin_holds(world);
    } else {
        lemma_phase_invariant(world, events, (count - 1) as nat);
        lemma_event_keeps_invariant(
            world,
            resolve_events(begin(world), events, (count - 1) as nat),
            events[count - 1],
        );
    }
}

/// Sequences of actors that agree on the handles hold the same handles at
/// the same first places.
proof fn lemma_same_places(a: Seq<ActorView>, b: Seq<ActorView>, entity: u64)
    requires
        same_cast(a, b),
    ensures
        holds(a, entity) == holds(b, entity),
        holds(a, entity) ==> index_of(a, entity) == index_of(b, entity),
{
    if holds(a, entity) {
        lemma_index_of(a, entity);
        let i = index_of(a, entity);
        assert(b[i].entity == entity);
        assert forall|j: int| 0 <= j < i implies (#[trigger] b[j]).entity != entity by {
            assert(a[j].entity != entity);
        }
        assert(is_first_with(b, entity, i));
        lemma_index_of(b, entity);
        lemma_first_unique(b, entity, i, index_of(b, entity));
    }
    if holds(b, entity) {
        lemma_index_of(b, entity);
        let i = index_of(b, entity);
        assert(a[i].entity == entity);
    }
}

/// Whether every actor that is marked as struck in `before` is marked in
/// `after` too.
pub open spec fn marks_kept(before: Resolution, after: Resolution) -> bool {
    forall|i: int|
        0 <= i < before.resolved.len() && before.resolved[i] ==> #[trigger] after.resolved[i]
}

/// A strike takes no mark away.
proof fn lemma_strike_keeps_marks(r: Resolution, attacker: int, victim: u64)
    requires
        r.wf(),
        0 <= attacker < r.actors.len(),
    ensures
        marks_kept(r, strike(r, attacker, victim)),
{
    if holds(r.actors, victim) {
        lemma_index_of(r.actors, victim);
    }
}

/// A run of strikes takes no mark away.
proof fn lemma_strike_list_keeps_marks(r: Resolution, attacker: int, list: Seq<u64>, count: nat)
    requires
        r.wf(),
        0 <= attacker < r.actors.len(),
        count <= list.len(),
    ensures
        marks_kept(r, strike_list(r, attacker, list, count)),
    decreases count,
{
    if count > 0 {
        let before = strike_list(r, attacker, list, (count - 1) as nat);
        lemma_strike_list_keeps_marks(r, attacker, list, (count - 1) as nat);
        lemma_strike_list_keeps_cast(r, attacker, list, (count - 1) as nat);
        lemma_strike_keeps_marks(before, attacker, list[count - 1]);
        assert forall|i: int| 0 <= i < r.resolved.len() && r.resolved[i] implies #[trigger] strike(
            before,
            attacker,
            list[count - 1],
        ).resolved[i] by {
            assert(before.resolved[i]);
        }
    }
}

/// An event takes no mark away.
proof fn lemma_event_keeps_marks(world: WorldView, r: Resolution, event: CollisionEvent)
    requires
        phase_invariant(world, r),
    ensures
        marks_kept(r, resolve_event(r, event)),
{
    match event {
        CollisionEvent::Collision => {},
        CollisionEvent::Damage(attacker) => {
            if holds(r.actors, attacker) {
                lemma_index_of(r.actors, attacker);
                let a = index_of(r.actors, attacker);
                match r.actors[a].collider {
                    Some(collider) => {
                        lemma_strike_list_keeps_marks(
                            r,
                            a,
                            collider.collisions,
                            collider.collisions.len(),
                        );
                    },
                    None => {},
                }
            }
        },
    }
}

/// The events from the `from`-th to the `count`-th take no mark away.
proof fn lemma_events_keep_marks(
    world: WorldView,
    events: Seq<CollisionEvent>,
    from: nat,
    count: nat,
)
    requires
        from <= count <= events.len(),
    ensures
        marks_kept(
            resolve_events(begin(world), events, from),
            resolve_events(begin(world), events, count),
        ),
    decreases count - from,
{
    if from < count {
        let early = resolve_events(begin(world), events, from);
        let before = resolve_events(begin(world), events, (count - 1) as nat);
        let after = resolve_events(begin(world), events, count);
        lemma_events_keep_marks(world, events, from, (count - 1) as nat);
        lemma_phase_invariant(world, events, from);
        lemma_phase_invariant(world, events, (count - 1) as nat);
        lemma_event_keeps_marks(world, before, events[count - 1]);
        assert forall|i: int|
            0 <= i < early.resolved.len() && early.resolved[i] implies #[trigger] after.resolved[i] by {
            assert(before.resolved[i]);
        }
    }
}

/// A strike at a receptive victim leaves the victim marked.
proof fn lemma_strike_marks_victim(world: WorldView, r: Resolution, attacker: int, victim: u64)
    requires
        phase_invariant(world, r),
        0 <= attacker < r.actors.len(),
        holds(world.actors, victim),
        world.actors[index_of(world.actors, victim)].player is None,
        receptive(world.actors[index_of(world.actors, victim)]),
    ensures
        strike(r, attacker, victim).resolved[index_of(world.actors, victim)],
{
    lemma_same_places(r.actors, world.actors, victim);
    lemma_index_of(world.actors, victim);
    let i = index_of(world.actors, victim);
    if !r.resolved[i] {
        assert(r.actors[i] == world.actors[i]);
    }
}

/// A run of strikes leaves each receptive victim among the handles marked.
proof fn lemma_strike_list_marks_victim(
    world: WorldView,
    r: Resolution,
    attacker: int,
    list: Seq<u64>,
    count: nat,
    place: int,
)
    requires
        phase_invariant(world, r),
        0 <= attacker < r.actors.len(),
        count <= list.len(),
        0 <= place < count,
        holds(world.actors, list[place]),
        world.actors[index_of(world.actors, list[place])].player is None,
        receptive(world.actors[index_of(world.actors, list[place])]),
    ensures
        strike_list(r, attacker, list, count).resolved[index_of(world.actors, list[place])],
    decreases count,
{
    let before = strike_list(r, attacker, list, (count - 1) as nat);
    lemma_strike_list_keeps_invariant(world, r, attacker, list, (count - 1) as nat);
    lemma_index_of(world.actors, list[place]);
    if place == count - 1 {
        lemma_strike_marks_victim(world, before, attacker, list[place]);
    } else {
        lemma_strike_list_marks_victim(world, r, attacker, list, (count - 1) as nat, place);
        lemma_strike_keeps_marks(before, attacker, list[count - 1]);
    }
}

/// No strike is lost: whatever else happens in the phase, a receptive
/// victim in the overlap list of attack geometry for which a damage event
/// is resolved leaves the phase struck. With the law that follows, each such
/// victim is struck exactly once.
pub proof fn law_strike_is_not_lost(
    world: WorldView,
    events: Seq<CollisionEvent>,
    at: int,
    place: int,
)
    requires
        0 <= at < events.len(),
        events[at] matches CollisionEvent::Damage(handle) && holds(world.actors, handle) && ({
            let attacker = world.actors[index_of(world.actors, handle)];
            &&& attacker.player is None
            &&& attacker.line is Some || attacker.point_marker is Some
            &&& attacker.collider matches Some(collider)
            &&& 0 <= place < collider.collisions.len()
            &&& holds(world.actors, collider.collisions[place])
            &&& world.actors[index_of(world.actors, collider.collisions[place])].player is None
            &&& receptive(world.actors[index_of(world.actors, collider.collisions[place])])
        }),
    ensures
        ({
            let r = resolve_events(begin(world), events, events.len());
            let attacker = world.actors[index_of(world.actors, events[at]->Damage_0)];
            let victim = index_of(world.actors, attacker.collider->0.collisions[place]);
            r.resolved[victim] && r.actors[victim] == struck(world.actors[victim])
        }),
{
    let handle = events[at]->Damage_0;
    let a = index_of(world.actors, handle);
    let list = world.actors[a].collider->0.collisions;
    let victim = index_of(world.actors, list[place]);
    let before = resolve_events(begin(world), events, at as nat);
    let after = resolve_events(begin(world), events, (at + 1) as nat);
    let r = resolve_events(begin(world), events, events.len());
    lemma_index_of(world.actors, handle);
    lemma_index_of(world.actors, list[place]);
    lemma_phase_invariant(world, events, at as nat);
    lemma_same_places(before.actors, world.actors, handle);
    assert(before.actors[a].collider == world.actors[a].collider);
    assert(after == strike_list(before, a, list, list.len()));
    lemma_strike_list_marks_victim(world, before, a, list, list.len(), place);
    lemma_phase_invariant(world, events, (at + 1) as nat);
    lemma_events_keep_marks(world, events, (at + 1) as nat, events.len());
    assert(after.resolved[victim]);
    assert(r.resolved[victim]);
    lemma_phase_invariant(world, events, events.len());
}

/// At most one resolution per victim per tick: whatever the events of a
/// phase, an actor other than the player leaves the phase as it entered it
/// or struck exactly once.
pub proof fn law_struck_at_most_once(world: WorldView, events: Seq<CollisionEvent>, i: int)
    requires
        0 <= i < world.actors.len(),
        world.actors[i].player is None,
    ensures
        ({
            let r = resolve_events(begin(world), events, events.len());
            r.actors[i] == world.actors[i] || r.actors[i] == struck(world.actors[i])
        }),
{
    lemma_phase_invariant(world, events, events.len());
    let r = resolve_events(begin(world), events, events.len());
}

/// Exactly one despawn: a victim that is slain in a phase is taken out of
/// the world at the end of the phase, and no actor with its handle is left.
pub proof fn law_slain_victim_is_despawned(
    world: WorldView,
    events: Seq<CollisionEvent>,
    i: int,
)
    requires
        world.wf(),
        0 <= i < world.actors.len(),
        world.actors[i].player is None,
        resolve_events(begin(world), events, events.len()).resolved[i],
        is_slain(struck(world.actors[i])),
    ensures
        !holds(resolved_world(world, events).actors, world.actors[i].entity),
{
    lemma_phase_invariant(world, events, events.len());
    let r = resolve_events(begin(world), events, events.len());
    let left = survivors(r.actors, r.doomed, r.actors.len());
    if holds(left, world.actors[i].entity) {
        lemma_index_of(left, world.actors[i].entity);
        let k = index_of(left, world.actors[i].entity);
        lemma_survivors_sound(r.actors, r.doomed, r.actors.len(), k);
        let j = choose|j: int|
            0 <= j < r.actors.len() && !r.doomed[j] && left[k] == #[trigger] r.actors[j];
        assert(world.actors[j].entity == world.actors[i].entity);
        assert(j != i);
    }
}

/// Whoever is not doomed in a phase is still in the world when the phase
/// has ended.
pub proof fn law_undoomed_survive(world: WorldView, events: Seq<CollisionEvent>, i: int)
    requires
        0 <= i < world.actors.len(),
        !resolve_events(begin(world), events, events.len()).doomed[i],
    ensures
        holds(resolved_world(world, events).actors, world.actors[i].entity),
{
    lemma_phase_invariant(world, events, events.len());
    let r = resolve_events(begin(world), events, events.len());
    let left = survivors(r.actors, r.doomed, r.actors.len());
    lemma_survivors_complete(r.actors, r.doomed, r.actors.len(), i);
    let k = choose|k: int| 0 <= k < left.len() && left[k] == r.actors[i];
    assert(left[k].entity == world.actors[i].entity);
}

/// The score counts each kill once: over a phase it grows by the number of
/// sounds asked for, one for each victim slain, and stops at the largest
/// `u32`.
pub proof fn law_score_counts_kills(world: WorldView, events: Seq<CollisionEvent>)
    ensures
        ({
            let r = resolve_events(begin(world), events, events.len());
            r.score.enemies_killed == score_after(world.score, r.sounds.len())
        }),
{
    lemma_phase_invariant(world, events, events.len());
}

/// The player after contact damage, as far as the damage goes: it has lost
/// the contact damage and holds a fresh invulnerability window.
pub open spec fn hurt_by_contact(before: ActorView, after: ActorView) -> bool {
    &&& after.health == Some(Health { hp: clamp_i32(before.health->0.hp - CONTACT_DAMAGE) })
    &&& after.invulnerability == Some(
        Invulnerability { timer: Countdown { remaining: INVULNERABILITY_TIME } },
    )
}

/// What holds of the player throughout a phase that started in `world`, of
/// which `seen` tells whether a contact event was resolved: an exposed
/// player is hurt by the first contact event and by none after it; any other
/// player is as it was.
pub open spec fn contact_invariant(world: WorldView, r: Resolution, seen: bool) -> bool {
    let p = player_index(world.actors);
    if seen && exposed(world.actors[p]) {
        hurt_by_contact(world.actors[p], r.actors[p])
    } else {
        r.actors[p] == world.actors[p]
    }
}

/// Whether one of the first `count` events is a contact event.
pub open spec fn contact_among(events: Seq<CollisionEvent>, count: nat) -> bool {
    exists|k: int| 0 <= k < count && #[trigger] events[k] == CollisionEvent::Collision
}

/// The only player of the world is the only player throughout the phase.
proof fn lemma_same_player(world: WorldView, r: Resolution)
    requires
        has_single_player(world.actors),
        same_cast(r.actors, world.actors),
    ensures
        has_single_player(r.actors),
        player_index(r.actors) == player_index(world.actors),
        0 <= player_index(world.actors) < world.actors.len(),
{
    let p = player_index(world.actors);
    assert(is_only_player(world.actors, p));
    assert(is_only_player(r.actors, p)) by {
        assert forall|j: int|
            0 <= j < r.actors.len() && (#[trigger] r.actors[j]).player is Some implies j == p by {
            assert(world.actors[j].player is Some);
        }
    }
    assert(r.actors[p].player is Some);
}

/// A run of strikes leaves a player that is no victim as it is.
proof fn lemma_strikes_spare_player(
    world: WorldView,
    r: Resolution,
    attacker: int,
    list: Seq<u64>,
    count: nat,
)
    requires
        phase_invariant(world, r),
        has_single_player(world.actors),
        !is_victim(world.actors[player_index(world.actors)]),
        0 <= attacker < r.actors.len(),
        count <= list.len(),
    ensures
        strike_list(r, attacker, list, count).actors[player_index(world.actors)]
            == r.actors[player_index(world.actors)],
    decreases count,
{
    lemma_same_player(world, r);
    if count > 0 {
        let before = strike_list(r, attacker, list, (count - 1) as nat);
        lemma_strikes_spare_player(world, r, attacker, list, (count - 1) as nat);
        lemma_strike_list_keeps_invariant(world, r, attacker, list, (count - 1) as nat);
        if holds(before.actors, list[count - 1]) {
            lemma_index_of(before.actors, list[count - 1]);
        }
    }
}

/// Contact hurts exactly once: over a whole phase, a player that is no
/// victim of strikes and was exposed when the phase began has lost the
/// contact damage once, and holds a fresh invulnerability window, if a
/// contact event was among the events, however many there were; in every
/// other case it leaves the phase as it entered it.
pub proof fn law_contact_hurts_exactly_once(
    world: WorldView,
    events: Seq<CollisionEvent>,
    count: nat,
)
    requires
        has_single_player(world.actors),
        !is_victim(world.actors[player_index(world.actors)]),
        count <= events.len(),
    ensures
        contact_invariant(
            world,
            resolve_events(begin(world), events, count),
            contact_among(events, count),
        ),
    decreases count,
{
    if count > 0 {
        let before = resolve_events(begin(world), events, (count - 1) as nat);
        law_contact_hurts_exactly_once(world, events, (count - 1) as nat);
        lemma_phase_invariant(world, events, (count - 1) as nat);
        lemma_same_player(world, before);
        let seen = contact_among(events, (count - 1) as nat);
        match events[count - 1] {
            CollisionEvent::Collision => {
                assert(contact_among(events, count));
            },
            CollisionEvent::Damage(attacker) => {
                assert(contact_among(events, count) == seen) by {
                    if contact_among(events, count) {
                        let k = choose|k: int|
                            0 <= k < count && #[trigger] events[k] == CollisionEvent::Collision;
                        assert(k < count - 1);
                    }
                }
                if holds(before.actors, attacker) {
                    lemma_index_of(before.actors, attacker);
                    let a = index_of(before.actors, attacker);
                    match before.actors[a].collider {
                        Some(collider) => {
                            lemma_strikes_spare_player(
                                world,
                                before,
                                a,
                                collider.collisions,
                                collider.collisions.len(),
                            );
                        },
                        None => {},
                    }
                }
            },
        }
    } else {
        lemma_same_player(world, begin(world));
    }
}

/// Invulnerability suppresses damage: an actor that holds an
/// invulnerability window when the phase starts leaves the phase as it
/// entered it, whatever touches it.
pub proof fn law_invulnerable_untouched(world: WorldView, events: Seq<CollisionEvent>, i: int)
    requires
        0 <= i < world.actors.len(),
        world.actors[i].invulnerability is Some,
    ensures
        resolve_events(begin(world), events, events.len()).actors[i] == world.actors[i],
{
    lemma_phase_invariant(world, events, events.len());
}

/// The stomp of the boss spares a player that holds an invulnerability
/// window.
pub proof fn law_stomp_spares_invulnerable(actors: Seq<ActorView>, at: Position)
    requires
        has_single_player(actors),
        actors[player_index(actors)].invulnerability is Some,
    ensures
        stomped(actors, at) == actors,
{
}

/// An invulnerability window is gone once its duration has passed, and
/// stands until then.
pub proof fn law_window_lapses(actor: ActorView, delta: u64)
    requires
        actor.invulnerability is Some,
    ensures
        delta >= actor.invulnerability->0.timer.remaining ==> unshielded(
            actor,
            delta,
        ).invulnerability is None,
        delta < actor.invulnerability->0.timer.remaining ==> unshielded(
            actor,
            delta,
        ).invulnerability is Some,
{
}

/// Without a window damage applies: a strike on a receptive victim that was
/// not struck before in the phase takes its health down by the strike
/// damage.
pub proof fn law_strike_lands(r: Resolution, attacker: int, victim: u64)
    requires
        r.wf(),
        holds(r.actors, victim),
        !r.resolved[index_of(r.actors, victim)],
        receptive(r.actors[index_of(r.actors, victim)]),
    ensures
        ({
            let v = index_of(r.actors, victim);
            let after = strike(r, attacker, victim);
            &&& after.actors[v] == struck(r.actors[v])
            &&& after.resolved[v]
            &&& r.actors[v].bigfoot is None ==> after.actors[v].health == Some(
                Health { hp: clamp_i32(r.actors[v].health->0.hp - STRIKE_DAMAGE) },
            )
            &&& r.actors[v].bigfoot matches Some(boss) ==> after.actors[v].bigfoot->0.health
                == Bigfoot::health_after(boss.health, STRIKE_DAMAGE)
        }),
{
    lemma_index_of(r.actors, victim);
}

/// Boss timing, in the air: an invulnerable boss whose timer outlasts the
/// tick stays invulnerable, takes no strike, and has that much less time to
/// go.
pub proof fn law_boss_stays_invulnerable(actors: Seq<ActorView>, index: int, delta: u64)
    requires
        0 <= index < actors.len(),
        is_boss(actors[index]),
        actors[index].bigfoot->0.state == BigfootState::Invulnerable,
        delta < actors[index].bigfoot->0.timer.remaining,
    ensures
        ({
            let after = advance_boss(actors, index, delta)[index];
            &&& after == waiting(
                actors[index],
                (actors[index].bigfoot->0.timer.remaining - delta) as u64,
            )
            &&& after.bigfoot->0.state == BigfootState::Invulnerable
            &&& !receptive(after)
        }),
{
}

/// Boss timing, the landing: once the timer of the invulnerable phase has
/// run out the boss is vulnerable, with the full vulnerable phase ahead.
pub proof fn law_boss_lands(actors: Seq<ActorView>, index: int, delta: u64)
    requires
        0 <= index < actors.len(),
        is_boss(actors[index]),
        actors[index].bigfoot->0.state == BigfootState::Invulnerable,
        delta >= actors[index].bigfoot->0.timer.remaining,
    ensures
        ({
            let after = advance_boss(actors, index, delta)[index];
            &&& after == landed(actors[index])
            &&& after.bigfoot->0.state == BigfootState::Solid
            &&& after.bigfoot->0.timer.remaining == BOSS_SOLID_TIME
            &&& after.invulnerability is None ==> receptive(after)
        }),
{
    let boss = actors[index].bigfoot->0;
}

/// Boss timing, on the ground: a vulnerable boss whose timer outlasts the
/// tick stays vulnerable and receptive to strikes.
pub proof fn law_boss_stays_vulnerable(actors: Seq<ActorView>, index: int, delta: u64)
    requires
        0 <= index < actors.len(),
        is_boss(actors[index]),
        actors[index].bigfoot->0.state == BigfootState::Solid,
        delta < actors[index].bigfoot->0.timer.remaining,
    ensures
        ({
            let after = advance_boss(actors, index, delta)[index];
            &&& after == waiting(
                actors[index],
                (actors[index].bigfoot->0.timer.remaining - delta) as u64,
            )
            &&& after.bigfoot->0.state == BigfootState::Solid
            &&& after.invulnerability is None ==> receptive(after)
        }),
{
}

/// Boss timing, the leap: once the timer of the vulnerable phase has run
/// out the boss stands where the player stands and is invulnerable again,
/// with the full invulnerable phase ahead.
pub proof fn law_boss_leaps(actors: Seq<ActorView>, index: int, delta: u64)
    requires
        0 <= index < actors.len(),
        is_boss(actors[index]),
        actors[index].bigfoot->0.state == BigfootState::Solid,
        delta >= actors[index].bigfoot->0.timer.remaining,
        has_single_player(actors),
    ensures
        ({
            let after = advance_boss(actors, index, delta)[index];
            let player = actors[player_index(actors)];
            &&& after == leapt(actors[index], player.position)
            &&& after.position == player.position
            &&& after.bigfoot->0.state == BigfootState::Invulnerable
            &&& after.bigfoot->0.timer.remaining == BOSS_INVULNERABLE_TIME
            &&& !receptive(after)
        }),
{
}

/// Boss timing over several ticks: time that passes in two ticks wears a
/// timer down as the same time does in one, so a phase of length `T` ends
/// in the tick in which the time passed since its start reaches `T`.
pub proof fn law_boss_timer_adds_up(actors: Seq<ActorView>, index: int, first: u64, second: u64)
    requires
        0 <= index < actors.len(),
        is_boss(actors[index]),
        first < actors[index].bigfoot->0.timer.remaining,
        first + second <= u64::MAX,
    ensures
        ({
            let between = advance_boss(actors, index, first);
            let boss = actors[index].bigfoot->0;
            &&& is_boss(between[index])
            &&& between[index].bigfoot->0.state == boss.state
            &&& aged(between[index].bigfoot->0.timer.remaining, second) == aged(
                boss.timer.remaining,
                (first + second) as u64,
            )
        }),
{
}

/// Game over is final: a world that is not running is not moved by a
/// tick, so that the game stays over and no countdown of a paused game
/// drifts.
pub proof fn law_halted_world_stands_still(world: WorldView, input: TickInput, delta: u64)
    requires
        world.state.state != GameState::Running,
    ensures
        after_tick(world, input, delta) == world,
        tick_sounds(world, input, delta) == Seq::<Sound>::empty(),
{
}

/// Cleaning up never leaves the terminal state: the state after it is the
/// state before, or the game is over.
pub proof fn law_cleanup_ends_or_keeps(world: WorldView)
    ensures
        cleaned(world).state == world.state || cleaned(world).state.state
            == GameState::GameOver,
        player_fell(world.actors) ==> cleaned(world).state.state == GameState::GameOver,
{
}

/// Lifetimes: after a tick of the lifetime manager an actor of a
/// well-formed world is still there exactly if it has no lifetime or more
/// lifetime left than the time that passed.
pub proof fn law_lifetime_expiry(world: WorldView, delta: u64, i: int)
    requires
        world.wf(),
        0 <= i < world.actors.len(),
    ensures
        holds(outlasting(world.actors, delta), world.actors[i].entity) <==> (
        world.actors[i].lifetime matches Some(lifetime) ==> lifetime.timer.remaining > delta),
{
    let aged_actors = elapsed_all(world.actors, delta);
    assert(distinct_handles(aged_actors)) by {
        assert forall|a: int, b: int|
            0 <= a < aged_actors.len() && 0 <= b < aged_actors.len() && a != b implies (
        #[trigger] aged_actors[a]).entity != (#[trigger] aged_actors[b]).entity by {
            assert(world.actors[a].entity != world.actors[b].entity);
        }
    }
    lemma_survivors_hold(aged_actors, expired_all(aged_actors), i);
}

/// Cleaning up: after the dead were cleaned up an actor of a well-formed
/// world is still there exactly if it has health left, or none to lose.
pub proof fn law_dead_are_cleaned_up(world: WorldView, i: int)
    requires
        world.wf(),
        0 <= i < world.actors.len(),
    ensures
        holds(cleaned(world).actors, world.actors[i].entity) <==> !is_slain(world.actors[i]),
{
    lemma_survivors_hold(world.actors, slain_all(world.actors), i);
}

} // verus!
