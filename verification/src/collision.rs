//! Collision detection: which boxes overlap, and what each overlap means.

use crate::events::CollisionEvent;
use crate::geometry::{boxes_overlap, overlaps};
use crate::world::{lemma_same_handles_wf, Actor, ActorView, ColliderView, World, WorldView};
use vstd::prelude::*;

verus! {

/// Whether the actor deals damage or takes contact damage by touching a
/// victim: the player, a rectangular attack volume or a point marker.
pub open spec fn is_striker(actor: ActorView) -> bool {
    actor.player is Some || actor.line is Some || actor.point_marker is Some
}

/// Whether the actor is a body that attacks can hit: an enemy or the boss.
pub open spec fn is_victim(actor: ActorView) -> bool {
    actor.enemy is Some || actor.bigfoot is Some
}

/// Whether the boxes of two actors overlap. An actor without a collider
/// overlaps nothing.
pub open spec fn boxes_meet(a: ActorView, b: ActorView) -> bool {
    match (a.collider, b.collider) {
        (Some(ca), Some(cb)) => overlaps(a.position, ca.size, b.position, cb.size),
        _ => false,
    }
}

/// Whether `a` meets `b` in a way that counts: they are two actors, their
/// boxes overlap, `a` is a striker and `b` a victim.
pub open spec fn collides(a: ActorView, b: ActorView) -> bool {
    &&& a.entity != b.entity
    &&& boxes_meet(a, b)
    &&& is_striker(a)
    &&& is_victim(b)
}

/// The handles of those among the first `count` actors of `actors` that `a`
/// collides with, in the order of `actors`.
pub open spec fn overlaps_among(actors: Seq<ActorView>, a: ActorView, count: nat) -> Seq<u64>
    decreases count,
{
    if count == 0 {
        Seq::empty()
    } else {
        let before = overlaps_among(actors, a, (count - 1) as nat);
        if collides(a, actors[count - 1]) {
            before.push(actors[count - 1].entity)
        } else {
            before
        }
    }
}

/// The handles of the actors that `a` collides with, in the order of
/// `actors`.
pub open spec fn overlap_list(actors: Seq<ActorView>, a: ActorView) -> Seq<u64> {
    overlaps_among(actors, a, actors.len())
}

/// The event raised for each collision of `a`: contact for the player,
/// damage for attack geometry.
pub open spec fn event_of(a: ActorView) -> CollisionEvent {
    if a.player is Some {
        CollisionEvent::Collision
    } else {
        CollisionEvent::Damage(a.entity)
    }
}

/// The events raised by the collisions of `a`: one for each actor it
/// collides with.
pub open spec fn events_of(actors: Seq<ActorView>, a: ActorView) -> Seq<CollisionEvent> {
    Seq::new(overlap_list(actors, a).len(), |k: int| event_of(a))
}

/// The events raised by the first `count` actors of `actors`, actor by actor.
pub open spec fn collision_events(actors: Seq<ActorView>, count: nat) -> Seq<CollisionEvent>
    decreases count,
{
    if count == 0 {
        Seq::empty()
    } else {
        collision_events(actors, (count - 1) as nat) + events_of(
            actors,
            actors[count - 1],
        )
    }
}

/// The actor `a` with the overlap list `list` in its collider. An actor
/// without a collider stays as it is.
pub open spec fn with_collisions(a: ActorView, list: Seq<u64>) -> ActorView {
    match a.collider {
        Some(c) => ActorView { collider: Some(ColliderView { collisions: list, ..c }), ..a },
        None => a,
    }
}

/// The actors after detection: each collider holds the overlap list of its
/// actor, and nothing else has changed.
pub open spec fn detected(actors: Seq<ActorView>) -> Seq<ActorView> {
    Seq::new(actors.len(), |i: int| with_collisions(actors[i], overlap_list(actors, actors[i])))
}

/// Decides whether `a` collides with `b`.
pub fn actors_collide(a: &Actor, b: &Actor) -> (hit: bool)
    ensures
        hit == collides(a@, b@),
{
    if a.entity == b.entity {
        return false;
    }
    let striker = a.player.is_some() || a.line.is_some() || a.point_marker.is_some();
    let victim = b.enemy.is_some() || b.bigfoot.is_some();
    if !striker || !victim {
        return false;
    }
    match (&a.collider, &b.collider) {
        (Some(ca), Some(cb)) => boxes_overlap(a.position, ca.size, b.position, cb.size),
        _ => false,
    }
}

/// Every handle among the overlaps of `a` belongs to another actor, one of
/// the first `count`, that `a` collides with.
pub proof fn lemma_overlaps_among_sound(actors: Seq<ActorView>, a: ActorView, count: nat, k: int)
    requires
        count <= actors.len(),
        0 <= k < overlaps_among(actors, a, count).len(),
    ensures
        overlaps_among(actors, a, count)[k] != a.entity,
        exists|j: int|
            0 <= j < count && #[trigger] actors[j].entity == overlaps_among(actors, a, count)[k]
                && collides(a, actors[j]),
    decreases count,
{
    let before = overlaps_among(actors, a, (count - 1) as nat);
    if k < before.len() {
        lemma_overlaps_among_sound(actors, a, (count - 1) as nat, k);
        let j = choose|j: int|
            0 <= j < count - 1 && #[trigger] actors[j].entity == before[k] && collides(
                a,
                actors[j],
            );
        assert(actors[j].entity == overlaps_among(actors, a, count)[k]);
    } else {
        assert(actors[count - 1].entity == overlaps_among(actors, a, count)[k]);
    }
}

/// Every one of the first `count` actors that `a` collides with has its
/// handle among the overlaps of `a`.
pub proof fn lemma_overlaps_among_complete(
    actors: Seq<ActorView>,
    a: ActorView,
    count: nat,
    j: int,
)
    requires
        count <= actors.len(),
        0 <= j < count,
        collides(a, actors[j]),
    ensures
        overlaps_among(actors, a, count).contains(actors[j].entity),
    decreases count,
{
    let before = overlaps_among(actors, a, (count - 1) as nat);
    let list = overlaps_among(actors, a, count);
    if j < count - 1 {
        lemma_overlaps_among_complete(actors, a, (count - 1) as nat, j);
        let k = choose|k: int| 0 <= k < before.len() && before[k] == actors[j].entity;
        assert(list[k] == actors[j].entity);
    } else {
        assert(list[list.len() - 1] == actors[j].entity);
    }
}

/// The actors while detection is under way: the first `done` of them hold
/// their new overlap lists, the others are untouched.
pub open spec fn detected_upto(actors: Seq<ActorView>, done: int) -> Seq<ActorView> {
    Seq::new(
        actors.len(),
        |i: int|
            if i < done {
                with_collisions(actors[i], overlap_list(actors, actors[i]))
            } else {
                actors[i]
            },
    )
}

/// Finds every collision among the actors of `world`.
///
/// Each collider's overlap list is replaced by the handles of the actors
/// that its owner collides with this tick; what it held before is dropped.
/// The returned events name, actor by actor, one event for each collision.
pub fn detect_collisions(world: &mut World) -> (events: Vec<CollisionEvent>)
    ensures
        final(world)@ == (WorldView { actors: detected(old(world)@.actors), ..old(world)@ }),
        events@ == collision_events(old(world)@.actors, old(world)@.actors.len()),
        old(world).wf() ==> final(world).wf(),
{
    let ghost before = world@.actors;
    let count = world.actors.len();
    let mut events: Vec<CollisionEvent> = Vec::new();
    let mut a: usize = 0;
    while a < count
        invariant
            a <= count,
            count == before.len(),
            world.actors.len() == count,
            world@ == (WorldView { actors: world@.actors, ..old(world)@ }),
            world@.actors == detected_upto(before, a as int),
            events@ == collision_events(before, a as nat),
        decreases count - a,
    {
        let ghost earlier = events@;
        let mut list: Vec<u64> = Vec::new();
        let mut b: usize = 0;
        while b < count
            invariant
                a < count,
                b <= count,
                count == before.len(),
                world.actors.len() == count,
                world@.actors == detected_upto(before, a as int),
                list@ == overlaps_among(before, before[a as int], b as nat),
                events@ == earlier + Seq::new(list@.len(), |k: int| event_of(before[a as int])),
            decreases count - b,
        {
            assert(collides(world@.actors[a as int], world@.actors[b as int]) == collides(
                before[a as int],
                before[b as int],
            ));
            if actors_collide(&world.actors[a], &world.actors[b]) {
                list.push(world.actors[b].entity);
                let event = if world.actors[a].player.is_some() {
                    CollisionEvent::Collision
                } else {
                    CollisionEvent::Damage(world.actors[a].entity)
                };
                events.push(event);
            }
            b += 1;
        }
        let ghost current = world@.actors;
        let ghost prior = world.actors@;
        match &mut world.actors[a].collider {
            Some(collider) => {
                collider.collisions = list;
            },
            None => {},
        }
        assert(world@.actors =~= detected_upto(before, a + 1)) by {
            assert forall|i: int| 0 <= i < count implies world@.actors[i] == detected_upto(
                before,
                a + 1,
            )[i] by {
                assert(current[i] == prior[i]@);
            }
        }
        a += 1;
    }
    proof {
        assert(detected_upto(before, count as int) =~= detected(before));
        if old(world).wf() {
            lemma_same_handles_wf(old(world)@, world@);
        }
    }
    events
}

} // verus!
