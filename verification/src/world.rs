//! Actors and the game session that owns them.

use crate::components::{
    Bigfoot, Collider, Cooldowns, CurrentGameState, Enemy, GameState, GameTimer, Health,
    Invulnerability, Lifetime, Line, MousePosition, Player, PointMarker, Points, Resettable,
    Score, Velocity,
};
use crate::geometry::{Position, Size};
use vstd::prelude::*;

verus! {

/// Time between two enemy spawns at the start of an episode.
pub const INITIAL_SPAWN_INTERVAL: u64 = 2_000_000_000;

/// The mathematical content of a [`Collider`].
pub struct ColliderView {
    pub size: Size,
    pub collisions: Seq<u64>,
}

impl View for Collider {
    type V = ColliderView;

    open spec fn view(&self) -> ColliderView {
        ColliderView { size: self.size, collisions: self.collisions@ }
    }
}

/// The view of an optional collider.
pub open spec fn collider_view(collider: Option<Collider>) -> Option<ColliderView> {
    match collider {
        Some(c) => Some(c@),
        None => None,
    }
}

/// A simulated body: a handle, a position and the components it carries.
/// A component that is absent is `None`.
#[derive(Clone, Debug)]
pub struct Actor {
    pub entity: u64,
    pub position: Position,
    pub collider: Option<Collider>,
    pub health: Option<Health>,
    pub velocity: Option<Velocity>,
    pub player: Option<Player>,
    pub enemy: Option<Enemy>,
    pub line: Option<Line>,
    pub point_marker: Option<PointMarker>,
    pub bigfoot: Option<Bigfoot>,
    pub lifetime: Option<Lifetime>,
    pub invulnerability: Option<Invulnerability>,
    pub cooldowns: Option<Cooldowns>,
    pub resettable: Option<Resettable>,
}

/// The mathematical content of an [`Actor`].
pub struct ActorView {
    pub entity: u64,
    pub position: Position,
    pub collider: Option<ColliderView>,
    pub health: Option<Health>,
    pub velocity: Option<Velocity>,
    pub player: Option<Player>,
    pub enemy: Option<Enemy>,
    pub line: Option<Line>,
    pub point_marker: Option<PointMarker>,
    pub bigfoot: Option<Bigfoot>,
    pub lifetime: Option<Lifetime>,
    pub invulnerability: Option<Invulnerability>,
    pub cooldowns: Option<Cooldowns>,
    pub resettable: Option<Resettable>,
}

impl View for Actor {
    type V = ActorView;

    open spec fn view(&self) -> ActorView {
        ActorView {
            entity: self.entity,
            position: self.position,
            collider: collider_view(self.collider),
            health: self.health,
            velocity: self.velocity,
            player: self.player,
            enemy: self.enemy,
            line: self.line,
            point_marker: self.point_marker,
            bigfoot: self.bigfoot,
            lifetime: self.lifetime,
            invulnerability: self.invulnerability,
            cooldowns: self.cooldowns,
            resettable: self.resettable,
        }
    }
}

/// An actor at `position` with the handle `entity` and no component.
pub open spec fn bare_actor(entity: u64, position: Position) -> ActorView {
    ActorView {
        entity,
        position,
        collider: None,
        health: None,
        velocity: None,
        player: None,
        enemy: None,
        line: None,
        point_marker: None,
        bigfoot: None,
        lifetime: None,
        invulnerability: None,
        cooldowns: None,
        resettable: None,
    }
}

/// A collider of the given size that has met nothing.
pub open spec fn fresh_collider(size: Size) -> ColliderView {
    ColliderView { size, collisions: Seq::empty() }
}

impl Actor {
    /// An actor at `position` that carries no component. Its handle is
    /// assigned when it enters a world.
    pub fn new(position: Position) -> (actor: Actor)
        ensures
            actor@ == bare_actor(0, position),
    {
        Actor {
            entity: 0,
            position,
            collider: None,
            health: None,
            velocity: None,
            player: None,
            enemy: None,
            line: None,
            point_marker: None,
            bigfoot: None,
            lifetime: None,
            invulnerability: None,
            cooldowns: None,
            resettable: None,
        }
    }
}

/// The views of a sequence of actors, in order.
pub open spec fn actor_views(actors: Seq<Actor>) -> Seq<ActorView> {
    Seq::new(actors.len(), |i: int| actors[i]@)
}

/// Whether some actor of `actors` has the handle `entity`.
pub open spec fn holds(actors: Seq<ActorView>, entity: u64) -> bool {
    exists|i: int| 0 <= i < actors.len() && #[trigger] actors[i].entity == entity
}

/// Whether `index` is the first place in `actors` at which an actor has the
/// handle `entity`.
pub open spec fn is_first_with(actors: Seq<ActorView>, entity: u64, index: int) -> bool {
    &&& 0 <= index < actors.len()
    &&& actors[index].entity == entity
    &&& forall|j: int| 0 <= j < index ==> (#[trigger] actors[j]).entity != entity
}

/// The index of the first actor of `actors` with the handle `entity`. In a
/// well-formed world it is the only one.
pub open spec fn index_of(actors: Seq<ActorView>, entity: u64) -> int {
    choose|i: int| is_first_with(actors, entity, i)
}

/// The index of an actor that the sequence holds is a place in it, the
/// actor there has the handle, and none before it has.
pub proof fn lemma_index_of(actors: Seq<ActorView>, entity: u64)
    requires
        holds(actors, entity),
    ensures
        is_first_with(actors, entity, index_of(actors, entity)),
{
    let some = choose|i: int| 0 <= i < actors.len() && #[trigger] actors[i].entity == entity;
    lemma_first_exists(actors, entity, some);
}

/// Below a place with the handle there is a first place with it.
proof fn lemma_first_exists(actors: Seq<ActorView>, entity: u64, upto: int)
    requires
        0 <= upto < actors.len(),
        actors[upto].entity == entity,
    ensures
        exists|i: int| is_first_with(actors, entity, i),
    decreases upto,
{
    if exists|j: int| 0 <= j < upto && (#[trigger] actors[j]).entity == entity {
        let j = choose|j: int| 0 <= j < upto && (#[trigger] actors[j]).entity == entity;
        lemma_first_exists(actors, entity, j);
    } else {
        assert(is_first_with(actors, entity, upto));
    }
}

/// Only one place is the first with a handle.
pub proof fn lemma_first_unique(actors: Seq<ActorView>, entity: u64, a: int, b: int)
    requires
        is_first_with(actors, entity, a),
        is_first_with(actors, entity, b),
    ensures
        a == b,
{
}

/// Whether no two actors of `actors` share a handle.
pub open spec fn distinct_handles(actors: Seq<ActorView>) -> bool {
    forall|i: int, j: int|
        0 <= i < actors.len() && 0 <= j < actors.len() && i != j ==> #[trigger] actors[i].entity
            != #[trigger] actors[j].entity
}

/// Whether the actor at `index` is the only one that carries the player tag.
pub open spec fn is_only_player(actors: Seq<ActorView>, index: int) -> bool {
    &&& 0 <= index < actors.len()
    &&& actors[index].player is Some
    &&& forall|j: int| 0 <= j < actors.len() && #[trigger] actors[j].player is Some ==> j == index
}

/// Whether exactly one actor carries the player tag.
pub open spec fn has_single_player(actors: Seq<ActorView>) -> bool {
    exists|i: int| is_only_player(actors, i)
}

/// The index of the only actor that carries the player tag.
pub open spec fn player_index(actors: Seq<ActorView>) -> int {
    choose|i: int| is_only_player(actors, i)
}

/// Changing one actor of a sequence changes one view of its views.
pub proof fn lemma_views_update(before: Seq<Actor>, after: Seq<Actor>, index: int)
    requires
        after.len() == before.len(),
        0 <= index < before.len(),
        forall|j: int| 0 <= j < before.len() && j != index ==> after[j] == before[j],
    ensures
        actor_views(after) == actor_views(before).update(index, after[index]@),
{
}

/// The game session: the actors and the counters of the running episode.
#[derive(Clone, Debug)]
pub struct World {
    pub actors: Vec<Actor>,
    pub next_entity: u64,
    pub score: Score,
    pub timer: GameTimer,
    pub state: CurrentGameState,
    pub mouse: MousePosition,
    pub points: Points,
    pub enemy_spawn_rate: u64,
}

/// The mathematical content of a [`World`].
pub struct WorldView {
    pub actors: Seq<ActorView>,
    pub next_entity: u64,
    pub score: Score,
    pub timer: GameTimer,
    pub state: CurrentGameState,
    pub mouse: MousePosition,
    pub points: Seq<Position>,
    pub enemy_spawn_rate: u64,
}

impl View for World {
    type V = WorldView;

    open spec fn view(&self) -> WorldView {
        WorldView {
            actors: actor_views(self.actors@),
            next_entity: self.next_entity,
            score: self.score,
            timer: self.timer,
            state: self.state,
            mouse: self.mouse,
            points: self.points.0@,
            enemy_spawn_rate: self.enemy_spawn_rate,
        }
    }
}

impl WorldView {
    /// Whether the world is well formed: handles are distinct and all of
    /// them were handed out by this world.
    pub open spec fn wf(self) -> bool {
        &&& distinct_handles(self.actors)
        &&& forall|i: int| 0 <= i < self.actors.len() ==> #[trigger] self.actors[i].entity
            < self.next_entity
    }

    /// The world after `actor` has entered it under the next free handle.
    /// A world that has no handle left stays as it is.
    pub open spec fn with_actor(self, actor: ActorView) -> WorldView {
        if self.next_entity < u64::MAX {
            WorldView {
                actors: self.actors.push(ActorView { entity: self.next_entity, ..actor }),
                next_entity: (self.next_entity + 1) as u64,
                ..self
            }
        } else {
            self
        }
    }
}

impl World {
    /// Whether the world is well formed.
    pub open spec fn wf(&self) -> bool {
        self@.wf()
    }

    /// An empty world in the running state.
    pub fn new() -> (world: World)
        ensures
            world.wf(),
            world@ == (WorldView {
                actors: Seq::empty(),
                next_entity: 0,
                score: Score { enemies_killed: 0 },
                timer: GameTimer(0),
                state: CurrentGameState { state: GameState::Running },
                mouse: MousePosition { x: 0, y: 0 },
                points: Seq::empty(),
                enemy_spawn_rate: INITIAL_SPAWN_INTERVAL,
            }),
    {
        let world = World {
            actors: Vec::new(),
            next_entity: 0,
            score: Score::new(),
            timer: GameTimer(0),
            state: CurrentGameState { state: GameState::Running },
            mouse: MousePosition { x: 0, y: 0 },
            points: Points(Vec::new()),
            enemy_spawn_rate: INITIAL_SPAWN_INTERVAL,
        };
        assert(world@.actors =~= Seq::empty());
        world
    }

    /// Puts `actor` into the world under the next free handle and returns
    /// that handle. A world that has no handle left stays as it is.
    pub fn spawn(&mut self, actor: Actor) -> (handle: Option<u64>)
        ensures
            old(self).wf() ==> final(self).wf(),
            final(self)@ == old(self)@.with_actor(actor@),
            handle == (if old(self).next_entity < u64::MAX {
                Some(old(self).next_entity)
            } else {
                None
            }),
    {
        if self.next_entity < u64::MAX {
            let entity = self.next_entity;
            let mut actor = actor;
            actor.entity = entity;
            self.actors.push(actor);
            self.next_entity = entity + 1;
            assert(self@.actors =~= old(self)@.actors.push(
                ActorView { entity, ..actor@ },
            ));
            Some(entity)
        } else {
            None
        }
    }

    /// Looks up the index of the first actor with the handle `entity`.
    pub fn find(&self, entity: u64) -> (found: Option<usize>)
        ensures
            found is Some == holds(self@.actors, entity),
            found matches Some(index) ==> index == index_of(self@.actors, entity) && index
                < self.actors.len() && self.actors[index as int].entity == entity,
    {
        let mut index: usize = 0;
        while index < self.actors.len()
            invariant
                index <= self.actors.len(),
                forall|j: int| 0 <= j < index ==> (#[trigger] self@.actors[j]).entity != entity,
            decreases self.actors.len() - index,
        {
            if self.actors[index].entity == entity {
                proof {
                    assert(self@.actors[index as int].entity == entity);
                    assert(is_first_with(self@.actors, entity, index as int));
                    lemma_first_unique(
                        self@.actors,
                        entity,
                        index as int,
                        index_of(self@.actors, entity),
                    );
                }
                return Some(index);
            }
            index += 1;
        }
        None
    }

    /// Looks up the index of the player: the only actor with the player tag.
    /// Without a player, or with several, there is none.
    pub fn single_player(&self) -> (found: Option<usize>)
        ensures
            found is Some == has_single_player(self@.actors),
            found matches Some(index) ==> index == player_index(self@.actors) && index
                < self.actors.len(),
    {
        let mut found: Option<usize> = None;
        let mut several = false;
        let mut index: usize = 0;
        while index < self.actors.len()
            invariant
                index <= self.actors.len(),
                found matches Some(at) ==> at < index && self@.actors[at as int].player is Some,
                found is None ==> !several && forall|j: int|
                    0 <= j < index ==> (#[trigger] self@.actors[j]).player is None,
                !several && found is Some ==> forall|j: int|
                    0 <= j < index && (#[trigger] self@.actors[j]).player is Some ==> j
                        == found->0,
                several ==> exists|j: int, k: int|
                    0 <= j < k < index && (#[trigger] self@.actors[j]).player is Some && (
                    #[trigger] self@.actors[k]).player is Some,
            decreases self.actors.len() - index,
        {
            if self.actors[index].player.is_some() {
                assert(self@.actors[index as int].player is Some);
                if found.is_some() {
                    several = true;
                } else {
                    found = Some(index);
                }
            }
            index += 1;
        }
        if several {
            proof {
                let (j, k) = choose|j: int, k: int|
                    0 <= j < k < index && (#[trigger] self@.actors[j]).player is Some && (
                    #[trigger] self@.actors[k]).player is Some;
                if has_single_player(self@.actors) {
                    let only = player_index(self@.actors);
                    assert(j == only && k == only);
                }
            }
            None
        } else {
            match found {
                Some(at) => {
                    proof {
                        assert(is_only_player(self@.actors, at as int));
                    }
                    Some(at)
                },
                None => {
                    proof {
                        if has_single_player(self@.actors) {
                            let only = player_index(self@.actors);
                            assert(self@.actors[only].player is Some);
                        }
                    }
                    None
                },
            }
        }
    }
}

/// Those among the first `count` actors that are not doomed, in order.
pub open spec fn survivors(actors: Seq<ActorView>, doomed: Seq<bool>, count: nat) -> Seq<
    ActorView,
>
    decreases count,
{
    if count == 0 {
        Seq::empty()
    } else {
        let before = survivors(actors, doomed, (count - 1) as nat);
        if doomed[count - 1] {
            before
        } else {
            before.push(actors[count - 1])
        }
    }
}

/// Every survivor is one of the first `count` actors and is not doomed.
pub proof fn lemma_survivors_sound(
    actors: Seq<ActorView>,
    doomed: Seq<bool>,
    count: nat,
    k: int,
)
    requires
        count <= actors.len(),
        0 <= k < survivors(actors, doomed, count).len(),
    ensures
        exists|i: int|
            0 <= i < count && !doomed[i] && survivors(actors, doomed, count)[k]
                == #[trigger] actors[i],
    decreases count,
{
    let before = survivors(actors, doomed, (count - 1) as nat);
    if k < before.len() {
        lemma_survivors_sound(actors, doomed, (count - 1) as nat, k);
        let i = choose|i: int|
            0 <= i < count - 1 && !doomed[i] && before[k] == #[trigger] actors[i];
        assert(survivors(actors, doomed, count)[k] == actors[i]);
    } else {
        assert(survivors(actors, doomed, count)[k] == actors[count - 1]);
    }
}

/// Every one of the first `count` actors that is not doomed survives.
pub proof fn lemma_survivors_complete(
    actors: Seq<ActorView>,
    doomed: Seq<bool>,
    count: nat,
    i: int,
)
    requires
        count <= actors.len(),
        0 <= i < count,
        !doomed[i],
    ensures
        survivors(actors, doomed, count).contains(actors[i]),
    decreases count,
{
    let before = survivors(actors, doomed, (count - 1) as nat);
    let all = survivors(actors, doomed, count);
    if i < count - 1 {
        lemma_survivors_complete(actors, doomed, (count - 1) as nat, i);
        let k = choose|k: int| 0 <= k < before.len() && before[k] == actors[i];
        assert(all[k] == actors[i]);
    } else {
        assert(all[all.len() - 1] == actors[i]);
    }
}

/// Among actors with distinct handles, an actor is still there after the
/// doomed were taken out exactly if it was not doomed.
pub proof fn lemma_survivors_hold(actors: Seq<ActorView>, doomed: Seq<bool>, i: int)
    requires
        distinct_handles(actors),
        0 <= i < actors.len(),
    ensures
        holds(survivors(actors, doomed, actors.len()), actors[i].entity) <==> !doomed[i],
{
    let left = survivors(actors, doomed, actors.len());
    if !doomed[i] {
        lemma_survivors_complete(actors, doomed, actors.len(), i);
        let k = choose|k: int| 0 <= k < left.len() && left[k] == actors[i];
        assert(left[k].entity == actors[i].entity);
    }
    if holds(left, actors[i].entity) {
        let k = choose|k: int|
            0 <= k < left.len() && #[trigger] left[k].entity == actors[i].entity;
        lemma_survivors_sound(actors, doomed, actors.len(), k);
        let j = choose|j: int|
            0 <= j < actors.len() && !doomed[j] && left[k] == #[trigger] actors[j];
        assert(actors[j].entity == actors[i].entity);
        assert(j == i);
    }
}

/// Takes the actors marked in `doomed` out of the world; the others keep
/// their order.
pub(crate) fn despawn_doomed(world: &mut World, doomed: &Vec<bool>)
    requires
        doomed.len() == old(world).actors.len(),
    ensures
        old(world).wf() ==> final(world).wf(),
        final(world)@ == (WorldView {
            actors: survivors(old(world)@.actors, doomed@, old(world)@.actors.len()),
            ..old(world)@
        }),
{
    let mut source: Vec<Actor> = Vec::new();
    std::mem::swap(&mut source, &mut world.actors);
    let ghost before = source@;
    let ghost views = actor_views(before);
    let mut index: usize = 0;
    for actor in it: source
        invariant
            index == it.index(),
            it.seq() == before,
            views == actor_views(before),
            doomed.len() == before.len(),
            old(world)@.actors == views,
            world@ == (WorldView { actors: world@.actors, ..old(world)@ }),
            world@.actors == survivors(views, doomed@, index as nat),
    {
        if !doomed[index] {
            world.actors.push(actor);
        }
        index += 1;
    }
    proof {
        if old(world).wf() {
            lemma_survivors_wf(old(world)@, doomed@, views.len());
        }
    }
}

/// Taking actors out of a well-formed world leaves it well formed.
pub proof fn lemma_survivors_wf(world: WorldView, doomed: Seq<bool>, count: nat)
    requires
        world.wf(),
        count <= world.actors.len(),
    ensures
        (WorldView { actors: survivors(world.actors, doomed, count), ..world }).wf(),
    decreases count,
{
    if count > 0 {
        lemma_survivors_wf(world, doomed, (count - 1) as nat);
        let before = survivors(world.actors, doomed, (count - 1) as nat);
        let all = survivors(world.actors, doomed, count);
        if !doomed[count - 1] {
            assert forall|x: int, y: int|
                0 <= x < all.len() && 0 <= y < all.len() && x != y implies (
            #[trigger] all[x]).entity != (#[trigger] all[y]).entity by {
                if x < before.len() && y < before.len() {
                } else if x < before.len() {
                    lemma_survivors_sound(world.actors, doomed, (count - 1) as nat, x);
                } else {
                    lemma_survivors_sound(world.actors, doomed, (count - 1) as nat, y);
                }
            }
        }
    }
}

/// The actors of which the first `done` were changed by `change`.
pub open spec fn changed_upto(
    before: Seq<ActorView>,
    change: spec_fn(ActorView) -> ActorView,
    done: int,
) -> Seq<ActorView> {
    Seq::new(
        before.len(),
        |i: int|
            if i < done {
                change(before[i])
            } else {
                before[i]
            },
    )
}

/// The actors after each was changed by `change`.
pub open spec fn each_changed(before: Seq<ActorView>, change: spec_fn(ActorView) -> ActorView)
    -> Seq<ActorView> {
    Seq::new(before.len(), |i: int| change(before[i]))
}

/// Changing the next actor extends the changed part by one.
pub proof fn lemma_changed_step(
    before: Seq<ActorView>,
    change: spec_fn(ActorView) -> ActorView,
    done: int,
    prior: Seq<Actor>,
    now: Seq<Actor>,
)
    requires
        0 <= done < before.len(),
        actor_views(prior) == changed_upto(before, change, done),
        now.len() == prior.len(),
        forall|j: int| 0 <= j < prior.len() && j != done ==> now[j] == prior[j],
        now[done]@ == change(before[done]),
    ensures
        actor_views(now) == changed_upto(before, change, done + 1),
        done + 1 == before.len() ==> actor_views(now) == each_changed(before, change),
{
    assert(actor_views(prior).len() == prior.len());
    lemma_views_update(prior, now, done);
}

/// A world whose actors keep their handles stays well formed.
pub proof fn lemma_same_handles_wf(before: WorldView, after: WorldView)
    requires
        before.wf(),
        after.actors.len() == before.actors.len(),
        after.next_entity == before.next_entity,
        forall|i: int|
            0 <= i < before.actors.len() ==> (#[trigger] after.actors[i]).entity
                == before.actors[i].entity,
    ensures
        after.wf(),
{
}

} // verus!
