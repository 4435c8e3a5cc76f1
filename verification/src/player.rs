//! The player's abilities: the cooldown gate and the attack geometry that
//! each ability puts into the world.

use crate::components::{
    Ability, Collider, Cooldowns, Health, Invulnerability, Lifetime, Line, Player, PointMarker,
    Points, Velocity, ATTACK_LIFETIME, INVULNERABILITY_TIME,
};
use crate::geometry::{
    default_direction, direction, direction_between, displace, displaced, distance,
    distance_between, div_toward_zero, rotate, rotated, turn, turned, Direction, Position, Size,
    DIRECTION_SCALE, EIGHTH_TURN,
};
use crate::timing::Countdown;
use crate::world::{
    bare_actor, changed_upto, fresh_collider, has_single_player, holds, index_of, is_first_with,
    lemma_changed_step, lemma_first_unique, lemma_index_of, lemma_same_handles_wf,
    lemma_views_update, player_index, Actor, ActorView, World, WorldView,
};
use vstd::arithmetic::div_mod::lemma_fundamental_div_mod_converse;
use vstd::prelude::*;

verus! {

/// Length of the ranged beam.
pub const RANGED_LENGTH: u32 = 1_100_000;

/// Width of the ranged beam.
pub const RANGED_WIDTH: u32 = 100_000;

/// Width of the dash trail.
pub const DASH_WIDTH: u32 = 225_000;

/// Distance between two rings of sampled points.
pub const RADIUS_STEP: u32 = 10_000;

/// Rings of the melee wedge: radii from one step to 250 units.
pub const MELEE_RINGS: u32 = 25;

/// Points on each ring of the melee wedge: a quarter turn in angular steps.
pub const MELEE_POINTS_PER_RING: usize = 22;

/// Rings of the area burst: radii from zero to 300 units.
pub const AOE_RINGS: u32 = 31;

/// Points on each ring of the area burst: a full turn in angular steps.
pub const AOE_POINTS_PER_RING: usize = 87;

/// Health of a freshly spawned player.
pub const PLAYER_HEALTH: i32 = 500;

/// Side of the player's bounding box.
pub const PLAYER_SIZE: u32 = 112_500;

/// Height at which the player enters the world.
pub const PLAYER_START_Y: i32 = 117_500;

/// A rectangular attack volume of the given size centred on `center`.
pub open spec fn beam(center: Position, size: Size) -> ActorView {
    ActorView {
        line: Some(Line),
        collider: Some(fresh_collider(size)),
        lifetime: Some(Lifetime { timer: Countdown { remaining: ATTACK_LIFETIME } }),
        ..bare_actor(0, center)
    }
}

/// A point marker at `at`: a box without extent.
pub open spec fn marker(at: Position) -> ActorView {
    ActorView {
        point_marker: Some(PointMarker),
        collider: Some(fresh_collider(Size { width: 0, height: 0 })),
        lifetime: Some(Lifetime { timer: Countdown { remaining: ATTACK_LIFETIME } }),
        ..bare_actor(0, at)
    }
}

/// The player as it enters the world.
pub open spec fn new_player() -> ActorView {
    ActorView {
        player: Some(Player),
        collider: Some(fresh_collider(Size { width: PLAYER_SIZE, height: PLAYER_SIZE })),
        health: Some(Health { hp: PLAYER_HEALTH }),
        velocity: Some(Velocity { x: 0, y: 0 }),
        cooldowns: Some(Cooldowns::full()),
        ..bare_actor(0, Position { x: 0, y: PLAYER_START_Y })
    }
}

/// Puts the player into the world: full health, a bounding box, no velocity
/// and every ability recovering.
pub fn player_spawn_system(world: &mut World) -> (handle: Option<u64>)
    ensures
        old(world).wf() ==> final(world).wf(),
        final(world)@ == old(world)@.with_actor(new_player()),
        handle == (if old(world).next_entity < u64::MAX {
            Some(old(world).next_entity)
        } else {
            None
        }),
{
    let mut actor = Actor::new(Position { x: 0, y: PLAYER_START_Y });
    actor.player = Some(Player);
    actor.collider = Some(Collider::new(Size { width: PLAYER_SIZE, height: PLAYER_SIZE }));
    actor.health = Some(Health { hp: PLAYER_HEALTH });
    actor.velocity = Some(Velocity { x: 0, y: 0 });
    actor.cooldowns = Some(Cooldowns::new());
    world.spawn(actor)
}

/// Builds a rectangular attack volume.
fn make_beam(center: Position, size: Size) -> (actor: Actor)
    ensures
        actor@ == beam(center, size),
{
    let mut actor = Actor::new(center);
    actor.line = Some(Line);
    actor.collider = Some(Collider::new(size));
    actor.lifetime = Some(Lifetime { timer: Countdown::new(ATTACK_LIFETIME) });
    actor
}

/// Builds a point marker.
fn make_marker(at: Position) -> (actor: Actor)
    ensures
        actor@ == marker(at),
{
    let mut actor = Actor::new(at);
    actor.point_marker = Some(PointMarker);
    actor.collider = Some(Collider::new(Size { width: 0, height: 0 }));
    actor.lifetime = Some(Lifetime { timer: Countdown::new(ATTACK_LIFETIME) });
    actor
}

/// The world after the actor with the handle `caster` has fired the ranged
/// beam towards `target`: a beam of fixed length that starts at the caster
/// and is centred half its length along the facing direction. Without the
/// caster nothing changes.
pub open spec fn after_ranged(world: WorldView, caster: u64, target: Position) -> WorldView {
    if !holds(world.actors, caster) {
        world
    } else {
        let from = world.actors[index_of(world.actors, caster)].position;
        let center = displaced(from, direction_between(from, target), (RANGED_LENGTH / 2) as u32);
        world.with_actor(beam(center, Size { width: RANGED_LENGTH, height: RANGED_WIDTH }))
    }
}

/// Fires the ranged beam from the actor with the handle `caster` towards
/// `target`.
pub fn ranged_attack(world: &mut World, caster: u64, target: Position)
    ensures
        old(world).wf() ==> final(world).wf(),
        final(world)@ == after_ranged(old(world)@, caster, target),
{
    match world.find(caster) {
        None => {},
        Some(index) => {
            let from = world.actors[index].position;
            let center = displace(from, direction(from, target), RANGED_LENGTH / 2);
            let _ = world.spawn(
                make_beam(center, Size { width: RANGED_LENGTH, height: RANGED_WIDTH }),
            );
        },
    }
}

/// The point half way from `from` to `to`, rounded towards `from`.
pub open spec fn midpoint(from: Position, to: Position) -> Position {
    Position {
        x: (from.x + div_toward_zero(to.x - from.x, 2)) as i32,
        y: (from.y + div_toward_zero(to.y - from.y, 2)) as i32,
    }
}

/// The length of the dash trail from `from` to `to`: their distance, held
/// to the range of `u32`.
pub open spec fn trail_length(from: Position, to: Position) -> u32 {
    if distance_between(from, to) > u32::MAX {
        u32::MAX
    } else {
        distance_between(from, to) as u32
    }
}

/// The world after the actor with the handle `caster` has dashed to
/// `target`: a trail spans the way, the caster stands on the target and
/// holds a fresh invulnerability window. Without the caster nothing changes.
pub open spec fn after_dash(world: WorldView, caster: u64, target: Position) -> WorldView {
    if !holds(world.actors, caster) {
        world
    } else {
        let index = index_of(world.actors, caster);
        let from = world.actors[index].position;
        let trail = beam(
            midpoint(from, target),
            Size { width: trail_length(from, target), height: DASH_WIDTH },
        );
        let moved = ActorView {
            position: target,
            invulnerability: Some(
                Invulnerability { timer: Countdown { remaining: INVULNERABILITY_TIME } },
            ),
            ..world.actors[index]
        };
        (WorldView { actors: world.actors.update(index, moved), ..world }).with_actor(trail)
    }
}

/// Computes one coordinate of the point half way between two coordinates.
fn half_way(from: i32, to: i32) -> (middle: i32)
    ensures
        middle == from + div_toward_zero(to - from, 2),
{
    let gap: i64 = to as i64 - from as i64;
    let half: i64 = if gap >= 0 {
        gap / 2
    } else {
        -((-gap) / 2)
    };
    (from as i64 + half) as i32
}

/// Lets the actor with the handle `caster` dash to `target`.
pub fn dash_attack(world: &mut World, caster: u64, target: Position)
    ensures
        old(world).wf() ==> final(world).wf(),
        final(world)@ == after_dash(old(world)@, caster, target),
{
    match world.find(caster) {
        None => {},
        Some(index) => {
            let from = world.actors[index].position;
            let length = distance(from, target);
            let width: u32 = if length > u32::MAX as u64 {
                u32::MAX
            } else {
                length as u32
            };
            let center = Position { x: half_way(from.x, target.x), y: half_way(from.y, target.y) };
            let ghost prior = world.actors@;
            world.actors[index].invulnerability = Some(
                Invulnerability { timer: Countdown::new(INVULNERABILITY_TIME) },
            );
            world.actors[index].position = target;
            proof {
                lemma_views_update(prior, world.actors@, index as int);
            }
            let _ = world.spawn(make_beam(center, Size { width, height: DASH_WIDTH }));
        },
    }
}

/// The point with the number `k` of a polar grid around `center`.
///
/// The grid is made of rings whose radii grow by one radius step from
/// `first_radius`; on every ring lie `per_ring` points, the first in the
/// direction `first`, each next one an angular step further. The points are
/// numbered ring by ring.
pub open spec fn grid_point(
    center: Position,
    first: Direction,
    first_radius: int,
    per_ring: int,
    k: int,
) -> Position {
    displaced(
        center,
        turned(first, (k % per_ring) as nat),
        (first_radius + (k / per_ring) * RADIUS_STEP) as u32,
    )
}

/// The points of a polar grid of `rings` rings around `center`, ring by
/// ring.
pub open spec fn grid_points(
    center: Position,
    first: Direction,
    first_radius: int,
    rings: int,
    per_ring: int,
) -> Seq<Position> {
    Seq::new(
        (rings * per_ring) as nat,
        |k: int| grid_point(center, first, first_radius, per_ring, k),
    )
}

/// The direction in which the melee wedge starts when the caster faces
/// `facing`: an eighth of a turn clockwise of it.
pub open spec fn wedge_start(facing: Direction) -> Direction {
    rotated(facing, EIGHTH_TURN as int, -EIGHTH_TURN as int)
}

/// The points sampled by a melee attack from `from` towards `target`: a
/// quarter-turn wedge centred on the facing direction.
pub open spec fn melee_points(from: Position, target: Position) -> Seq<Position> {
    grid_points(
        from,
        wedge_start(direction_between(from, target)),
        RADIUS_STEP as int,
        MELEE_RINGS as int,
        MELEE_POINTS_PER_RING as int,
    )
}

/// The points sampled by an area burst around `from`: full circles.
pub open spec fn aoe_points(from: Position) -> Seq<Position> {
    grid_points(from, default_direction(), 0, AOE_RINGS as int, AOE_POINTS_PER_RING as int)
}

/// The world after a point marker has entered it at each of the first
/// `count` points of `points`, in order.
pub open spec fn with_markers(world: WorldView, points: Seq<Position>, count: nat) -> WorldView
    decreases count,
{
    if count == 0 {
        world
    } else {
        with_markers(world, points, (count - 1) as nat).with_actor(marker(points[count - 1]))
    }
}

/// The world after `points` were sampled: it remembers them and holds a
/// point marker at each.
pub open spec fn with_point_cloud(world: WorldView, points: Seq<Position>) -> WorldView {
    with_markers(WorldView { points, ..world }, points, points.len())
}

/// The world after the actor with the handle `caster` has swung towards
/// `target`. Without the caster nothing changes.
pub open spec fn after_melee(world: WorldView, caster: u64, target: Position) -> WorldView {
    if !holds(world.actors, caster) {
        world
    } else {
        let from = world.actors[index_of(world.actors, caster)].position;
        with_point_cloud(world, melee_points(from, target))
    }
}

/// The world after the actor with the handle `caster` has set off the area
/// burst. Without the caster nothing changes.
pub open spec fn after_aoe(world: WorldView, caster: u64) -> WorldView {
    if !holds(world.actors, caster) {
        world
    } else {
        let from = world.actors[index_of(world.actors, caster)].position;
        with_point_cloud(world, aoe_points(from))
    }
}

/// Computes the directions of the points of one ring.
fn ring_directions(first: Direction, per_ring: usize) -> (directions: Vec<Direction>)
    ensures
        directions@.len() == per_ring,
        forall|i: int| 0 <= i < per_ring ==> directions@[i] == turned(first, i as nat),
{
    let mut directions: Vec<Direction> = Vec::new();
    let mut facing = first;
    let mut i: usize = 0;
    while i < per_ring
        invariant
            i <= per_ring,
            directions@.len() == i,
            facing == turned(first, i as nat),
            forall|j: int| 0 <= j < i ==> directions@[j] == turned(first, j as nat),
        decreases per_ring - i,
    {
        directions.push(facing);
        facing = turn(facing);
        i += 1;
    }
    directions
}

/// Samples a polar grid around `center`.
fn sample_grid(
    center: Position,
    first: Direction,
    first_radius: u32,
    rings: u32,
    per_ring: usize,
) -> (points: Vec<Position>)
    requires
        0 < per_ring <= 1000,
        rings <= 1000,
        first_radius <= 1_000_000,
    ensures
        points@ == grid_points(
            center,
            first,
            first_radius as int,
            rings as int,
            per_ring as int,
        ),
{
    let directions = ring_directions(first, per_ring);
    let mut points: Vec<Position> = Vec::new();
    let mut ring: u32 = 0;
    while ring < rings
        invariant
            ring <= rings <= 1000,
            0 < per_ring <= 1000,
            first_radius <= 1_000_000,
            directions@.len() == per_ring,
            forall|i: int| 0 <= i < per_ring ==> directions@[i] == turned(first, i as nat),
            points@.len() == ring * per_ring,
            forall|k: int|
                0 <= k < points@.len() ==> points@[k] == grid_point(
                    center,
                    first,
                    first_radius as int,
                    per_ring as int,
                    k,
                ),
        decreases rings - ring,
    {
        let radius: u32 = first_radius + ring * RADIUS_STEP;
        let mut i: usize = 0;
        while i < per_ring
            invariant
                i <= per_ring,
                ring < rings <= 1000,
                0 < per_ring <= 1000,
                radius == first_radius + ring * RADIUS_STEP,
                directions@.len() == per_ring,
                forall|j: int| 0 <= j < per_ring ==> directions@[j] == turned(first, j as nat),
                points@.len() == ring * per_ring + i,
                forall|k: int|
                    0 <= k < points@.len() ==> points@[k] == grid_point(
                        center,
                        first,
                        first_radius as int,
                        per_ring as int,
                        k,
                    ),
            decreases per_ring - i,
        {
            proof {
                lemma_fundamental_div_mod_converse(
                    ring * per_ring + i,
                    per_ring as int,
                    ring as int,
                    i as int,
                );
            }
            points.push(displace(center, directions[i], radius));
            i += 1;
        }
        assert((ring + 1) * per_ring == ring * per_ring + per_ring) by (nonlinear_arith);
        ring += 1;
    }
    points
}

/// Stores `points` in the world and puts a point marker at each of them.
fn spawn_point_cloud(world: &mut World, points: Vec<Position>)
    ensures
        old(world).wf() ==> final(world).wf(),
        final(world)@ == with_point_cloud(old(world)@, points@),
{
    let ghost start = WorldView { points: points@, ..world@ };
    let ghost kept = world.points.0@;
    let mut k: usize = 0;
    while k < points.len()
        invariant
            k <= points.len(),
            old(world).wf() ==> world.wf(),
            world.points.0@ == kept,
            start == (WorldView { points: points@, ..old(world)@ }),
            (WorldView { points: points@, ..world@ }) == with_markers(start, points@, k as nat),
        decreases points.len() - k,
    {
        let _ = world.spawn(make_marker(points[k]));
        k += 1;
    }
    world.points = Points(points);
}

/// Lets the actor with the handle `caster` swing towards `target`: the
/// melee wedge is sampled and a point marker put at each sampled point.
pub fn melee_attack(world: &mut World, caster: u64, target: Position)
    ensures
        old(world).wf() ==> final(world).wf(),
        final(world)@ == after_melee(old(world)@, caster, target),
{
    match world.find(caster) {
        None => {},
        Some(index) => {
            let from = world.actors[index].position;
            let facing = direction(from, target);
            let start = rotate(facing, EIGHTH_TURN, -EIGHTH_TURN);
            let points = sample_grid(
                from,
                start,
                RADIUS_STEP,
                MELEE_RINGS,
                MELEE_POINTS_PER_RING,
            );
            spawn_point_cloud(world, points);
        },
    }
}

/// Lets the actor with the handle `caster` set off the area burst: full
/// circles around it are sampled and a point marker put at each sampled
/// point.
pub fn aoe_attack(world: &mut World, caster: u64)
    ensures
        old(world).wf() ==> final(world).wf(),
        final(world)@ == after_aoe(old(world)@, caster),
{
    match world.find(caster) {
        None => {},
        Some(index) => {
            let from = world.actors[index].position;
            let points = sample_grid(
                from,
                Direction { x: DIRECTION_SCALE, y: 0 },
                0,
                AOE_RINGS,
                AOE_POINTS_PER_RING,
            );
            spawn_point_cloud(world, points);
        },
    }
}

/// Whether the actor with the handle `caster` can use `ability` now: it is
/// in the world, tracks cooldowns, and the countdown of the ability is zero.
pub open spec fn can_activate(world: WorldView, ability: Ability, caster: u64) -> bool {
    &&& holds(world.actors, caster)
    &&& world.actors[index_of(world.actors, caster)].cooldowns matches Some(cooldowns)
    &&& cooldowns.remaining(ability) == 0
}

/// The world after the attack geometry of `ability` has entered it.
pub open spec fn after_attack(world: WorldView, ability: Ability, caster: u64, target: Position)
    -> WorldView {
    match ability {
        Ability::Ranged => after_ranged(world, caster, target),
        Ability::Dash => after_dash(world, caster, target),
        Ability::Attack => after_melee(world, caster, target),
        Ability::Aoe => after_aoe(world, caster),
    }
}

/// The world after the cooldown of `ability` of the actor with the handle
/// `caster` has started anew.
pub open spec fn after_cooldown_reset(world: WorldView, ability: Ability, caster: u64)
    -> WorldView {
    let index = index_of(world.actors, caster);
    let actor = world.actors[index];
    WorldView {
        actors: world.actors.update(
            index,
            ActorView { cooldowns: Some(actor.cooldowns->0.after_reset(ability)), ..actor },
        ),
        ..world
    }
}

/// The world after the actor with the handle `caster` has used `ability`
/// towards `target`: the attack geometry is in the world and the ability
/// recovers from its full recovery time.
pub open spec fn after_activation(
    world: WorldView,
    ability: Ability,
    caster: u64,
    target: Position,
) -> WorldView {
    after_cooldown_reset(after_attack(world, ability, caster, target), ability, caster)
}

/// Every attack leaves the actors that were there in place, with their
/// handles and cooldowns, and only adds actors behind them.
pub proof fn lemma_attack_keeps_actors(
    world: WorldView,
    ability: Ability,
    caster: u64,
    target: Position,
)
    ensures
        after_attack(world, ability, caster, target).actors.len() >= world.actors.len(),
        forall|i: int|
            0 <= i < world.actors.len() ==> {
                &&& (#[trigger] after_attack(world, ability, caster, target).actors[i]).entity
                    == world.actors[i].entity
                &&& after_attack(world, ability, caster, target).actors[i].cooldowns
                    == world.actors[i].cooldowns
            },
{
    if holds(world.actors, caster) {
        lemma_index_of(world.actors, caster);
        let from = world.actors[index_of(world.actors, caster)].position;
        match ability {
            Ability::Attack => {
                let points = melee_points(from, target);
                lemma_markers_keep_actors(
                    WorldView { points, ..world },
                    points,
                    points.len(),
                );
            },
            Ability::Aoe => {
                let points = aoe_points(from);
                lemma_markers_keep_actors(
                    WorldView { points, ..world },
                    points,
                    points.len(),
                );
            },
            _ => {},
        }
    }
}

/// An attack leaves its caster where it was found, with its cooldowns.
pub proof fn lemma_caster_stays(world: WorldView, ability: Ability, caster: u64, target: Position)
    requires
        holds(world.actors, caster),
    ensures
        holds(after_attack(world, ability, caster, target).actors, caster),
        index_of(after_attack(world, ability, caster, target).actors, caster) == index_of(
            world.actors,
            caster,
        ),
        0 <= index_of(world.actors, caster) < world.actors.len(),
        after_attack(world, ability, caster, target).actors[index_of(
            world.actors,
            caster,
        )].cooldowns == world.actors[index_of(world.actors, caster)].cooldowns,
{
    let after = after_attack(world, ability, caster, target).actors;
    let index = index_of(world.actors, caster);
    lemma_index_of(world.actors, caster);
    lemma_attack_keeps_actors(world, ability, caster, target);
    assert(is_first_with(after, caster, index));
    lemma_index_of(after, caster);
    lemma_first_unique(after, caster, index, index_of(after, caster));
}

/// Point markers enter the world behind the actors that are there.
pub proof fn lemma_markers_keep_actors(world: WorldView, points: Seq<Position>, count: nat)
    ensures
        with_markers(world, points, count).actors.len() >= world.actors.len(),
        with_markers(world, points, count).actors.len() <= world.actors.len() + count,
        with_markers(world, points, count).next_entity < u64::MAX ==> with_markers(
            world,
            points,
            count,
        ).actors.len() == world.actors.len() + count,
        forall|i: int|
            0 <= i < world.actors.len() ==> #[trigger] with_markers(world, points, count).actors[i]
                == world.actors[i],
    decreases count,
{
    if count > 0 {
        lemma_markers_keep_actors(world, points, (count - 1) as nat);
    }
}

/// Lets the actor with the handle `caster` use `ability` towards `target`,
/// if the ability has recovered.
///
/// While the countdown of the ability is above zero, and where the caster is
/// missing or tracks no cooldowns, the request is dropped and the world stays
/// as it is. Otherwise the attack geometry of the ability enters the world
/// and the countdown starts again from the recovery time of the ability.
/// Returns whether the ability was used.
pub fn activate_ability(
    world: &mut World,
    ability: Ability,
    caster: u64,
    target: Position,
) -> (used: bool)
    ensures
        old(world).wf() ==> final(world).wf(),
        used == can_activate(old(world)@, ability, caster),
        final(world)@ == (if used {
            after_activation(old(world)@, ability, caster, target)
        } else {
            old(world)@
        }),
{
    let ready = match world.find(caster) {
        None => false,
        Some(index) => {
            match &world.actors[index].cooldowns {
                Some(cooldowns) => cooldowns.is_ready(ability),
                None => false,
            }
        },
    };
    if !ready {
        return false;
    }
    match ability {
        Ability::Ranged => ranged_attack(world, caster, target),
        Ability::Dash => dash_attack(world, caster, target),
        Ability::Attack => melee_attack(world, caster, target),
        Ability::Aoe => aoe_attack(world, caster),
    }
    proof {
        lemma_caster_stays(old(world)@, ability, caster, target);
    }
    match world.find(caster) {
        None => {},
        Some(index) => {
            let ghost prior = world.actors@;
            match &mut world.actors[index].cooldowns {
                Some(cooldowns) => {
                    cooldowns.reset(ability);
                },
                None => {},
            }
            proof {
                lemma_views_update(prior, world.actors@, index as int);
            }
        },
    }
    true
}

/// The abilities whose keys went down in this tick.
#[derive(Clone, Copy, Debug, PartialEq, Eq, Structural)]
pub struct AbilityKeys {
    pub ranged: bool,
    pub dash: bool,
    pub attack: bool,
    pub aoe: bool,
}

/// The ability asked for by the keys: only one is served in a tick, the
/// ranged beam before the dash, the dash before the melee swing, the swing
/// before the area burst.
pub open spec fn requested(keys: AbilityKeys) -> Option<Ability> {
    if keys.ranged {
        Some(Ability::Ranged)
    } else if keys.dash {
        Some(Ability::Dash)
    } else if keys.attack {
        Some(Ability::Attack)
    } else if keys.aoe {
        Some(Ability::Aoe)
    } else {
        None
    }
}

/// The pointer's position as a position of the world.
pub open spec fn pointer(world: WorldView) -> Position {
    Position { x: world.mouse.x, y: world.mouse.y }
}

/// The ability that the player uses in this tick, if any: the one asked
/// for, provided that there is exactly one player and that it can use it.
pub open spec fn served(world: WorldView, keys: AbilityKeys) -> Option<Ability> {
    match requested(keys) {
        Some(ability) => if has_single_player(world.actors) && can_activate(
            world,
            ability,
            world.actors[player_index(world.actors)].entity,
        ) {
            Some(ability)
        } else {
            None
        },
        None => None,
    }
}

/// The world after the abilities of a tick were dispatched.
pub open spec fn after_abilities(world: WorldView, keys: AbilityKeys) -> WorldView {
    match served(world, keys) {
        Some(ability) => after_activation(
            world,
            ability,
            world.actors[player_index(world.actors)].entity,
            pointer(world),
        ),
        None => world,
    }
}

/// Dispatches the ability keys of a tick: the player uses the ability asked
/// for, aimed at the pointer, if that ability has recovered. Returns the
/// ability that was used.
pub fn ability_system(world: &mut World, keys: AbilityKeys) -> (used: Option<Ability>)
    ensures
        old(world).wf() ==> final(world).wf(),
        used == served(old(world)@, keys),
        final(world)@ == after_abilities(old(world)@, keys),
{
    let ability = if keys.ranged {
        Ability::Ranged
    } else if keys.dash {
        Ability::Dash
    } else if keys.attack {
        Ability::Attack
    } else if keys.aoe {
        Ability::Aoe
    } else {
        return None;
    };
    match world.single_player() {
        None => None,
        Some(index) => {
            let caster = world.actors[index].entity;
            let target = Position { x: world.mouse.x, y: world.mouse.y };
            if activate_ability(world, ability, caster, target) {
                Some(ability)
            } else {
                None
            }
        },
    }
}

/// The movement keys that are held down.
#[derive(Clone, Copy, Debug, PartialEq, Eq, Structural)]
pub struct MoveKeys {
    pub left: bool,
    pub right: bool,
    pub up: bool,
    pub down: bool,
}

/// Distance that the player covers in one step of the simulation at full
/// velocity.
pub const PLAYER_STEP: u32 = 4_167;

/// The velocity asked for by the movement keys. Left wins over right and
/// down over up; sideways movement is halved while a vertical key is held.
pub open spec fn steering(keys: MoveKeys) -> Velocity {
    let sideways = if keys.up || keys.down {
        DIRECTION_SCALE / 2
    } else {
        DIRECTION_SCALE as int
    };
    Velocity {
        x: if keys.left {
            (-sideways) as i32
        } else if keys.right {
            sideways as i32
        } else {
            0
        },
        y: if keys.down {
            (-DIRECTION_SCALE) as i32
        } else if keys.up {
            DIRECTION_SCALE
        } else {
            0
        },
    }
}

/// The actors after the movement keys were read: the player, if there is
/// exactly one and it has a velocity, moves as the keys ask.
pub open spec fn steered(actors: Seq<ActorView>, keys: MoveKeys) -> Seq<ActorView> {
    if has_single_player(actors) && actors[player_index(actors)].velocity is Some {
        actors.update(
            player_index(actors),
            ActorView { velocity: Some(steering(keys)), ..actors[player_index(actors)] },
        )
    } else {
        actors
    }
}

/// Sets the velocity of the player from the movement keys.
pub fn player_keyboard_event_system(world: &mut World, keys: MoveKeys)
    ensures
        final(world)@ == (WorldView {
            actors: steered(old(world)@.actors, keys),
            ..old(world)@
        }),
        old(world).wf() ==> final(world).wf(),
{
    match world.single_player() {
        None => {},
        Some(index) => {
            if world.actors[index].velocity.is_some() {
                let sideways: i32 = if keys.up || keys.down {
                    DIRECTION_SCALE / 2
                } else {
                    DIRECTION_SCALE
                };
                let x: i32 = if keys.left {
                    -sideways
                } else if keys.right {
                    sideways
                } else {
                    0
                };
                let y: i32 = if keys.down {
                    -DIRECTION_SCALE
                } else if keys.up {
                    DIRECTION_SCALE
                } else {
                    0
                };
                let ghost prior = world.actors@;
                world.actors[index].velocity = Some(Velocity { x, y });
                proof {
                    lemma_views_update(prior, world.actors@, index as int);
                    if old(world).wf() {
                        lemma_same_handles_wf(old(world)@, world@);
                    }
                }
            }
        },
    }
}

/// The player `actor` moved one step along its velocity. An actor that is
/// no player or has no velocity stays where it is.
pub open spec fn stepped(actor: ActorView) -> ActorView {
    match actor.velocity {
        Some(velocity) => if actor.player is Some {
            ActorView {
                position: displaced(
                    actor.position,
                    Direction { x: velocity.x, y: velocity.y },
                    PLAYER_STEP,
                ),
                ..actor
            }
        } else {
            actor
        },
        None => actor,
    }
}

/// The actors after every player has moved one step.
pub open spec fn stepped_all(actors: Seq<ActorView>) -> Seq<ActorView> {
    Seq::new(actors.len(), |i: int| stepped(actors[i]))
}

/// Moves every actor with the player tag one step along its velocity.
pub fn player_movement_system(world: &mut World)
    ensures
        final(world)@ == (WorldView { actors: stepped_all(old(world)@.actors), ..old(world)@ }),
        old(world).wf() ==> final(world).wf(),
{
    let ghost before = world@.actors;
    let ghost change = |actor: ActorView| stepped(actor);
    let count = world.actors.len();
    let mut index: usize = 0;
    while index < count
        invariant
            index <= count,
            count == before.len(),
            world.actors.len() == count,
            change == (|actor: ActorView| stepped(actor)),
            world@ == (WorldView { actors: world@.actors, ..old(world)@ }),
            world@.actors == changed_upto(before, change, index as int),
        decreases count - index,
    {
        let ghost prior = world.actors@;
        assert(world@.actors[index as int] == prior[index as int]@);
        match world.actors[index].velocity {
            Some(velocity) => {
                if world.actors[index].player.is_some() {
                    world.actors[index].position = displace(
                        world.actors[index].position,
                        Direction { x: velocity.x, y: velocity.y },
                        PLAYER_STEP,
                    );
                }
            },
            None => {},
        }
        proof {
            lemma_changed_step(before, change, index as int, prior, world.actors@);
        }
        index += 1;
    }
    proof {
        assert(world@.actors =~= stepped_all(before));
        if old(world).wf() {
            lemma_same_handles_wf(old(world)@, world@);
        }
    }
}

} // verus!
