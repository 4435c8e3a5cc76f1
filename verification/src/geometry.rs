//! Integer geometry: positions, box sizes and the axis-aligned overlap test.

use vstd::prelude::*;

verus! {

/// Fixed-point steps per world unit: coordinates and lengths are counted in
/// thousandths of a unit.
pub const UNIT: i32 = 1000;

/// A point of the world, in thousandths of a unit.
#[derive(Clone, Copy, Debug, PartialEq, Eq, Structural)]
pub struct Position {
    pub x: i32,
    pub y: i32,
}

/// Width and height of an axis-aligned box, in thousandths of a unit.
#[derive(Clone, Copy, Debug, PartialEq, Eq, Structural)]
pub struct Size {
    pub width: u32,
    pub height: u32,
}

/// Twice the left edge of the box of size `size` centred on `center`.
///
/// Edges are kept doubled so that half of an odd width needs no rounding.
pub open spec fn min_x2(center: Position, size: Size) -> int {
    2 * center.x - size.width
}

/// Twice the right edge of the box of size `size` centred on `center`.
pub open spec fn max_x2(center: Position, size: Size) -> int {
    2 * center.x + size.width
}

/// Twice the lower edge of the box of size `size` centred on `center`.
pub open spec fn min_y2(center: Position, size: Size) -> int {
    2 * center.y - size.height
}

/// Twice the upper edge of the box of size `size` centred on `center`.
pub open spec fn max_y2(center: Position, size: Size) -> int {
    2 * center.y + size.height
}

/// Whether two boxes overlap: on both axes each box starts strictly before
/// the other one ends.
pub open spec fn overlaps(a: Position, a_size: Size, b: Position, b_size: Size) -> bool {
    &&& min_x2(a, a_size) < max_x2(b, b_size)
    &&& max_x2(a, a_size) > min_x2(b, b_size)
    &&& min_y2(a, a_size) < max_y2(b, b_size)
    &&& max_y2(a, a_size) > min_y2(b, b_size)
}

/// Decides whether the box of size `a_size` centred on `a` overlaps the box
/// of size `b_size` centred on `b`.
pub fn boxes_overlap(a: Position, a_size: Size, b: Position, b_size: Size) -> (hit: bool)
    ensures
        hit == overlaps(a, a_size, b, b_size),
{
    let a_min_x: i64 = 2 * (a.x as i64) - (a_size.width as i64);
    let a_max_x: i64 = 2 * (a.x as i64) + (a_size.width as i64);
    let a_min_y: i64 = 2 * (a.y as i64) - (a_size.height as i64);
    let a_max_y: i64 = 2 * (a.y as i64) + (a_size.height as i64);
    let b_min_x: i64 = 2 * (b.x as i64) - (b_size.width as i64);
    let b_max_x: i64 = 2 * (b.x as i64) + (b_size.width as i64);
    let b_min_y: i64 = 2 * (b.y as i64) - (b_size.height as i64);
    let b_max_y: i64 = 2 * (b.y as i64) + (b_size.height as i64);
    a_min_x < b_max_x && a_max_x > b_min_x && a_min_y < b_max_y && a_max_y > b_min_y
}

/// `value` held to the range of `i32`.
pub open spec fn clamp_coordinate(value: int) -> i32 {
    if value < i32::MIN {
        i32::MIN
    } else if value > i32::MAX {
        i32::MAX
    } else {
        value as i32
    }
}

/// The quotient of `numerator` by a positive `denominator`, rounded towards
/// zero.
pub open spec fn div_toward_zero(numerator: int, denominator: int) -> int {
    if numerator >= 0 {
        numerator / denominator
    } else {
        -((-numerator) / denominator)
    }
}

/// Whether `root` is the largest natural number whose square is at most `n`.
pub open spec fn is_floor_sqrt(n: nat, root: nat) -> bool {
    root * root <= n < (root + 1) * (root + 1)
}

/// The largest natural number whose square is at most `n`.
pub open spec fn floor_sqrt(n: nat) -> nat {
    choose|root: nat| is_floor_sqrt(n, root)
}

/// A number has only one floor square root.
pub proof fn lemma_floor_sqrt_unique(n: nat, a: nat, b: nat)
    requires
        is_floor_sqrt(n, a),
        is_floor_sqrt(n, b),
    ensures
        a == b,
{
    if a < b {
        assert((a + 1) * (a + 1) <= b * b) by (nonlinear_arith)
            requires
                a + 1 <= b,
        ;
    } else if b < a {
        assert((b + 1) * (b + 1) <= a * a) by (nonlinear_arith)
            requires
                b + 1 <= a,
        ;
    }
}

/// Computes the floor of the square root of `n` by bisection.
pub fn isqrt(n: u128) -> (root: u64)
    ensures
        root == floor_sqrt(n as nat),
        is_floor_sqrt(n as nat, root as nat),
{
    let mut low: u128 = 0;
    let mut high: u128 = 0x1_0000_0000_0000_0000;
    assert(high * high > n) by (nonlinear_arith)
        requires
            high == 0x1_0000_0000_0000_0000,
            n <= u128::MAX,
    ;
    while high - low > 1
        invariant
            low < high <= 0x1_0000_0000_0000_0000,
            low * low <= n < high * high,
        decreases high - low,
    {
        let middle: u128 = low + (high - low) / 2;
        assert(middle * middle <= 0xffff_ffff_ffff_ffff * 0xffff_ffff_ffff_ffff)
            by (nonlinear_arith)
            requires
                0 <= middle <= 0xffff_ffff_ffff_ffff,
        ;
        if middle * middle <= n {
            low = middle;
        } else {
            high = middle;
        }
    }
    proof {
        assert(is_floor_sqrt(n as nat, low as nat));
        lemma_floor_sqrt_unique(n as nat, low as nat, floor_sqrt(n as nat));
    }
    low as u64
}

/// Steps per unit length of a direction: its components are counted in
/// millionths.
pub const DIRECTION_SCALE: i32 = 1_000_000;

/// A direction in the plane, in millionths per axis. A direction of unit
/// length has components between minus one million and one million.
#[derive(Clone, Copy, Debug, PartialEq, Eq, Structural)]
pub struct Direction {
    pub x: i32,
    pub y: i32,
}

impl Direction {
    /// Whether both components lie within unit length.
    pub open spec fn wf(self) -> bool {
        &&& -DIRECTION_SCALE <= self.x <= DIRECTION_SCALE
        &&& -DIRECTION_SCALE <= self.y <= DIRECTION_SCALE
    }
}

/// The direction faced when there is nothing to aim at: along the x axis.
pub open spec fn default_direction() -> Direction {
    Direction { x: DIRECTION_SCALE, y: 0 }
}

/// The length of the vector `(dx, dy)`, rounded down.
pub open spec fn vector_length(dx: int, dy: int) -> nat {
    floor_sqrt((dx * dx + dy * dy) as nat)
}

/// The direction of the vector `(dx, dy)`: the vector divided by the floor
/// of its length, each component rounded towards zero. The zero vector faces
/// the default direction.
pub open spec fn normalized(dx: int, dy: int) -> Direction {
    let length = vector_length(dx, dy);
    if length == 0 {
        default_direction()
    } else {
        Direction {
            x: div_toward_zero(dx * DIRECTION_SCALE, length as int) as i32,
            y: div_toward_zero(dy * DIRECTION_SCALE, length as int) as i32,
        }
    }
}

/// The distance between two positions, rounded down.
pub open spec fn distance_between(from: Position, to: Position) -> nat {
    vector_length(to.x - from.x, to.y - from.y)
}

/// The direction that leads from `from` to `to`.
pub open spec fn direction_between(from: Position, to: Position) -> Direction {
    normalized(to.x - from.x, to.y - from.y)
}

/// The floor of a vector's length is at least the size of each component.
pub proof fn lemma_length_bounds(dx: int, dy: int)
    ensures
        vector_length(dx, dy) >= dx,
        vector_length(dx, dy) >= -dx,
        vector_length(dx, dy) >= dy,
        vector_length(dx, dy) >= -dy,
        vector_length(dx, dy) == 0 <==> (dx == 0 && dy == 0),
        is_floor_sqrt((dx * dx + dy * dy) as nat, vector_length(dx, dy)),
{
    let n = (dx * dx + dy * dy) as nat;
    assert(dx * dx >= 0 && dy * dy >= 0) by (nonlinear_arith);
    lemma_floor_sqrt_exists(n);
    let root = vector_length(dx, dy);
    assert(root >= dx && root >= -dx) by (nonlinear_arith)
        requires
            dx * dx <= n,
            n < (root + 1) * (root + 1),
    ;
    assert(root >= dy && root >= -dy) by (nonlinear_arith)
        requires
            dy * dy <= n,
            n < (root + 1) * (root + 1),
    ;
    if dx == 0 && dy == 0 {
        assert(root == 0) by (nonlinear_arith)
            requires
                root * root <= 0,
        ;
    }
}

/// Every natural number has a floor square root.
pub proof fn lemma_floor_sqrt_exists(n: nat)
    ensures
        is_floor_sqrt(n, floor_sqrt(n)),
    decreases n,
{
    if n == 0 {
        assert(0nat * 0nat == 0 && (0nat + 1) * (0nat + 1) == 1) by (nonlinear_arith);
        assert(is_floor_sqrt(0, 0));
    } else {
        lemma_floor_sqrt_exists((n - 1) as nat);
        let below = floor_sqrt((n - 1) as nat);
        if (below + 1) * (below + 1) <= n {
            assert(n < (below + 2) * (below + 2)) by (nonlinear_arith)
                requires
                    (below + 1) * (below + 1) == n,
            ;
            assert(is_floor_sqrt(n, below + 1));
        } else {
            assert(is_floor_sqrt(n, below));
        }
    }
}

/// Computes the square of the distance between two positions.
fn squared_distance(from: Position, to: Position) -> (square: u128)
    ensures
        square == (to.x - from.x) * (to.x - from.x) + (to.y - from.y) * (to.y - from.y),
{
    let dx: i128 = to.x as i128 - from.x as i128;
    let dy: i128 = to.y as i128 - from.y as i128;
    assert(0 <= dx * dx <= 0x1_0000_0000 * 0x1_0000_0000) by (nonlinear_arith)
        requires
            -0x1_0000_0000 <= dx <= 0x1_0000_0000,
    ;
    assert(0 <= dy * dy <= 0x1_0000_0000 * 0x1_0000_0000) by (nonlinear_arith)
        requires
            -0x1_0000_0000 <= dy <= 0x1_0000_0000,
    ;
    (dx * dx + dy * dy) as u128
}

/// Computes the distance between two positions, rounded down.
pub fn distance(from: Position, to: Position) -> (length: u64)
    ensures
        length == distance_between(from, to),
{
    isqrt(squared_distance(from, to))
}

/// Decides whether `to` lies within `radius` of `from`, the rim included.
pub fn within_radius(from: Position, to: Position, radius: u32) -> (inside: bool)
    ensures
        inside == ((to.x - from.x) * (to.x - from.x) + (to.y - from.y) * (to.y - from.y)
            <= radius * radius),
{
    let square = squared_distance(from, to);
    assert(0 <= radius * radius <= 0xffff_ffff * 0xffff_ffff) by (nonlinear_arith)
        requires
            0 <= radius <= 0xffff_ffff,
    ;
    square <= (radius as u128) * (radius as u128)
}

/// Divides `numerator` by a positive `denominator`, rounding towards zero.
fn divide(numerator: i128, denominator: i128) -> (quotient: i128)
    requires
        denominator > 0,
        numerator > i128::MIN,
    ensures
        quotient == div_toward_zero(numerator as int, denominator as int),
{
    if numerator >= 0 {
        numerator / denominator
    } else {
        let positive: i128 = -numerator;
        let magnitude: i128 = positive / denominator;
        assert(0 <= magnitude <= positive) by (nonlinear_arith)
            requires
                magnitude == positive / denominator,
                positive >= 0,
                denominator > 0,
        ;
        -magnitude
    }
}

/// Computes the direction that leads from `from` to `to`. Where the two
/// coincide the result is the default direction.
pub fn direction(from: Position, to: Position) -> (facing: Direction)
    ensures
        facing == direction_between(from, to),
        facing.wf(),
{
    let dx: i128 = to.x as i128 - from.x as i128;
    let dy: i128 = to.y as i128 - from.y as i128;
    let length: u64 = isqrt(squared_distance(from, to));
    proof {
        lemma_length_bounds(dx as int, dy as int);
    }
    if length == 0 {
        Direction { x: DIRECTION_SCALE, y: 0 }
    } else {
        let x = divide(dx * (DIRECTION_SCALE as i128), length as i128);
        let y = divide(dy * (DIRECTION_SCALE as i128), length as i128);
        proof {
            lemma_scaled_quotient(dx as int, length as int);
            lemma_scaled_quotient(dy as int, length as int);
        }
        Direction { x: x as i32, y: y as i32 }
    }
}

/// A component no longer than the whole vector scales to at most unit length.
proof fn lemma_scaled_quotient(component: int, length: int)
    requires
        length > 0,
        -length <= component <= length,
    ensures
        -DIRECTION_SCALE <= div_toward_zero(component * DIRECTION_SCALE, length)
            <= DIRECTION_SCALE,
{
    let scale = DIRECTION_SCALE as int;
    if component >= 0 {
        assert(0 <= (component * scale) / length <= scale) by (nonlinear_arith)
            requires
                0 <= component <= length,
                length > 0,
                scale == 1_000_000,
        ;
    } else {
        assert(0 <= (-(component * scale)) / length <= scale) by (nonlinear_arith)
            requires
                0 <= -component <= length,
                length > 0,
                scale == 1_000_000,
        ;
        assert(component * scale < 0) by (nonlinear_arith)
            requires
                component < 0,
                scale == 1_000_000,
        ;
    }
}

/// Cosine of one angular step of 0.0725 radians, in millionths.
pub const STEP_COS: i32 = 997_373;

/// Sine of one angular step of 0.0725 radians, in millionths.
pub const STEP_SIN: i32 = 72_437;

/// Sine and cosine of an eighth of a turn, in millionths.
pub const EIGHTH_TURN: i32 = 707_107;

/// `value` held to unit length.
pub open spec fn clamp_unit(value: int) -> i32 {
    if value < -DIRECTION_SCALE {
        (-DIRECTION_SCALE) as i32
    } else if value > DIRECTION_SCALE {
        DIRECTION_SCALE
    } else {
        value as i32
    }
}

/// The direction `facing` turned counter-clockwise by the angle whose cosine
/// and sine, in millionths, are `cos` and `sin`. Each component is rounded
/// towards zero and held to unit length.
pub open spec fn rotated(facing: Direction, cos: int, sin: int) -> Direction {
    Direction {
        x: clamp_unit(div_toward_zero(facing.x * cos - facing.y * sin, DIRECTION_SCALE as int)),
        y: clamp_unit(div_toward_zero(facing.x * sin + facing.y * cos, DIRECTION_SCALE as int)),
    }
}

/// The direction `facing` turned counter-clockwise by `steps` angular steps,
/// one step after the other.
pub open spec fn turned(facing: Direction, steps: nat) -> Direction
    decreases steps,
{
    if steps == 0 {
        facing
    } else {
        rotated(turned(facing, (steps - 1) as nat), STEP_COS as int, STEP_SIN as int)
    }
}

/// Holds `value` to unit length.
fn clamp_to_unit(value: i128) -> (held: i32)
    ensures
        held == clamp_unit(value as int),
        -DIRECTION_SCALE <= held <= DIRECTION_SCALE,
{
    if value < -(DIRECTION_SCALE as i128) {
        -DIRECTION_SCALE
    } else if value > DIRECTION_SCALE as i128 {
        DIRECTION_SCALE
    } else {
        value as i32
    }
}

/// Turns `facing` counter-clockwise by the angle whose cosine and sine, in
/// millionths, are `cos` and `sin`.
pub fn rotate(facing: Direction, cos: i32, sin: i32) -> (result: Direction)
    ensures
        result == rotated(facing, cos as int, sin as int),
        result.wf(),
{
    let fx: i128 = facing.x as i128;
    let fy: i128 = facing.y as i128;
    let c: i128 = cos as i128;
    let s: i128 = sin as i128;
    assert(-0x4000_0000_0000_0000 <= fx * c <= 0x4000_0000_0000_0000) by (nonlinear_arith)
        requires
            -0x8000_0000 <= fx <= 0x8000_0000,
            -0x8000_0000 <= c <= 0x8000_0000,
    ;
    assert(-0x4000_0000_0000_0000 <= fy * s <= 0x4000_0000_0000_0000) by (nonlinear_arith)
        requires
            -0x8000_0000 <= fy <= 0x8000_0000,
            -0x8000_0000 <= s <= 0x8000_0000,
    ;
    assert(-0x4000_0000_0000_0000 <= fx * s <= 0x4000_0000_0000_0000) by (nonlinear_arith)
        requires
            -0x8000_0000 <= fx <= 0x8000_0000,
            -0x8000_0000 <= s <= 0x8000_0000,
    ;
    assert(-0x4000_0000_0000_0000 <= fy * c <= 0x4000_0000_0000_0000) by (nonlinear_arith)
        requires
            -0x8000_0000 <= fy <= 0x8000_0000,
            -0x8000_0000 <= c <= 0x8000_0000,
    ;
    let x = divide(fx * c - fy * s, DIRECTION_SCALE as i128);
    let y = divide(fx * s + fy * c, DIRECTION_SCALE as i128);
    Direction { x: clamp_to_unit(x), y: clamp_to_unit(y) }
}

/// Turns `facing` counter-clockwise by one angular step.
pub fn turn(facing: Direction) -> (result: Direction)
    ensures
        result == rotated(facing, STEP_COS as int, STEP_SIN as int),
        result.wf(),
{
    rotate(facing, STEP_COS, STEP_SIN)
}

/// The length travelled along one axis when going `distance` in a direction
/// whose component on that axis is `component`, rounded towards zero.
pub open spec fn scaled(component: int, distance: int) -> int {
    div_toward_zero(component * distance, DIRECTION_SCALE as int)
}

/// The position reached from `start` by going `distance` along `facing`.
/// Coordinates stop at the bounds of `i32`.
pub open spec fn displaced(start: Position, facing: Direction, distance: u32) -> Position {
    Position {
        x: clamp_coordinate(start.x + scaled(facing.x as int, distance as int)),
        y: clamp_coordinate(start.y + scaled(facing.y as int, distance as int)),
    }
}

/// Holds `value` to the range of `i32`.
fn clamp_to_coordinate(value: i128) -> (held: i32)
    ensures
        held == clamp_coordinate(value as int),
{
    if value < i32::MIN as i128 {
        i32::MIN
    } else if value > i32::MAX as i128 {
        i32::MAX
    } else {
        value as i32
    }
}

/// Moves one coordinate by `distance` along a direction component.
fn displace_axis(start: i32, component: i32, distance: u32) -> (end: i32)
    ensures
        end == clamp_coordinate(start + scaled(component as int, distance as int)),
{
    let c: i128 = component as i128;
    let d: i128 = distance as i128;
    assert(-0x8000_0000_0000_0000 <= c * d <= 0x8000_0000_0000_0000) by (nonlinear_arith)
        requires
            -0x8000_0000 <= c <= 0x8000_0000,
            0 <= d <= 0x1_0000_0000,
    ;
    let step = divide(c * d, DIRECTION_SCALE as i128);
    clamp_to_coordinate(start as i128 + step)
}

/// Computes the position reached from `start` by going `distance` along
/// `facing`.
pub fn displace(start: Position, facing: Direction, distance: u32) -> (end: Position)
    ensures
        end == displaced(start, facing, distance),
{
    Position {
        x: displace_axis(start.x, facing.x, distance),
        y: displace_axis(start.y, facing.y, distance),
    }
}

} // verus!
