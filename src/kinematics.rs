//! Moving bodies: position, heading and speed, advanced over a time step.
//!
//! Positions are millimetres (x east, y north), speeds milliknots, times
//! microseconds, headings microdegrees clockwise from north.
use vstd::prelude::*;
use crate::angle::{normalized, is_normalized, turn_angle};

verus! {

/// Scale of a direction component: `DIRECTION_UNIT` stands for 1.0.
pub const DIRECTION_UNIT: i32 = 1_000_000;

/// Metres in one nautical mile.
pub const METERS_PER_NAUTICAL_MILE: i128 = 1852;

/// Divisor that turns `milliknots * microseconds * direction` into
/// millimetres once multiplied by metres per nautical mile: 3600 seconds an
/// hour, 1000 milliknots a knot, 10^6 microseconds a second, 10^6 direction
/// units, 1000 millimetres a metre.
pub const DISPLACEMENT_DIVISOR: i128 = 3_600_000_000_000_000;

/// A point of the plane, in millimetres.
#[derive(Clone, Copy, Debug, PartialEq, Eq, Structural)]
pub struct Position {
    pub x: i64,
    pub y: i64,
}

impl Position {
    /// The vector from `self` to `to`, east then north, in millimetres.
    pub fn offset_to(&self, to: &Position) -> (r: (i128, i128))
        ensures
            r.0 == to.x - self.x,
            r.1 == to.y - self.y,
    {
        (to.x as i128 - self.x as i128, to.y as i128 - self.y as i128)
    }
}

/// A unit direction vector, each component scaled by `DIRECTION_UNIT`:
/// `east` is `sin(heading)`, `north` is `cos(heading)`.
#[derive(Clone, Copy, Debug, PartialEq, Eq, Structural)]
pub struct Direction {
    pub east: i32,
    pub north: i32,
}

impl Direction {
    pub open spec fn wf(self) -> bool {
        -DIRECTION_UNIT <= self.east <= DIRECTION_UNIT
        && -DIRECTION_UNIT <= self.north <= DIRECTION_UNIT
    }
}

/// Rust's integer division, which rounds toward zero.
pub open spec fn div_toward_zero(a: int, d: int) -> int {
    if a >= 0 { a / d } else { -((-a) / d) }
}

/// Distance in millimetres covered along one direction component at
/// `speed` milliknots during `dt` microseconds, rounded toward zero.
pub open spec fn displacement(speed: int, component: int, dt: int) -> int {
    div_toward_zero(
        speed * METERS_PER_NAUTICAL_MILE * dt * component,
        DISPLACEMENT_DIVISOR as int,
    )
}

/// Where a body at `pos` ends up after `dt` microseconds.
pub open spec fn advanced(pos: Position, speed: int, dir: Direction, dt: int) -> (int, int) {
    (pos.x + displacement(speed, dir.east as int, dt),
     pos.y + displacement(speed, dir.north as int, dt))
}

/// The advanced position is representable.
pub open spec fn advance_fits(pos: Position, speed: int, dir: Direction, dt: int) -> bool {
    i64::MIN <= advanced(pos, speed, dir, dt).0 <= i64::MAX
    && i64::MIN <= advanced(pos, speed, dir, dt).1 <= i64::MAX
}

proof fn lemma_displacement_bound(speed: u32, component: i32, dt: u32)
    requires
        -DIRECTION_UNIT <= component <= DIRECTION_UNIT,
    ensures
        -10_000_000_000_000 <= displacement(speed as int, component as int, dt as int)
            <= 10_000_000_000_000,
{
    let p = speed as int * 1852 * dt as int;
    assert(0 <= p <= 4_294_967_295 * 1852 * 4_294_967_295) by (nonlinear_arith)
        requires p == speed as int * 1852 * dt as int, speed <= 4_294_967_295u32, dt <= 4_294_967_295u32;
    let n = p * component as int;
    assert(-p * 1_000_000 <= n <= p * 1_000_000) by (nonlinear_arith)
        requires n == p * component as int, p >= 0, -1_000_000 <= component <= 1_000_000;
    assert(n == speed as int * METERS_PER_NAUTICAL_MILE * dt as int * component as int);
    let d = DISPLACEMENT_DIVISOR as int;
    if n >= 0 {
        assert(n / d <= 10_000_000_000_000) by (nonlinear_arith)
            requires 0 <= n <= 4_294_967_295 * 1852 * 4_294_967_295 * 1_000_000, d == 3_600_000_000_000_000;
        assert(n / d >= 0) by (nonlinear_arith) requires n >= 0, d > 0;
    } else {
        let m = -n;
        assert(m / d <= 10_000_000_000_000) by (nonlinear_arith)
            requires 0 <= m <= 4_294_967_295 * 1852 * 4_294_967_295 * 1_000_000, d == 3_600_000_000_000_000;
        assert(m / d >= 0) by (nonlinear_arith) requires m >= 0, d > 0;
    }
}

fn displacement_mm(speed: u32, component: i32, dt: u32) -> (r: i64)
    requires
        -DIRECTION_UNIT <= component <= DIRECTION_UNIT,
    ensures
        r as int == displacement(speed as int, component as int, dt as int),
{
    proof { lemma_displacement_bound(speed, component, dt); }
    let a: i128 = speed as i128 * METERS_PER_NAUTICAL_MILE;
    assert(0 <= a <= 4_294_967_295 * 1852) by (nonlinear_arith)
        requires a == speed as int * 1852, speed <= 4_294_967_295u32;
    assert(a * dt as int <= 4_294_967_295 * 1852 * 4_294_967_295) by (nonlinear_arith)
        requires 0 <= a <= 4_294_967_295 * 1852, dt <= 4_294_967_295u32;
    let p: i128 = a * dt as i128;
    assert(0 <= p <= 4_294_967_295 * 1852 * 4_294_967_295) by (nonlinear_arith)
        requires p == speed as int * 1852 * dt as int, speed <= 4_294_967_295u32, dt <= 4_294_967_295u32;
    let n: i128 = p * component as i128;
    assert(-p * 1_000_000 <= n <= p * 1_000_000) by (nonlinear_arith)
        requires n == p * component as int, p >= 0, -1_000_000 <= component <= 1_000_000;
    let q: i128 = n / DISPLACEMENT_DIVISOR;
    q as i64
}

/// Moves `pos` along `dir` at `speed_knots` (in milliknots) for `dt`
/// microseconds.
pub fn update_position(pos: &mut Position, speed_knots: u32, dir: Direction, dt: u32)
    requires
        dir.wf(),
        advance_fits(*old(pos), speed_knots as int, dir, dt as int),
    ensures
        (final(pos).x as int, final(pos).y as int)
            == advanced(*old(pos), speed_knots as int, dir, dt as int),
{
    let dx = displacement_mm(speed_knots, dir.east, dt);
    let dy = displacement_mm(speed_knots, dir.north, dt);
    pos.x = pos.x + dx;
    pos.y = pos.y + dy;
}

/// A moving entity: own-ship or a contact.
#[derive(Clone, Copy, Debug, PartialEq, Eq, Structural)]
pub struct Body {
    pub position: Position,
    /// Direction of travel, microdegrees clockwise from north.
    pub heading: i64,
    /// Speed through the water, milliknots.
    pub speed: u32,
}

impl Body {
    pub open spec fn wf(self) -> bool {
        is_normalized(self.heading as int)
    }

    /// A body with the given state; the heading is normalized.
    pub fn new(position: Position, heading: i64, speed: u32) -> (r: Body)
        ensures
            r.wf(),
            r.position == position,
            r.heading as int == normalized(heading as int),
            r.speed == speed,
    {
        Body { position, heading: crate::angle::normalize_degrees(heading), speed }
    }

    /// Adds a signed amount to the heading, keeping it in `[0, FULL_TURN)`.
    pub fn turn_by(&mut self, delta: i64)
        requires
            old(self).wf(),
        ensures
            final(self).wf(),
            final(self).heading as int == normalized(old(self).heading + delta),
            final(self).position == old(self).position,
            final(self).speed == old(self).speed,
    {
        self.heading = turn_angle(self.heading, delta);
    }

    /// Adds a signed amount to the speed; the speed never drops below zero.
    pub fn change_speed_by(&mut self, delta: i64)
        requires
            old(self).speed + delta <= u32::MAX,
        ensures
            final(self).speed as int == if old(self).speed + delta < 0 { 0 } else {
                old(self).speed + delta
            },
            final(self).position == old(self).position,
            final(self).heading == old(self).heading,
    {
        let sum: i64 = self.speed as i64 + delta;
        if sum < 0 {
            self.speed = 0;
        } else {
            self.speed = sum as u32;
        }
    }

    /// Advances the body along `dir`, which must point along its heading.
    pub fn advance(&mut self, dir: Direction, dt: u32)
        requires
            dir.wf(),
            advance_fits(old(self).position, old(self).speed as int, dir, dt as int),
        ensures
            (final(self).position.x as int, final(self).position.y as int)
                == advanced(old(self).position, old(self).speed as int, dir, dt as int),
            final(self).heading == old(self).heading,
            final(self).speed == old(self).speed,
    {
        update_position(&mut self.position, self.speed, dir, dt);
    }
}

} // verus!
