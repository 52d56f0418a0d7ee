//! Angle arithmetic on fixed-point degrees.
//!
//! Angles are whole microdegrees held in an `i64`: one full turn is
//! `FULL_TURN` units. Bearings are measured clockwise from north.
use vstd::prelude::*;
use vstd::arithmetic::div_mod::{lemma_add_mod_noop, lemma_mod_bound, lemma_mod_twice};

verus! {

/// Microdegrees in one degree.
pub const MICRODEGREES_PER_DEGREE: i64 = 1_000_000;

/// One full turn, 360 degrees, in microdegrees.
pub const FULL_TURN: i64 = 360_000_000;

/// The representative of `a` in `[0, FULL_TURN)` modulo a full turn.
pub open spec fn normalized(a: int) -> int {
    a % (FULL_TURN as int)
}

/// An angle that lies in `[0, FULL_TURN)`.
pub open spec fn is_normalized(a: int) -> bool {
    0 <= a < FULL_TURN as int
}

/// Normalizing is idempotent, and its result always lies in `[0, FULL_TURN)`.
pub proof fn lemma_normalize_idempotent(a: int)
    ensures
        is_normalized(normalized(a)),
        normalized(normalized(a)) == normalized(a),
{
    lemma_mod_bound(a, FULL_TURN as int);
    lemma_mod_twice(a, FULL_TURN as int);
}

/// An angle already in `[0, FULL_TURN)` is its own normal form.
pub proof fn lemma_normalized_fixed(a: int)
    requires
        is_normalized(a),
    ensures
        normalized(a) == a,
{
    vstd::arithmetic::div_mod::lemma_small_mod(a as nat, FULL_TURN as nat);
}

/// Brings any angle into `[0, FULL_TURN)` by whole turns, in constant time.
pub fn normalize_degrees(angle: i64) -> (r: i64)
    ensures
        r as int == normalized(angle as int),
        is_normalized(r as int),
{
    let m = angle % FULL_TURN;
    let r = if m < 0 { m + FULL_TURN } else { m };
    proof {
        lemma_mod_bound(angle as int, FULL_TURN as int);
        if angle >= 0 {
            assert(m == angle % FULL_TURN);
        } else {
            let p = (-angle) as int;
            let q = p % (FULL_TURN as int);
            lemma_mod_bound(p, FULL_TURN as int);
            assert(m as int == -q);
            // -p == -(p / F) * F - q, so when q > 0, angle % F == F - q
            let f = FULL_TURN as int;
            vstd::arithmetic::div_mod::lemma_fundamental_div_mod(p, f);
            if q == 0 {
                assert(angle as int == (-(p / f)) * f) by (nonlinear_arith)
                    requires p == f * (p / f) + q, q == 0, angle as int == -p;
                vstd::arithmetic::div_mod::lemma_mod_multiples_basic(-(p / f), f);
            } else {
                assert(angle as int == (-(p / f) - 1) * f + (f - q)) by (nonlinear_arith)
                    requires p == f * (p / f) + q, angle as int == -p;
                vstd::arithmetic::div_mod::lemma_fundamental_div_mod_converse(
                    angle as int, f, -(p / f) - 1, f - q);
            }
        }
    }
    r
}

/// True bearing from the angle of the offset `target - observer` measured
/// from north, that is `atan2(east, north)` in microdegrees.
pub fn true_bearing_deg(north_angle: i64) -> (r: i64)
    ensures
        r as int == normalized(north_angle as int),
        is_normalized(r as int),
{
    normalize_degrees(north_angle)
}

/// Bearing of a target relative to the observer's heading.
pub fn relative_bearing_deg(true_bearing: i64, own_heading: i64) -> (r: i64)
    requires
        is_normalized(true_bearing as int),
        is_normalized(own_heading as int),
    ensures
        r as int == normalized(true_bearing - own_heading),
        is_normalized(r as int),
{
    normalize_degrees(true_bearing - own_heading)
}

/// Turns an angle by a signed amount; the result is normalized.
pub fn turn_angle(angle: i64, delta: i64) -> (r: i64)
    requires
        is_normalized(angle as int),
    ensures
        r as int == normalized(angle + delta),
        is_normalized(r as int),
{
    let d = normalize_degrees(delta);
    let r = normalize_degrees(angle + d);
    proof {
        lemma_add_mod_noop(angle as int, delta as int, FULL_TURN as int);
        lemma_normalized_fixed(angle as int);
        lemma_add_mod_noop(angle as int, d as int, FULL_TURN as int);
        lemma_normalized_fixed(d as int);
    }
    r
}

} // verus!
