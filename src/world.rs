//! The simulated world: own-ship, its contacts, the clock and the bearing
//! histories, advanced one fixed tick at a time.
//!
//! A tick has two phases. `advance_tick` moves every body along the
//! direction of its heading; `observe` then takes, for each contact, the
//! angle of the offset from own-ship to it measured from north, and records
//! the relative bearing. The caller supplies the trigonometry for both.
use vstd::prelude::*;
use crate::angle::{normalized, normalize_degrees, relative_bearing_deg};
use crate::clock::SimulationClock;
use crate::history::{BearingRecord, pruned, age, lemma_pruned_within_window};
use crate::kinematics::{Body, Direction, Position, advanced, advance_fits};
use crate::tracker::{BearingTracker, TrackError, has_contact};

verus! {

/// Own-ship's turn rate, in microdegrees per second (60 degrees a second).
pub const TURN_RATE: i64 = 60_000_000;

/// Speed change of one speed command, in milliknots (5 knots).
pub const SPEED_STEP: i64 = 5_000;

/// Default length of a contact's position trail.
pub const DEFAULT_TRACK_CAPACITY: usize = 200;

/// Controls held or pressed during one frame.
#[derive(Clone, Copy, Debug, PartialEq, Eq, Structural)]
pub struct Controls {
    pub turn_left: bool,
    pub turn_right: bool,
    pub faster: bool,
    pub slower: bool,
}

/// A contact: its motion and its trail of past positions, oldest first.
pub struct Target {
    pub id: u32,
    pub body: Body,
    pub track_history: std::collections::VecDeque<Position>,
}

/// Appends `p` to a trail that keeps at most `cap` positions.
pub open spec fn trail_push(t: Seq<Position>, p: Position, cap: nat) -> Seq<Position> {
    if t.len() + 1 > cap { t.push(p).drop_first() } else { t.push(p) }
}

/// The position that `advanced` gives, as a `Position`.
pub open spec fn advanced_position(b: Body, dir: Direction, dt: int) -> Position {
    Position { x: advanced(b.position, b.speed as int, dir, dt).0 as i64,
               y: advanced(b.position, b.speed as int, dir, dt).1 as i64 }
}

/// The sample recorded for a contact seen at `north_angle` from own-ship.
pub open spec fn observed_record(now: u64, north_angle: int, own_heading: int) -> BearingRecord {
    BearingRecord {
        timestamp: now,
        relative_bearing: normalized(normalized(north_angle) - own_heading) as i64,
    }
}

impl Target {
    /// Moves the contact one step and extends its trail.
    pub fn advance(&mut self, dir: Direction, dt: u32, cap: usize)
        requires
            dir.wf(),
            cap >= 1,
            advance_fits(old(self).body.position, old(self).body.speed as int, dir, dt as int),
            old(self).track_history@.len() <= cap,
        ensures
            final(self).id == old(self).id,
            final(self).body.heading == old(self).body.heading,
            final(self).body.speed == old(self).body.speed,
            final(self).body.position == advanced_position(old(self).body, dir, dt as int),
            final(self).track_history@
                == trail_push(old(self).track_history@, final(self).body.position, cap as nat),
            final(self).track_history@.len() <= cap,
    {
        self.body.advance(dir, dt);
        self.track_history.push_back(self.body.position);
        if self.track_history.len() > cap {
            self.track_history.pop_front();
        }
    }
}

/// Everything the simulation holds. Contact `i` of `targets` owns entry `i`
/// of own-ship's tracker.
pub struct World {
    pub own_ship: Body,
    pub tracker: BearingTracker,
    pub targets: Vec<Target>,
    pub clock: SimulationClock,
    /// Simulation time, microseconds; grows by whole ticks.
    pub current_sim_time: u64,
    /// How long bearing samples are kept, microseconds.
    pub history_window: u64,
    /// How many past positions each contact's trail keeps.
    pub track_capacity: usize,
}

impl World {
    pub open spec fn wf(&self) -> bool {
        &&& self.clock.wf()
        &&& self.clock.time_step <= u32::MAX
        &&& self.own_ship.wf()
        &&& self.tracker.wf()
        &&& self.track_capacity >= 1
        &&& self.tracker@.len() == self.targets@.len()
        &&& forall|i: int| 0 <= i < self.targets@.len() ==> {
            &&& (#[trigger] self.targets@[i]).body.wf()
            &&& self.targets@[i].track_history@.len() <= self.track_capacity
            &&& self.tracker@[i].0 == self.targets@[i].id
        }
        &&& forall|i: int| 0 <= i < self.tracker@.len() ==>
            (#[trigger] self.tracker@[i]).1.len() == 0
            || self.tracker@[i].1.last().timestamp <= self.current_sim_time
    }

    /// Every sample in every history is at most `history_window` old.
    pub open spec fn within_window(&self) -> bool {
        forall|i: int, k: int| 0 <= i < self.tracker@.len() && 0 <= k < self.tracker@[i].1.len()
            ==> age(#[trigger] self.tracker@[i].1[k], self.current_sim_time) <= self.history_window
    }

    /// A world at time zero with own-ship alone.
    pub fn new(own_ship: Body, time_step: u64, history_window: u64, track_capacity: usize) -> (r: World)
        requires
            own_ship.wf(),
            0 < time_step <= u32::MAX,
            track_capacity >= 1,
        ensures
            r.wf(),
            r.within_window(),
            r.own_ship == own_ship,
            r.targets@.len() == 0,
            r.tracker@.len() == 0,
            r.clock.time_step == time_step,
            r.clock.accumulated == 0,
            r.current_sim_time == 0,
            r.history_window == history_window,
            r.track_capacity == track_capacity,
    {
        World {
            own_ship,
            tracker: BearingTracker::new(),
            targets: Vec::new(),
            clock: SimulationClock::new(time_step),
            current_sim_time: 0,
            history_window,
            track_capacity,
        }
    }

    /// Adds a contact with an empty trail and an empty bearing history.
    pub fn add_target(&mut self, id: u32, body: Body) -> (r: Result<(), TrackError>)
        requires
            old(self).wf(),
            body.wf(),
        ensures
            final(self).wf(),
            r is Err <==> has_contact(old(self).tracker@, id),
            r matches Err(e) ==> e == TrackError::DuplicateContact,
            r is Err ==> final(self).targets@ == old(self).targets@
                && final(self).tracker@ == old(self).tracker@,
            r is Ok ==> final(self).targets@.len() == old(self).targets@.len() + 1
                && final(self).targets@.last().id == id
                && final(self).targets@.last().body == body
                && final(self).targets@.last().track_history@.len() == 0
                && final(self).tracker@ == old(self).tracker@.push((id, Seq::<BearingRecord>::empty())),
            final(self).own_ship == old(self).own_ship,
            final(self).current_sim_time == old(self).current_sim_time,
            final(self).within_window() == old(self).within_window(),
    {
        let r = self.tracker.register(id);
        if r.is_ok() {
            self.targets.push(Target { id, body, track_history: std::collections::VecDeque::new() });
            assert forall|i: int| 0 <= i < self.targets@.len() implies {
                &&& (#[trigger] self.targets@[i]).body.wf()
                &&& self.targets@[i].track_history@.len() <= self.track_capacity
                &&& self.tracker@[i].0 == self.targets@[i].id
            } by {
                if i < old(self).targets@.len() {
                    assert(self.targets@[i] == old(self).targets@[i]);
                    assert(self.tracker@[i] == old(self).tracker@[i]);
                }
            }
            assert forall|i: int| 0 <= i < self.tracker@.len() implies
                (#[trigger] self.tracker@[i]).1.len() == 0
                || self.tracker@[i].1.last().timestamp <= self.current_sim_time by {
                if i < old(self).tracker@.len() {
                    assert(self.tracker@[i] == old(self).tracker@[i]);
                }
            }
            assert(self.within_window() == old(self).within_window()) by {
                if old(self).within_window() {
                    assert forall|i: int, k: int| 0 <= i < self.tracker@.len() && 0 <= k < self.tracker@[i].1.len()
                        implies age(#[trigger] self.tracker@[i].1[k], self.current_sim_time) <= self.history_window by {
                        assert(self.tracker@[i] == old(self).tracker@[i]);
                    }
                }
                if self.within_window() {
                    assert forall|i: int, k: int| 0 <= i < old(self).tracker@.len() && 0 <= k < old(self).tracker@[i].1.len()
                        implies age(#[trigger] old(self).tracker@[i].1[k], self.current_sim_time) <= self.history_window by {
                        assert(self.tracker@[i] == old(self).tracker@[i]);
                    }
                }
            }
        }
        r
    }

    /// Adds a frame's real elapsed time (microseconds) to the clock and
    /// returns how many whole ticks are due; each is then run by
    /// `advance_tick` followed by `observe`, in order.
    pub fn due_ticks(&mut self, real_dt: u64) -> (count: u64)
        requires
            old(self).wf(),
            old(self).clock.accumulated + real_dt <= u64::MAX,
        ensures
            final(self).wf(),
            count == (old(self).clock.accumulated + real_dt) / (old(self).clock.time_step as int),
            final(self).clock.accumulated
                == (old(self).clock.accumulated + real_dt) % (old(self).clock.time_step as int),
            final(self).clock.time_step == old(self).clock.time_step,
            final(self).own_ship == old(self).own_ship,
            final(self).targets@ == old(self).targets@,
            final(self).tracker@ == old(self).tracker@,
            final(self).current_sim_time == old(self).current_sim_time,
            final(self).history_window == old(self).history_window,
            final(self).track_capacity == old(self).track_capacity,
    {
        self.clock.accumulate(real_dt);
        self.clock.consume_ticks()
    }

    /// Applies one frame of controls to own-ship: a held turn control turns
    /// it at `TURN_RATE` for `frame_dt` microseconds, a pressed speed control
    /// changes its speed by `SPEED_STEP`, never below zero.
    pub fn handle_input(&mut self, controls: Controls, frame_dt: u32)
        requires
            old(self).wf(),
            controls.faster ==> old(self).own_ship.speed + SPEED_STEP <= u32::MAX,
        ensures
            final(self).wf(),
            final(self).own_ship.heading as int == normalized(
                old(self).own_ship.heading
                    - (if controls.turn_left { TURN_RATE / 1_000_000 * frame_dt } else { 0 })
                    + (if controls.turn_right { TURN_RATE / 1_000_000 * frame_dt } else { 0 })),
            final(self).own_ship.speed as int == {
                let up = if controls.faster { old(self).own_ship.speed + SPEED_STEP } else { old(self).own_ship.speed as int };
                if controls.slower { if up - SPEED_STEP < 0 { 0 } else { up - SPEED_STEP } } else { up }
            },
            final(self).own_ship.position == old(self).own_ship.position,
            final(self).targets@ == old(self).targets@,
            final(self).tracker@ == old(self).tracker@,
            final(self).current_sim_time == old(self).current_sim_time,
            final(self).clock == old(self).clock,
            final(self).history_window == old(self).history_window,
            final(self).track_capacity == old(self).track_capacity,
    {
        let turn: i64 = TURN_RATE / 1_000_000 * frame_dt as i64;
        let ghost h0 = self.own_ship.heading as int;
        if controls.turn_left {
            self.own_ship.turn_by(-turn);
        }
        let ghost h1 = self.own_ship.heading as int;
        if controls.turn_right {
            self.own_ship.turn_by(turn);
        }
        proof {
            let f = crate::angle::FULL_TURN as int;
            let l = if controls.turn_left { turn as int } else { 0 };
            let r = if controls.turn_right { turn as int } else { 0 };
            if controls.turn_left {
                assert(h1 == normalized(h0 - l));
            } else {
                crate::angle::lemma_normalized_fixed(h0);
            }
            vstd::arithmetic::div_mod::lemma_add_mod_noop(h0 - l, r, f);
            crate::angle::lemma_normalize_idempotent(h0 - l);
            crate::angle::lemma_normalized_fixed(h1);
            crate::angle::lemma_normalized_fixed(r % f);
            vstd::arithmetic::div_mod::lemma_add_mod_noop(h1, r, f);
            if !controls.turn_right {
                crate::angle::lemma_normalized_fixed(h1);
            }
        }
        if controls.faster {
            self.own_ship.change_speed_by(SPEED_STEP);
        }
        if controls.slower {
            self.own_ship.change_speed_by(-SPEED_STEP);
        }
    }

    /// First phase of a tick: advances the simulation time by one step and
    /// moves own-ship and every contact along `own_dir` and `target_dirs`,
    /// the unit vectors of their headings; each contact's trail grows by its
    /// new position and drops its oldest beyond `track_capacity`.
    pub fn advance_tick(&mut self, own_dir: Direction, target_dirs: &Vec<Direction>)
        requires
            old(self).wf(),
            own_dir.wf(),
            target_dirs@.len() == old(self).targets@.len(),
            forall|i: int| 0 <= i < target_dirs@.len() ==> (#[trigger] target_dirs@[i]).wf(),
            old(self).current_sim_time + old(self).clock.time_step <= u64::MAX,
            advance_fits(old(self).own_ship.position, old(self).own_ship.speed as int, own_dir,
                old(self).clock.time_step as int),
            forall|i: int| 0 <= i < target_dirs@.len() ==> advance_fits(
                (#[trigger] old(self).targets@[i]).body.position, old(self).targets@[i].body.speed as int,
                target_dirs@[i], old(self).clock.time_step as int),
        ensures
            final(self).wf(),
            final(self).current_sim_time == old(self).current_sim_time + old(self).clock.time_step,
            final(self).own_ship.position
                == advanced_position(old(self).own_ship, own_dir, old(self).clock.time_step as int),
            final(self).own_ship.heading == old(self).own_ship.heading,
            final(self).own_ship.speed == old(self).own_ship.speed,
            final(self).targets@.len() == old(self).targets@.len(),
            forall|i: int| 0 <= i < final(self).targets@.len() ==> {
                let (t0, t1) = (old(self).targets@[i], #[trigger] final(self).targets@[i]);
                &&& t1.id == t0.id
                &&& t1.body.heading == t0.body.heading
                &&& t1.body.speed == t0.body.speed
                &&& t1.body.position == advanced_position(t0.body, target_dirs@[i],
                    old(self).clock.time_step as int)
                &&& t1.track_history@ == trail_push(t0.track_history@, t1.body.position,
                    old(self).track_capacity as nat)
            },
            final(self).tracker@ == old(self).tracker@,
            final(self).clock == old(self).clock,
            final(self).history_window == old(self).history_window,
            final(self).track_capacity == old(self).track_capacity,
    {
        let dt = self.clock.time_step;
        self.current_sim_time = self.current_sim_time + dt;
        self.own_ship.advance(own_dir, dt as u32);
        let ghost own_after = self.own_ship;
        let cap = self.track_capacity;
        let n = self.targets.len();
        let mut i: usize = 0;
        while i < n
            invariant
                n == self.targets@.len(),
                n == target_dirs@.len(),
                n == old(self).targets@.len(),
                i <= n,
                dt == self.clock.time_step,
                self.own_ship == own_after,
                self.history_window == old(self).history_window,
                self.current_sim_time == old(self).current_sim_time + dt,
                cap == self.track_capacity,
                self.track_capacity == old(self).track_capacity,
                self.clock == old(self).clock,
                self.wf(),
                self.tracker@ == old(self).tracker@,
                forall|k: int| 0 <= k < target_dirs@.len() ==> (#[trigger] target_dirs@[k]).wf(),
                forall|k: int| i <= k < n ==> #[trigger] self.targets@[k] == old(self).targets@[k],
                forall|k: int| i <= k < n ==> advance_fits(
                    (#[trigger] old(self).targets@[k]).body.position, old(self).targets@[k].body.speed as int,
                    target_dirs@[k], dt as int),
                forall|k: int| 0 <= k < i ==> {
                    let (t0, t1) = (old(self).targets@[k], #[trigger] self.targets@[k]);
                    &&& t1.id == t0.id
                    &&& t1.body.heading == t0.body.heading
                    &&& t1.body.speed == t0.body.speed
                    &&& t1.body.position == advanced_position(t0.body, target_dirs@[k], dt as int)
                    &&& t1.track_history@ == trail_push(t0.track_history@, t1.body.position, cap as nat)
                },
            decreases n - i,
        {
            let dir = target_dirs[i];
            assert(self.targets@[i as int].track_history@.len() <= cap);
            self.targets[i].advance(dir, dt as u32, cap);
            i = i + 1;
        }
    }

    /// Second phase of a tick: for each contact `i`, `north_angles[i]` is
    /// the angle of the offset from own-ship to it measured clockwise from
    /// north (`atan2(east, north)`), in microdegrees. Records the relative
    /// bearing at the current simulation time in its history, then drops the
    /// samples older than `history_window`.
    pub fn observe(&mut self, north_angles: &Vec<i64>)
        requires
            old(self).wf(),
            north_angles@.len() == old(self).targets@.len(),
        ensures
            final(self).wf(),
            final(self).within_window(),
            final(self).tracker@.len() == old(self).tracker@.len(),
            forall|i: int| 0 <= i < final(self).tracker@.len() ==> #[trigger] final(self).tracker@[i] == (
                old(self).tracker@[i].0,
                pruned(old(self).tracker@[i].1.push(observed_record(old(self).current_sim_time,
                    north_angles@[i] as int, old(self).own_ship.heading as int)),
                    old(self).current_sim_time, old(self).history_window),
            ),
            final(self).own_ship == old(self).own_ship,
            final(self).targets@ == old(self).targets@,
            final(self).clock == old(self).clock,
            final(self).current_sim_time == old(self).current_sim_time,
            final(self).history_window == old(self).history_window,
            final(self).track_capacity == old(self).track_capacity,
    {
        let now = self.current_sim_time;
        let window = self.history_window;
        let heading = self.own_ship.heading;
        let n = self.targets.len();
        let mut i: usize = 0;
        while i < n
            invariant
                n == self.targets@.len(),
                n == north_angles@.len(),
                n == self.tracker@.len(),
                n == old(self).tracker@.len(),
                i <= n,
                now == self.current_sim_time,
                window == self.history_window,
                heading == self.own_ship.heading,
                self.own_ship == old(self).own_ship,
                self.targets@ == old(self).targets@,
                self.clock == old(self).clock,
                self.current_sim_time == old(self).current_sim_time,
                self.history_window == old(self).history_window,
                self.track_capacity == old(self).track_capacity,
                self.wf(),
                forall|k: int| i <= k < n ==> #[trigger] self.tracker@[k] == old(self).tracker@[k],
                forall|k: int| 0 <= k < i ==> #[trigger] self.tracker@[k] == (
                    old(self).tracker@[k].0,
                    pruned(old(self).tracker@[k].1.push(observed_record(now, north_angles@[k] as int,
                        heading as int)), now, window),
                ),
                forall|k: int, j: int| 0 <= k < i && 0 <= j < self.tracker@[k].1.len()
                    ==> age(#[trigger] self.tracker@[k].1[j], now) <= window,
            decreases n - i,
        {
            let true_bearing = normalize_degrees(north_angles[i]);
            let rel = relative_bearing_deg(true_bearing, heading);
            let id = self.targets[i].id;
            let ghost t0 = self.tracker@;
            assert(self.tracker@[i as int].0 == id);
            assert(has_contact(self.tracker@, id));
            assert forall|k: int| 0 <= k < t0.len() && (#[trigger] t0[k]).0 == id
                implies t0[k].1.len() == 0 || t0[k].1.last().timestamp <= now by {
                assert(k == i);
            }
            let r1 = self.tracker.record(id, now, rel);
            assert(r1 is Ok);
            let ghost t1 = self.tracker@;
            assert(t1[i as int].0 == id);
            assert(has_contact(t1, id));
            let r2 = self.tracker.prune(id, now, window);
            assert(r2 is Ok);
            proof {
                let t2 = self.tracker@;
                let rec = BearingRecord { timestamp: now, relative_bearing: rel };
                assert(rec == observed_record(now, north_angles@[i as int] as int, heading as int));
                assert forall|k: int| 0 <= k < n && k != i implies #[trigger] t2[k] == t0[k] by {
                    assert(t0[k].0 != t0[i as int].0);
                }
                assert(t1[i as int] == (id, t0[i as int].1.push(rec)));
                assert(crate::history::records_wf(t1[i as int].1));
                lemma_pruned_within_window(t1[i as int].1, now, window);
                let s = t1[i as int].1;
                let ps = pruned(s, now, window);
                let kk = choose|kk: int| 0 <= kk <= s.len() && ps == s.subrange(kk, s.len() as int);
                if ps.len() > 0 {
                    assert(ps.last() == s.last());
                }
                assert(t2[i as int] == (id, ps));
                assert forall|k: int| 0 <= k < t2.len() implies
                    (#[trigger] t2[k]).1.len() == 0 || t2[k].1.last().timestamp <= self.current_sim_time by {
                    if k != i {
                        assert(t2[k] == t0[k]);
                    }
                }
                assert forall|k: int, j: int| 0 <= k < i + 1 && 0 <= j < t2[k].1.len()
                    implies age(#[trigger] t2[k].1[j], now) <= window by {
                    if k != i {
                        assert(t2[k] == t0[k]);
                    }
                }
            }
            i = i + 1;
        }
    }
}

} // verus!
