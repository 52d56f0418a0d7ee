use bearing_sim::angle::{normalize_degrees, relative_bearing_deg, true_bearing_deg, turn_angle, FULL_TURN};
use bearing_sim::clock::SimulationClock;
use bearing_sim::history::{is_wraparound, segments_between, BearingHistory, BearingRecord, PlotSegment, WRAP_THRESHOLD};
use bearing_sim::kinematics::{update_position, Body, Direction, Position, DIRECTION_UNIT};
use bearing_sim::tracker::{BearingTracker, TrackError};
use bearing_sim::world::{Controls, World, DEFAULT_TRACK_CAPACITY};

const DEG: i64 = 1_000_000;

fn north_angle(from: &Position, to: &Position) -> i64 {
    let (dx, dy) = from.offset_to(to);
    ((dx as f64).atan2(dy as f64).to_degrees() * 1e6).round() as i64
}

fn direction(heading: i64) -> Direction {
    let rad = (heading as f64 / 1e6).to_radians();
    Direction {
        east: (rad.sin() * DIRECTION_UNIT as f64).round() as i32,
        north: (rad.cos() * DIRECTION_UNIT as f64).round() as i32,
    }
}

fn no_controls() -> Controls {
    Controls { turn_left: false, turn_right: false, faster: false, slower: false }
}

#[test]
fn normalize_brings_angles_into_range() {
    assert_eq!(normalize_degrees(0), 0);
    assert_eq!(normalize_degrees(FULL_TURN), 0);
    assert_eq!(normalize_degrees(-1), FULL_TURN - 1);
    assert_eq!(normalize_degrees(-90 * DEG), 270 * DEG);
    assert_eq!(normalize_degrees(725 * DEG), 5 * DEG);
    assert_eq!(normalize_degrees(-720 * DEG), 0);
    let big = normalize_degrees(i64::MIN);
    assert!(big >= 0 && big < FULL_TURN);
    assert_eq!(normalize_degrees(i64::MAX), i64::MAX % FULL_TURN);
}

#[test]
fn normalize_is_idempotent() {
    for a in [i64::MIN, -725 * DEG, -1, 0, 1, 359 * DEG, FULL_TURN, 1_234_567_890_123, i64::MAX] {
        let n = normalize_degrees(a);
        assert!(n >= 0 && n < FULL_TURN);
        assert_eq!(normalize_degrees(n), n);
    }
}

#[test]
fn bearing_of_cardinal_directions() {
    let o = Position { x: 1_000_000, y: -2_000_000 };
    let cases = [((0, 5_000), 0), ((5_000, 0), 90 * DEG), ((0, -5_000), 180 * DEG), ((-5_000, 0), 270 * DEG)];
    for ((dx, dy), expected) in cases {
        let t = Position { x: o.x + dx, y: o.y + dy };
        let b = true_bearing_deg(north_angle(&o, &t));
        assert!((b - expected).abs() <= 1_000, "bearing {} expected {}", b, expected);
    }
}

#[test]
fn coincident_positions_give_north() {
    let o = Position { x: 7, y: 7 };
    assert_eq!(true_bearing_deg(north_angle(&o, &o)), 0);
}

#[test]
fn relative_bearing_wraps() {
    assert_eq!(relative_bearing_deg(10 * DEG, 350 * DEG), 20 * DEG);
    assert_eq!(relative_bearing_deg(350 * DEG, 10 * DEG), 340 * DEG);
    assert_eq!(relative_bearing_deg(45 * DEG, 45 * DEG), 0);
}

#[test]
fn turning_stays_in_range() {
    assert_eq!(turn_angle(350 * DEG, 20 * DEG), 10 * DEG);
    assert_eq!(turn_angle(10 * DEG, -20 * DEG), 350 * DEG);
    assert_eq!(turn_angle(0, i64::MIN), normalize_degrees(i64::MIN));
}

#[test]
fn clock_sixty_three_frames_give_one_tick() {
    let run = || {
        let mut clock = SimulationClock::new(1_000_000);
        let mut ticks: u64 = 0;
        for _ in 0..63 {
            clock.accumulate(16_000);
            ticks += clock.consume_ticks();
        }
        (ticks, clock.accumulated)
    };
    let first = run();
    assert_eq!(first, (1, 8_000));
    assert_eq!(run(), first);
}

#[test]
fn clock_drains_every_whole_tick() {
    let mut clock = SimulationClock::new(1_000_000);
    clock.accumulate(3_500_000);
    assert_eq!(clock.consume_ticks(), 3);
    assert_eq!(clock.accumulated, 500_000);
    assert_eq!(clock.consume_ticks(), 0);
    assert_eq!(clock.accumulated, 500_000);
}

#[test]
fn displacement_of_one_nautical_mile_per_hour() {
    let mut p = Position { x: 0, y: 0 };
    update_position(&mut p, 3_600, Direction { east: 0, north: DIRECTION_UNIT }, 1_000_000);
    assert_eq!(p, Position { x: 0, y: 1_852 });
    update_position(&mut p, 3_600, Direction { east: -DIRECTION_UNIT, north: 0 }, 2_000_000);
    assert_eq!(p, Position { x: -3_704, y: 1_852 });
    update_position(&mut p, 0, Direction { east: DIRECTION_UNIT, north: 0 }, 2_000_000);
    assert_eq!(p, Position { x: -3_704, y: 1_852 });
}

#[test]
fn speed_never_goes_below_zero() {
    let mut b = Body::new(Position { x: 0, y: 0 }, 0, 7_000);
    b.change_speed_by(-5_000);
    assert_eq!(b.speed, 2_000);
    b.change_speed_by(-5_000);
    assert_eq!(b.speed, 0);
    b.change_speed_by(-5_000);
    assert_eq!(b.speed, 0);
    b.change_speed_by(5_000);
    assert_eq!(b.speed, 5_000);
}

#[test]
fn slower_command_clamps_at_zero() {
    let own = Body::new(Position { x: 0, y: 0 }, 0, 5_000);
    let mut w = World::new(own, 1_000_000, 300_000_000, DEFAULT_TRACK_CAPACITY);
    let slower = Controls { slower: true, ..no_controls() };
    for _ in 0..4 {
        w.handle_input(slower, 16_000);
        assert!(w.own_ship.speed == 0);
    }
    w.handle_input(Controls { faster: true, ..no_controls() }, 16_000);
    assert_eq!(w.own_ship.speed, 5_000);
}

#[test]
fn turn_controls_follow_turn_rate() {
    let own = Body::new(Position { x: 0, y: 0 }, 45 * DEG, 0);
    let mut w = World::new(own, 1_000_000, 300_000_000, DEFAULT_TRACK_CAPACITY);
    w.handle_input(Controls { turn_left: true, ..no_controls() }, 1_000_000);
    assert_eq!(w.own_ship.heading, 345 * DEG);
    w.handle_input(Controls { turn_right: true, ..no_controls() }, 500_000);
    assert_eq!(w.own_ship.heading, 15 * DEG);
    w.handle_input(Controls { turn_left: true, turn_right: true, ..no_controls() }, 500_000);
    assert_eq!(w.own_ship.heading, 15 * DEG);
}

#[test]
fn pruning_keeps_only_the_window() {
    let mut h = BearingHistory::new();
    for t in 0..=10u64 {
        h.record(t * 1_000_000, (t as i64) * DEG);
    }
    h.prune(10_000_000, 5_000_000);
    assert_eq!(h.len(), 6);
    assert_eq!(h.get(0).timestamp, 5_000_000);
    for i in 0..h.len() {
        assert!(10_000_000 - h.get(i).timestamp <= 5_000_000);
    }
    h.prune(10_000_000, 0);
    assert_eq!(h.len(), 1);
    h.prune(100_000_000, 0);
    assert_eq!(h.len(), 0);
}

#[test]
fn consecutive_pairs_in_order() {
    let mut h = BearingHistory::new();
    assert!(h.consecutive_pairs().is_empty());
    h.record(1, DEG);
    assert!(h.consecutive_pairs().is_empty());
    h.record(2, 2 * DEG);
    h.record(3, 3 * DEG);
    let p = h.consecutive_pairs();
    assert_eq!(p.len(), 2);
    assert_eq!(p[0], (h.get(0), h.get(1)));
    assert_eq!(p[1].1, BearingRecord { timestamp: 3, relative_bearing: 3 * DEG });
}

#[test]
fn wraparound_is_split_at_north() {
    let r1 = BearingRecord { timestamp: 1_000_000, relative_bearing: 358 * DEG };
    let r2 = BearingRecord { timestamp: 2_000_000, relative_bearing: 2 * DEG };
    assert!(is_wraparound(r1, r2, WRAP_THRESHOLD));
    assert!(is_wraparound(r2, r1, WRAP_THRESHOLD));
    let s = segments_between(r1, r2, WRAP_THRESHOLD);
    assert_eq!(s, vec![
        PlotSegment { start_time: 1_000_000, start_bearing: 358 * DEG, end_time: 2_000_000, end_bearing: FULL_TURN },
        PlotSegment { start_time: 1_000_000, start_bearing: 0, end_time: 2_000_000, end_bearing: 2 * DEG },
    ]);
    let back = segments_between(r2, r1, WRAP_THRESHOLD);
    assert_eq!(back[0].end_bearing, 0);
    assert_eq!(back[1].start_bearing, FULL_TURN);
    assert_eq!(back[1].end_bearing, 358 * DEG);
}

#[test]
fn small_change_is_one_segment() {
    let r1 = BearingRecord { timestamp: 0, relative_bearing: 10 * DEG };
    let r2 = BearingRecord { timestamp: 1, relative_bearing: 20 * DEG };
    assert!(!is_wraparound(r1, r2, WRAP_THRESHOLD));
    assert_eq!(segments_between(r1, r2, WRAP_THRESHOLD).len(), 1);
    let r3 = BearingRecord { timestamp: 2, relative_bearing: 310 * DEG };
    assert!(!is_wraparound(r1, r3, WRAP_THRESHOLD));
    assert!(is_wraparound(r1, r3, 299 * DEG));
}

#[test]
fn history_plot_segments_cover_each_pair() {
    let mut h = BearingHistory::new();
    h.record(0, 350 * DEG);
    h.record(1, 358 * DEG);
    h.record(2, 2 * DEG);
    h.record(3, 5 * DEG);
    let s = h.plot_segments(WRAP_THRESHOLD);
    assert_eq!(s.len(), 4);
    assert_eq!(s[0].end_bearing, 358 * DEG);
    assert_eq!(s[1].end_bearing, FULL_TURN);
    assert_eq!(s[2].start_bearing, 0);
    assert_eq!(s[3].start_bearing, 2 * DEG);
}

#[test]
fn tracker_reports_unknown_and_duplicate_contacts() {
    let mut t = BearingTracker::new();
    assert_eq!(t.record(4, 0, 0), Err(TrackError::UnknownContact));
    assert_eq!(t.prune(4, 0, 0), Err(TrackError::UnknownContact));
    assert!(t.history(4).is_none());
    assert_eq!(t.register(4), Ok(()));
    assert_eq!(t.register(4), Err(TrackError::DuplicateContact));
    assert_eq!(t.record(4, 10, 5 * DEG), Ok(()));
    assert_eq!(t.history(4).unwrap().len(), 1);
    assert_eq!(t.find(4), Some(0));
}

#[test]
fn end_to_end_one_tick() {
    let own = Body::new(Position { x: 5_000_000, y: 5_000_000 }, 45 * DEG, 5_000);
    let mut w = World::new(own, 1_000_000, 300_000_000, DEFAULT_TRACK_CAPACITY);
    let target = Body::new(Position { x: 10_000_000, y: 2_000_000 }, 225 * DEG, 10_000);
    assert_eq!(w.add_target(1, target), Ok(()));
    assert_eq!(w.add_target(1, target), Err(TrackError::DuplicateContact));

    assert_eq!(w.due_ticks(1_000_000), 1);
    let dirs: Vec<Direction> = w.targets.iter().map(|t| direction(t.body.heading)).collect();
    w.advance_tick(direction(w.own_ship.heading), &dirs);
    assert_eq!(w.current_sim_time, 1_000_000);

    let step = 5.0 * 1852.0 / 3600.0 * 45f64.to_radians().sin();
    let (ox, oy) = (w.own_ship.position.x as f64 / 1000.0, w.own_ship.position.y as f64 / 1000.0);
    assert!((ox - (5000.0 + step)).abs() < 0.01 && (oy - (5000.0 + step)).abs() < 0.01);
    assert!((ox - 5001.82).abs() < 0.01);

    let angles: Vec<i64> = w.targets.iter().map(|t| north_angle(&w.own_ship.position, &t.body.position)).collect();
    let true_bearing = true_bearing_deg(angles[0]);
    w.observe(&angles);

    let tstep = 10.0 * 1852.0 / 3600.0;
    let tx = 10000.0 + tstep * 225f64.to_radians().sin();
    let ty = 2000.0 + tstep * 225f64.to_radians().cos();
    let reference = (tx - (5000.0 + step)).atan2(ty - (5000.0 + step)).to_degrees().rem_euclid(360.0);
    assert!((true_bearing as f64 / 1e6 - reference).abs() < 1e-2);

    let h = w.tracker.history(1).unwrap();
    assert_eq!(h.len(), 1);
    assert_eq!(h.get(0).timestamp, 1_000_000);
    assert_eq!(h.get(0).relative_bearing, normalize_degrees(true_bearing - 45 * DEG));
    assert_eq!(w.targets[0].track_history.len(), 1);
}

#[test]
fn world_keeps_window_and_trail_bounds() {
    let own = Body::new(Position { x: 0, y: 0 }, 0, 0);
    let mut w = World::new(own, 1_000_000, 2_000_000, 2);
    let target = Body::new(Position { x: 0, y: 1_000_000 }, 90 * DEG, 3_600);
    w.add_target(9, target).unwrap();
    for _ in 0..5 {
        let n = w.due_ticks(1_000_000);
        for _ in 0..n {
            let dirs = vec![direction(w.targets[0].body.heading)];
            w.advance_tick(direction(w.own_ship.heading), &dirs);
            let angles = vec![north_angle(&w.own_ship.position, &w.targets[0].body.position)];
            w.observe(&angles);
        }
    }
    assert_eq!(w.current_sim_time, 5_000_000);
    let trail: Vec<Position> = w.targets[0].track_history.iter().cloned().collect();
    assert_eq!(trail, vec![Position { x: 7_408, y: 1_000_000 }, Position { x: 9_260, y: 1_000_000 }]);
    let h = w.tracker.history(9).unwrap();
    assert_eq!(h.len(), 3);
    for i in 0..h.len() {
        assert!(w.current_sim_time - h.get(i).timestamp <= 2_000_000);
    }
}
