use panda_date::heading::{integer_sqrt, unit_heading, Direction, Heading, UNIT};
use panda_date::mover::{
    ActiveMover, Axis, LoveMover, Mover, NormalMover, PatrolMover, ThrownMover, DECAY_HORIZON,
    LOVE_DURATION, REST_THRESHOLD, THROWING_SPEED, TURN_INTERVAL,
};
use panda_date::units::{elapsed, Displacement, FinePoint, Frame, Point, Velocity};

fn origin() -> Point {
    Point { x: 0, y: 0 }
}

#[test]
fn thrown_mover_starts_at_full_speed() {
    let m = ThrownMover::new(Direction { x: 1, y: 0 }, 0);
    assert_eq!(m.throwing_speed, THROWING_SPEED);
    assert_eq!(m.thrown_direction.x, UNIT);
    assert_eq!(m.thrown_direction.y, 0);
    assert_eq!(m.init_time, 0);
    assert!(!m.movement_complete());
}

#[test]
fn integer_sqrt_rounds_down() {
    assert_eq!(integer_sqrt(0), 0);
    assert_eq!(integer_sqrt(1), 1);
    assert_eq!(integer_sqrt(3), 1);
    assert_eq!(integer_sqrt(4), 2);
    assert_eq!(integer_sqrt(99), 9);
    assert_eq!(integer_sqrt(2_000_000_000_000), 1_414_213);
    assert_eq!(integer_sqrt(u128::MAX), u64::MAX);
}

#[test]
fn heading_of_axis_directions_is_exact() {
    assert_eq!(unit_heading(Direction { x: -1, y: 0 }), Heading { x: -UNIT, y: 0 });
    assert_eq!(unit_heading(Direction { x: 0, y: -3 }), Heading { x: 0, y: -UNIT });
    assert_eq!(unit_heading(Direction { x: 0, y: 7 }), Heading { x: 0, y: UNIT });
    assert_eq!(unit_heading(Direction { x: 3, y: 4 }), Heading { x: 600_000, y: 800_000 });
}

#[test]
fn diagonal_heading_has_unit_length() {
    let h = unit_heading(Direction { x: 1, y: 1 });
    assert_eq!(h.x, 707_107);
    assert_eq!(h.y, 707_107);
    let h = unit_heading(Direction { x: 2, y: -1 });
    assert_eq!(h, Heading { x: 894_427, y: -447_213 });
}

#[test]
fn every_heading_is_within_two_millionths_of_unit_length() {
    let samples = [
        (1, 1),
        (1, -1),
        (5, 12),
        (1, 2),
        (-7, 3),
        (i32::MAX, 1),
        (i32::MIN, i32::MIN),
        (i32::MIN, i32::MAX),
        (1, i32::MAX),
        (-123_456, 654_321),
    ];
    let low = (UNIT as i64 - 2) * (UNIT as i64 - 2);
    let high = (UNIT as i64 + 2) * (UNIT as i64 + 2);
    for (x, y) in samples {
        let h = unit_heading(Direction { x, y });
        let norm = h.x as i64 * h.x as i64 + h.y as i64 * h.y as i64;
        assert!(low <= norm && norm <= high);
        assert!(h.x.abs() <= UNIT && h.y.abs() <= UNIT);
        assert!(h.x.signum() == x.signum() || h.x == 0);
        assert!(h.y.signum() == y.signum() || h.y == 0);
    }
}

#[test]
fn zero_direction_falls_back_to_the_positive_x_axis() {
    let h = unit_heading(Direction { x: 0, y: 0 });
    assert_eq!(h, Heading { x: UNIT, y: 0 });
    let m = ThrownMover::new(Direction { x: 0, y: 0 }, 5);
    assert_eq!(m.thrown_direction, Heading { x: UNIT, y: 0 });
}

#[test]
fn thrown_mover_moves_along_heading() {
    let mut m = ThrownMover::new(Direction { x: 0, y: -3 }, 1_000);
    let mut v = Velocity { x: 7, y: 9 };
    let d = m.apply_movement_routine(Frame { now: 1_000, dt: 16_000 }, origin(), &mut v);
    assert_eq!(d.dx, 0);
    assert_eq!(d.dy, -500_000i64 * 16_000);
    assert_eq!(v, Velocity { x: 7, y: 9 });
    assert_eq!(m.throwing_speed, THROWING_SPEED);
}

#[test]
fn thrown_mover_on_a_diagonal_shares_its_speed() {
    let mut m = ThrownMover::new(Direction { x: 1, y: -1 }, 0);
    let mut v = Velocity { x: 0, y: 0 };
    let d = m.apply_movement_routine(Frame { now: 0, dt: 1_000 }, origin(), &mut v);
    assert_eq!(d, Displacement { dx: 353_553_000, dy: -353_553_000 });
}

#[test]
fn thrown_speed_decays_by_the_quadratic_curve() {
    let mut m = ThrownMover::new(Direction { x: 1, y: 0 }, 0);
    let mut v = Velocity { x: 0, y: 0 };
    m.apply_movement_routine(Frame { now: 100_000, dt: 0 }, origin(), &mut v);
    assert_eq!(m.throwing_speed, 496_224);
    let mut m = ThrownMover::new(Direction { x: 1, y: 0 }, 0);
    m.apply_movement_routine(Frame { now: 16_000, dt: 0 }, origin(), &mut v);
    assert_eq!(m.throwing_speed, 499_903);
}

#[test]
fn thrown_speed_never_rises_and_reaches_zero() {
    let mut m = ThrownMover::new(Direction { x: 1, y: 2 }, 0);
    let mut v = Velocity { x: 0, y: 0 };
    let mut now: u64 = 0;
    let mut last = m.throwing_speed;
    let mut frames = 0;
    while !m.movement_complete() {
        now += 16_667;
        m.apply_movement_routine(Frame { now, dt: 16_667 }, origin(), &mut v);
        assert!(m.throwing_speed <= last);
        last = m.throwing_speed;
        frames += 1;
        assert!(frames <= 44);
    }
    assert_eq!(frames, 44);
    assert_eq!(m.throwing_speed, 0);
    for _ in 0..10 {
        now += 16_667;
        let d = m.apply_movement_routine(Frame { now, dt: 16_667 }, origin(), &mut v);
        assert_eq!(d, Displacement { dx: 0, dy: 0 });
        assert!(m.movement_complete());
    }
}

#[test]
fn thrown_speed_below_the_threshold_snaps_to_zero() {
    let mut m = ThrownMover::new(Direction { x: 1, y: 0 }, 0);
    m.throwing_speed = REST_THRESHOLD - 1;
    assert!(!m.movement_complete());
    let mut v = Velocity { x: 0, y: 0 };
    let d = m.apply_movement_routine(Frame { now: 0, dt: 1_000_000 }, origin(), &mut v);
    assert_eq!(d, Displacement { dx: 0, dy: 0 });
    assert_eq!(m.throwing_speed, 0);
    assert!(m.movement_complete());
}

#[test]
fn thrown_speed_is_zero_beyond_the_end_of_the_curve() {
    let mut v = Velocity { x: 0, y: 0 };
    let mut m = ThrownMover::new(Direction { x: 1, y: 0 }, 10);
    m.apply_movement_routine(Frame { now: 10 + DECAY_HORIZON, dt: 0 }, origin(), &mut v);
    assert_eq!(m.throwing_speed, 0);
    let mut m = ThrownMover::new(Direction { x: 1, y: 0 }, 10);
    m.apply_movement_routine(Frame { now: u64::MAX, dt: u32::MAX }, origin(), &mut v);
    assert_eq!(m.throwing_speed, 0);
    assert!(m.movement_complete());
}

#[test]
fn thrown_mover_ignores_a_clock_that_runs_backwards() {
    let mut v = Velocity { x: 0, y: 0 };
    let mut m = ThrownMover::new(Direction { x: 1, y: 0 }, 1_000);
    m.apply_movement_routine(Frame { now: 10, dt: 5 }, origin(), &mut v);
    assert_eq!(m.throwing_speed, THROWING_SPEED);
    assert_eq!(elapsed(10, 1_000), 0);
    assert_eq!(elapsed(1_000, 10), 990);
}

#[test]
fn normal_mover_walks_straight_and_turns_after_the_interval() {
    let mut m = NormalMover::new(0);
    let mut v = Velocity { x: 50_000, y: 20_000 };
    let d = m.apply_movement_routine(Frame { now: TURN_INTERVAL, dt: 20_000 }, origin(), &mut v);
    assert_eq!(d, Displacement { dx: 1_000_000_000, dy: 400_000_000 });
    assert_eq!(v, Velocity { x: 50_000, y: 20_000 });
    assert_eq!(m.time_since_last_move, 0);
    let d = m.apply_movement_routine(Frame { now: TURN_INTERVAL + 1, dt: 10_000 }, origin(), &mut v);
    assert_eq!(d, Displacement { dx: 500_000_000, dy: 200_000_000 });
    assert_eq!(v, Velocity { x: -20_000, y: 50_000 });
    assert_eq!(m.time_since_last_move, TURN_INTERVAL + 1);
    assert!(!m.movement_complete());
}

#[test]
fn four_quarter_turns_bring_the_velocity_back() {
    let mut m = NormalMover::new(0);
    let start = Velocity { x: 31_000, y: -7_000 };
    let mut v = start;
    let mut now = 0;
    for _ in 0..4 {
        now += TURN_INTERVAL + 1;
        m.apply_movement_routine(Frame { now, dt: 0 }, origin(), &mut v);
    }
    assert_eq!(v, start);
}

#[test]
fn love_mover_completes_after_its_duration() {
    let mut m = LoveMover::new(500);
    let mut v = Velocity { x: 11, y: 12 };
    let d = m.apply_movement_routine(Frame { now: 500 + LOVE_DURATION, dt: 16_000 }, origin(), &mut v);
    assert_eq!(d, Displacement { dx: 0, dy: 0 });
    assert!(!m.movement_complete());
    m.apply_movement_routine(Frame { now: 501 + LOVE_DURATION, dt: 16_000 }, origin(), &mut v);
    assert!(m.movement_complete());
    m.apply_movement_routine(Frame { now: 0, dt: 16_000 }, origin(), &mut v);
    assert!(m.movement_complete());
    assert_eq!(v, Velocity { x: 11, y: 12 });
}

#[test]
fn patrol_mover_turns_back_at_its_bounds() {
    let mut m = PatrolMover::new(Axis::Horizontal, 150, 220);
    let mut v = Velocity { x: 40_000, y: 3_000 };
    let d = m.apply_movement_routine(Frame { now: 0, dt: 1_000 }, Point { x: 200, y: 0 }, &mut v);
    assert_eq!(d, Displacement { dx: 40_000_000, dy: 3_000_000 });
    assert_eq!(v, Velocity { x: 40_000, y: 3_000 });
    m.apply_movement_routine(Frame { now: 0, dt: 1_000 }, Point { x: 220, y: 0 }, &mut v);
    assert_eq!(v, Velocity { x: -40_000, y: 3_000 });
    m.apply_movement_routine(Frame { now: 0, dt: 1_000 }, Point { x: 230, y: 0 }, &mut v);
    assert_eq!(v, Velocity { x: -40_000, y: 3_000 });
    m.apply_movement_routine(Frame { now: 0, dt: 1_000 }, Point { x: 150, y: 0 }, &mut v);
    assert_eq!(v, Velocity { x: 40_000, y: 3_000 });
    assert!(!m.movement_complete());
}

#[test]
fn vertical_patrol_leaves_the_horizontal_speed_alone() {
    let mut m = PatrolMover::new(Axis::Vertical, 10, 20);
    let mut v = Velocity { x: 40_000, y: -3_000 };
    m.apply_movement_routine(Frame { now: 0, dt: 1_000 }, Point { x: 500, y: 5 }, &mut v);
    assert_eq!(v, Velocity { x: 40_000, y: 3_000 });
}

#[test]
fn active_mover_runs_the_strategy_it_holds() {
    let mut m = ActiveMover::Thrown(ThrownMover::new(Direction { x: -1, y: 0 }, 0));
    let mut v = Velocity { x: 1, y: 1 };
    let d = m.apply_movement_routine(Frame { now: 100_000, dt: 2_000 }, origin(), &mut v);
    assert_eq!(d, Displacement { dx: -1_000_000_000, dy: 0 });
    assert!(!m.movement_complete());
    match m {
        ActiveMover::Thrown(t) => assert_eq!(t.throwing_speed, 496_224),
        _ => panic!("the strategy changed"),
    }
    let mut m = ActiveMover::Love(LoveMover::new(0));
    m.apply_movement_routine(Frame { now: LOVE_DURATION + 1, dt: 0 }, origin(), &mut v);
    assert!(m.movement_complete());
    let mut m = ActiveMover::Normal(NormalMover::new(0));
    let d = m.apply_movement_routine(Frame { now: 1, dt: 3 }, origin(), &mut v);
    assert_eq!(d, Displacement { dx: 3, dy: 3 });
    assert!(!m.movement_complete());
    let mut m = ActiveMover::Patrol(PatrolMover::new(Axis::Horizontal, 0, 10));
    m.apply_movement_routine(Frame { now: 1, dt: 3 }, Point { x: 10, y: 0 }, &mut v);
    assert_eq!(v, Velocity { x: -1, y: 1 });
}

#[test]
fn points_shift_and_clamp() {
    let p = Point { x: 10, y: 20 }.offset(Point { x: 0, y: -5 });
    assert_eq!(p, Point { x: 10, y: 15 });
    let p = Point { x: i32::MAX, y: i32::MIN }.offset(Point { x: 1, y: -1 });
    assert_eq!(p, Point { x: i32::MAX, y: i32::MIN });
}

#[test]
fn nearness_is_strict_on_both_axes() {
    let a = Point { x: 100, y: 100 };
    assert!(a.is_near(Point { x: 119, y: 81 }, 20));
    assert!(!a.is_near(Point { x: 120, y: 100 }, 20));
    assert!(!a.is_near(Point { x: 100, y: 80 }, 20));
    assert!(!a.is_near(a, 0));
    assert!(!Point { x: i32::MIN, y: 0 }.is_near(Point { x: i32::MAX, y: 0 }, u32::MAX));
    assert!(Point { x: i32::MIN, y: 0 }.is_near(Point { x: i32::MAX - 1, y: 0 }, u32::MAX));
}

#[test]
fn fine_points_round_down_to_pixels() {
    assert_eq!(FinePoint { x: 3_999_999_999, y: -1 }.to_pixel(), Point { x: 3, y: -1 });
    assert_eq!(FinePoint { x: -1_000_000_000, y: -1_000_000_001 }.to_pixel(), Point { x: -1, y: -2 });
    assert_eq!(FinePoint { x: i64::MAX, y: i64::MIN }.to_pixel(), Point { x: i32::MAX, y: i32::MIN });
    let p = FinePoint { x: i64::MAX - 1, y: 5 }.advance(Displacement { dx: 10, dy: -10 });
    assert_eq!(p, FinePoint { x: i64::MAX, y: -5 });
}

#[test]
fn travel_is_velocity_times_time() {
    let d = Velocity { x: i32::MIN, y: i32::MAX }.travel(u32::MAX);
    assert_eq!(d.dx, i32::MIN as i64 * u32::MAX as i64);
    assert_eq!(d.dy, i32::MAX as i64 * u32::MAX as i64);
    assert_eq!(Displacement::none(), Displacement { dx: 0, dy: 0 });
}
