use panda_date::heading::{Direction, Heading, UNIT};
use panda_date::mover::{ActiveMover, LoveMover, Mover, NormalMover, ThrownMover, THROWING_SPEED};
use panda_date::panda_factory::{Motion, Panda, PandaFactory, PandaState};
use panda_date::tuning::Tuning;
use panda_date::units::{Displacement, Frame, Point, Velocity};

fn panda_at(x: i32, y: i32) -> Panda {
    PandaFactory::assemble(Point { x, y }, Velocity { x: 30_000, y: 10_000 }, 0)
}

fn facing_right() -> Direction {
    Direction { x: 1, y: 0 }
}

#[test]
fn assembled_panda_wanders_from_where_it_was_put() {
    let p = PandaFactory::assemble(Point { x: 5, y: 6 }, Velocity { x: 1, y: 2 }, 77);
    assert_eq!(p.pos, Point { x: 5, y: 6 });
    assert_eq!(p.speed, Velocity { x: 1, y: 2 });
    assert_eq!(p.mover, ActiveMover::Normal(NormalMover { time_since_last_move: 77 }));
    assert_eq!(p.state, PandaState::Normal);
    assert_eq!(
        (p.heart_anim_index, p.walk_anim_index, p.love_anim_index, p.thrown_anim_index),
        (0, 0, 0, 0)
    );
    assert_eq!(p.frame_countdown, 50_000);
    assert_eq!(p.spawn_time, 77);
    assert_eq!(p.loving_cooldown, 0);
}

#[test]
fn spawn_places_are_the_four_fixed_points() {
    assert_eq!(PandaFactory::spawn_place(0), Point { x: 170, y: 230 });
    assert_eq!(PandaFactory::spawn_place(1), Point { x: 200, y: 100 });
    assert_eq!(PandaFactory::spawn_place(2), Point { x: 350, y: 170 });
    assert_eq!(PandaFactory::spawn_place(3), Point { x: 100, y: 350 });
}

#[test]
fn created_pandas_appear_at_spawn_points_with_bounded_speed() {
    let t = Tuning::standard();
    let places = [
        Point { x: 170, y: 230 },
        Point { x: 200, y: 100 },
        Point { x: 350, y: 170 },
        Point { x: 100, y: 350 },
    ];
    let mut seen = [false; 4];
    let mut lowest = i32::MAX;
    let mut highest = i32::MIN;
    for round in 0..400u64 {
        let p = PandaFactory::create_panda(round, &t);
        let place = places.iter().position(|q| *q == p.pos);
        assert!(place.is_some());
        seen[place.unwrap()] = true;
        assert!(0 <= p.speed.x && p.speed.x < 50_000);
        assert!(0 <= p.speed.y && p.speed.y < 50_000);
        lowest = lowest.min(p.speed.x).min(p.speed.y);
        highest = highest.max(p.speed.x).max(p.speed.y);
        assert_eq!(p, PandaFactory::assemble(p.pos, p.speed, round));
    }
    assert_eq!(seen, [true; 4]);
    assert!(lowest < 5_000);
    assert!(highest > 45_000);
}

#[test]
fn wander_velocity_respects_the_tuning() {
    let mut t = Tuning::standard();
    t.wander_speed = 3;
    let mut seen = [false; 3];
    for _ in 0..200 {
        let v = PandaFactory::wander(&t);
        assert!(0 <= v.x && v.x < 3 && 0 <= v.y && v.y < 3);
        seen[v.x as usize] = true;
    }
    assert_eq!(seen, [true; 3]);
    t.wander_speed = 0;
    assert_eq!(PandaFactory::wander(&t), Velocity { x: 0, y: 0 });
    let p = PandaFactory::create_panda_at(Point { x: -4, y: 9 }, 12, &t);
    assert_eq!(p, PandaFactory::assemble(Point { x: -4, y: 9 }, Velocity { x: 0, y: 0 }, 12));
}

#[test]
fn two_draws_make_a_wander_velocity() {
    assert_eq!(PandaFactory::of_draws(0, 0), Velocity { x: 0, y: 0 });
    assert_eq!(PandaFactory::of_draws(12_345, 49_999), Velocity { x: 12_345, y: 49_999 });
    assert_eq!(
        PandaFactory::of_draws(i32::MAX as u32, 1),
        Velocity { x: i32::MAX, y: 1 }
    );
}

#[test]
fn wandering_panda_is_swept_by_its_velocity() {
    let t = Tuning::standard();
    let mut p = panda_at(100, 100);
    let motion = p.advance(
        Point { x: 0, y: 0 },
        facing_right(),
        true,
        Frame { now: 1_000_000, dt: 20_000 },
        Velocity { x: 9, y: 9 },
        &t,
    );
    assert_eq!(motion, Motion::Sweep(Displacement { dx: 600_000_000, dy: 200_000_000 }));
    assert_eq!(p.state, PandaState::Normal);
    assert_eq!(p.speed, Velocity { x: 30_000, y: 10_000 });
    assert_eq!(p.pos, Point { x: 100, y: 100 });
}

#[test]
fn grabbed_panda_is_slaved_to_the_player() {
    let t = Tuning::standard();
    for (speed, mover) in [
        (Velocity { x: 0, y: 0 }, ActiveMover::Normal(NormalMover::new(0))),
        (Velocity { x: 49_999, y: -20_000 }, ActiveMover::Love(LoveMover::new(3))),
        (
            Velocity { x: -1, y: 1 },
            ActiveMover::Thrown(ThrownMover::new(Direction { x: 1, y: 1 }, 9)),
        ),
    ] {
        let mut p = panda_at(300, 300);
        p.state = PandaState::Grabbed;
        p.speed = speed;
        p.mover = mover;
        let motion = p.advance(
            Point { x: 40, y: 60 },
            facing_right(),
            false,
            Frame { now: 2_000_000, dt: 16_000 },
            Velocity { x: 9, y: 9 },
            &t,
        );
        assert_eq!(motion, Motion::Place(Point { x: 40, y: 55 }));
        assert_eq!(p.pos, Point { x: 40, y: 55 });
        assert_eq!(p.state, PandaState::Grabbed);
        assert_eq!(p.speed, speed);
        assert_eq!(p.mover, mover);
    }
}

#[test]
fn grabbed_panda_is_thrown_on_the_action() {
    let t = Tuning::standard();
    let mut p = panda_at(40, 55);
    p.state = PandaState::Grabbed;
    let motion = p.advance(
        Point { x: 40, y: 60 },
        Direction { x: 0, y: -1 },
        true,
        Frame { now: 2_000_000, dt: 16_000 },
        Velocity { x: 9, y: 9 },
        &t,
    );
    assert_eq!(motion, Motion::Rest);
    assert_eq!(p.state, PandaState::Thrown);
    assert_eq!(p.pos, Point { x: 40, y: 55 });
    assert_eq!(
        p.mover,
        ActiveMover::Thrown(ThrownMover {
            thrown_direction: Heading { x: 0, y: -UNIT },
            throwing_speed: THROWING_SPEED,
            init_time: 2_000_000,
        })
    );
}

#[test]
fn thrown_panda_flies_and_then_wanders_again() {
    let t = Tuning::standard();
    let mut p = panda_at(0, 0);
    p.state = PandaState::Thrown;
    p.mover = ActiveMover::Thrown(ThrownMover::new(facing_right(), 0));
    let wander = Velocity { x: 12_000, y: 34_000 };
    let motion = p.advance(
        Point { x: 0, y: 0 },
        facing_right(),
        false,
        Frame { now: 100_000, dt: 10_000 },
        wander,
        &t,
    );
    assert_eq!(motion, Motion::Sweep(Displacement { dx: 5_000_000_000, dy: 0 }));
    assert_eq!(p.state, PandaState::Thrown);
    assert_eq!(p.speed, Velocity { x: 30_000, y: 10_000 });
    let motion = p.advance(
        Point { x: 0, y: 0 },
        facing_right(),
        false,
        Frame { now: 1_200_000, dt: 10_000 },
        wander,
        &t,
    );
    assert_eq!(motion, Motion::Sweep(Displacement { dx: 4_962_240_000, dy: 0 }));
    assert_eq!(p.state, PandaState::Normal);
    assert_eq!(p.mover, ActiveMover::Normal(NormalMover { time_since_last_move: 1_200_000 }));
    assert_eq!(p.speed, wander);
    assert_eq!(p.loving_cooldown, 0);
}

#[test]
fn love_ends_in_wandering_with_a_cooldown() {
    let t = Tuning::standard();
    let mut p = panda_at(0, 0);
    p.state = PandaState::FoundLove;
    p.mover = ActiveMover::Love(LoveMover::new(1_000));
    let wander = Velocity { x: 1_000, y: 2_000 };
    let motion = p.advance(
        Point { x: 0, y: 0 },
        facing_right(),
        true,
        Frame { now: 3_001_000, dt: 16_000 },
        wander,
        &t,
    );
    assert_eq!(motion, Motion::Sweep(Displacement { dx: 0, dy: 0 }));
    assert_eq!(p.state, PandaState::FoundLove);
    let motion = p.advance(
        Point { x: 0, y: 0 },
        facing_right(),
        true,
        Frame { now: 3_001_001, dt: 16_000 },
        wander,
        &t,
    );
    assert_eq!(motion, Motion::Sweep(Displacement { dx: 0, dy: 0 }));
    assert_eq!(p.state, PandaState::Normal);
    assert_eq!(p.speed, wander);
    assert_eq!(p.mover, ActiveMover::Normal(NormalMover { time_since_last_move: 3_001_001 }));
    assert_eq!(p.loving_cooldown, t.loving_cooldown);
    p.advance(
        Point { x: 0, y: 0 },
        facing_right(),
        false,
        Frame { now: 3_017_001, dt: 16_000 },
        wander,
        &t,
    );
    assert_eq!(p.loving_cooldown, t.loving_cooldown - 16_000);
    p.advance(
        Point { x: 0, y: 0 },
        facing_right(),
        false,
        Frame { now: 3_017_002, dt: u32::MAX },
        wander,
        &t,
    );
    assert_eq!(p.loving_cooldown, 0);
}

#[test]
fn old_panda_dies_unless_it_is_grabbed() {
    let t = Tuning::standard();
    let frame = Frame { now: t.independence_lifetime + 1, dt: 16_000 };
    for state in [PandaState::Normal, PandaState::Thrown, PandaState::FoundLove] {
        let mut p = panda_at(10, 10);
        p.state = state;
        if state == PandaState::Thrown {
            p.mover = ActiveMover::Thrown(ThrownMover::new(facing_right(), 0));
        }
        if state == PandaState::FoundLove {
            p.mover = ActiveMover::Love(LoveMover::new(0));
        }
        let before = p;
        let motion = p.advance(Point { x: 0, y: 0 }, facing_right(), false, frame, before.speed, &t);
        assert_eq!(motion, Motion::Rest);
        assert_eq!(p.state, PandaState::Dead);
        assert_eq!(p.pos, before.pos);
        assert_eq!(p.mover, before.mover);
    }
    let mut held = panda_at(10, 10);
    held.state = PandaState::Grabbed;
    let motion = held.advance(Point { x: 0, y: 0 }, facing_right(), false, frame, held.speed, &t);
    assert_eq!(motion, Motion::Place(Point { x: 0, y: -5 }));
    assert_eq!(held.state, PandaState::Grabbed);
}

#[test]
fn panda_of_exactly_the_lifetime_lives_on() {
    let t = Tuning::standard();
    let mut p = panda_at(10, 10);
    let frame = Frame { now: t.independence_lifetime, dt: 0 };
    p.advance(Point { x: 0, y: 0 }, facing_right(), false, frame, p.speed, &t);
    assert_eq!(p.state, PandaState::Normal);
}

#[test]
fn dead_panda_is_inert() {
    let t = Tuning::standard();
    let mut p = panda_at(10, 10);
    p.state = PandaState::Dead;
    p.loving_cooldown = 500;
    let before = p;
    let motion = p.advance(
        Point { x: 0, y: 0 },
        facing_right(),
        true,
        Frame { now: 5, dt: 16_000 },
        Velocity { x: 1, y: 1 },
        &t,
    );
    assert_eq!(motion, Motion::Rest);
    assert_eq!(p, before);
    p.animate(1_000_000);
    assert_eq!(p, before);
    p.arrive(Point { x: 99, y: 99 });
    assert_eq!(p, before);
}

#[test]
fn reports_move_free_pandas_only() {
    let mut p = panda_at(10, 10);
    p.arrive(Point { x: 11, y: 12 });
    assert_eq!(p.pos, Point { x: 11, y: 12 });
    p.state = PandaState::Grabbed;
    p.arrive(Point { x: 50, y: 50 });
    assert_eq!(p.pos, Point { x: 11, y: 12 });
    p.state = PandaState::Thrown;
    p.arrive(Point { x: 50, y: 50 });
    assert_eq!(p.pos, Point { x: 50, y: 50 });
}

#[test]
fn apply_movement_runs_the_mover() {
    let mut p = panda_at(10, 10);
    let d = p.apply_movement(Frame { now: 1_500_001, dt: 1_000 });
    assert_eq!(d, Displacement { dx: 30_000_000, dy: 10_000_000 });
    assert_eq!(p.speed, Velocity { x: -10_000, y: 30_000 });
    assert_eq!(p.mover, ActiveMover::Normal(NormalMover { time_since_last_move: 1_500_001 }));
    assert!(!p.mover.movement_complete());
}

#[test]
fn animation_indices_wrap_each_at_its_own_length() {
    let mut p = panda_at(0, 0);
    p.frame_countdown = 0;
    let mut seen = Vec::new();
    for _ in 0..9 {
        p.update_animation_indices();
        assert_eq!(p.frame_countdown, 100_000);
        seen.push((p.heart_anim_index, p.walk_anim_index, p.love_anim_index, p.thrown_anim_index));
    }
    assert_eq!(
        seen,
        vec![
            (1, 1, 1, 1),
            (2, 2, 2, 0),
            (3, 3, 3, 1),
            (0, 0, 4, 0),
            (1, 1, 5, 1),
            (2, 2, 6, 0),
            (3, 3, 7, 1),
            (0, 0, 8, 0),
            (1, 1, 0, 1),
        ]
    );
}

#[test]
fn panda_animation_waits_for_its_countdown() {
    let mut p = panda_at(0, 0);
    p.animate(49_999);
    assert_eq!((p.walk_anim_index, p.frame_countdown), (0, 1));
    p.animate(1);
    assert_eq!((p.walk_anim_index, p.frame_countdown), (1, 100_000));
    p.animate(100_001);
    assert_eq!((p.walk_anim_index, p.frame_countdown), (2, 100_000));
}

#[test]
fn random_advance_settles_with_a_bounded_wander() {
    let t = Tuning::standard();
    for _ in 0..50 {
        let mut p = panda_at(0, 0);
        p.state = PandaState::Thrown;
        p.mover = ActiveMover::Thrown(ThrownMover::new(facing_right(), 0));
        p.advance_at_random(
            Point { x: 0, y: 0 },
            facing_right(),
            false,
            Frame { now: 2_000_000, dt: 10_000 },
            &t,
        );
        assert_eq!(p.state, PandaState::Normal);
        assert!(0 <= p.speed.x && p.speed.x < 50_000);
        assert!(0 <= p.speed.y && p.speed.y < 50_000);
    }
}
