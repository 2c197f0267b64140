use panda_date::stork_factory::{Stork, StorkFactory, StorkState};
use panda_date::units::{FinePoint, Point, Velocity};

#[test]
fn stork_for_the_left_half_comes_from_the_left() {
    let s = StorkFactory::create_stork(Point { x: 100, y: 70 }, 480);
    assert_eq!(s.state, StorkState::Loaded);
    assert_eq!(s.pos, FinePoint { x: -64_000_000_000, y: 70_000_000_000 });
    assert_eq!(s.dest, Point { x: 100, y: 70 });
    assert_eq!(s.speed, Velocity { x: 64_000, y: 0 });
    assert_eq!((s.frame_countdown, s.frame_time, s.anim_index), (0, 200_000, 0));
}

#[test]
fn stork_for_the_right_half_comes_from_the_right() {
    let s = StorkFactory::create_stork(Point { x: 240, y: -3 }, 480);
    assert_eq!(s.pos, FinePoint { x: 544_000_000_000, y: -3_000_000_000 });
    assert_eq!(s.speed, Velocity { x: -64_000, y: 0 });
    let s = StorkFactory::create_stork(Point { x: 239, y: 0 }, 480);
    assert_eq!(s.speed, Velocity { x: 64_000, y: 0 });
    let s = StorkFactory::create_stork(Point { x: 0, y: 0 }, 0);
    assert_eq!(s.pos, FinePoint { x: 64_000_000_000, y: 0 });
    assert_eq!(s.speed, Velocity { x: -64_000, y: 0 });
    let s = StorkFactory::create_stork(Point { x: i32::MAX, y: i32::MIN }, u32::MAX - 1);
    assert_eq!(s.pos, FinePoint { x: 4_294_967_358_000_000_000, y: -2_147_483_648_000_000_000 });
    let s = StorkFactory::create_stork(Point { x: i32::MAX, y: i32::MAX }, u32::MAX);
    assert_eq!(s.pos, FinePoint { x: -64_000_000_000, y: 2_147_483_647_000_000_000 });
}

#[test]
fn stork_flies_at_constant_speed() {
    let mut s = StorkFactory::create_stork(Point { x: 100, y: 70 }, 480);
    assert!(!s.apply_movement(1_000_000));
    assert_eq!(s.pos, FinePoint { x: 0, y: 70_000_000_000 });
    assert_eq!(s.state, StorkState::Loaded);
}

#[test]
fn stork_unloads_once_within_reach_of_its_destination() {
    let mut s = StorkFactory::create_stork(Point { x: 100, y: 70 }, 480);
    s.anim_index = 2;
    s.frame_countdown = 77;
    assert!(!s.apply_movement(2_312_500));
    assert_eq!(s.pos.x, 84_000_000_000);
    assert_eq!(s.state, StorkState::Loaded);
    assert_eq!((s.anim_index, s.frame_countdown), (2, 77));
    assert!(s.apply_movement(1));
    assert_eq!(s.pos.x, 84_000_064_000);
    assert_eq!(s.state, StorkState::Unloaded);
    assert_eq!((s.anim_index, s.frame_countdown), (0, 0));
    s.anim_index = 1;
    assert!(!s.apply_movement(100_000));
    assert_eq!(s.state, StorkState::Unloaded);
    assert_eq!(s.anim_index, 1);
    assert_eq!(s.pos.x, 90_400_064_000);
}

#[test]
fn reach_is_measured_by_squared_distance() {
    let mut s = StorkFactory::create_stork(Point { x: 0, y: 0 }, 480);
    s.pos = FinePoint { x: 12_000_000_000, y: 12_000_000_000 };
    s.speed = Velocity { x: 0, y: 0 };
    assert!(!s.apply_movement(1_000));
    s.pos = FinePoint { x: 11_000_000_000, y: 11_000_000_000 };
    assert!(s.apply_movement(1_000));
    let mut s = StorkFactory::create_stork(Point { x: 0, y: 0 }, 480);
    s.speed = Velocity { x: 0, y: 0 };
    s.pos = FinePoint { x: 0, y: 16_000_000_000 };
    assert!(!s.apply_movement(1_000));
    s.pos = FinePoint { x: 0, y: -15_999_999_999 };
    assert!(s.apply_movement(1_000));
}

#[test]
fn a_long_frame_carries_the_stork_past_its_destination() {
    let mut s = StorkFactory::create_stork(Point { x: 100, y: 70 }, 480);
    assert!(!s.apply_movement(10_000_000));
    assert_eq!(s.pos.x, 576_000_000_000);
    assert_eq!(s.state, StorkState::Loaded);
}

#[test]
fn stork_position_stops_at_the_end_of_the_grid() {
    let mut s: Stork = StorkFactory::create_stork(Point { x: 100, y: 70 }, 480);
    s.pos = FinePoint { x: i64::MAX - 5, y: i64::MIN + 5 };
    s.speed = Velocity { x: i32::MAX, y: i32::MIN };
    assert!(!s.apply_movement(u32::MAX));
    assert_eq!(s.pos, FinePoint { x: i64::MAX, y: i64::MIN });
}

#[test]
fn stork_animation_steps_after_the_frame_time() {
    let mut s = StorkFactory::create_stork(Point { x: 100, y: 70 }, 480);
    s.update_animation(200_000);
    assert_eq!((s.anim_index, s.frame_countdown), (0, 200_000));
    s.update_animation(1);
    assert_eq!((s.anim_index, s.frame_countdown), (1, 0));
    s.update_animation(200_001);
    assert_eq!((s.anim_index, s.frame_countdown), (2, 0));
    s.update_animation(u32::MAX);
    assert_eq!((s.anim_index, s.frame_countdown), (0, 0));
}
