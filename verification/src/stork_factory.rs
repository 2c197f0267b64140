//! Storks: dispatched when two pandas pair off, they fly in from the nearer
//! edge of the screen and deliver a new panda at their destination.

use vstd::prelude::*;
use crate::animation::{next_frame, step_frame};
use crate::units::{Displacement, FinePoint, Point, Velocity, NANOS_PER_PIXEL};

verus! {

/// How far beyond the edge of the screen a stork starts, in pixels.
pub const STORK_MARGIN: i64 = 64;

/// The speed of a stork, in thousandths of a pixel per second.
pub const STORK_SPEED: i32 = 64_000;

/// How close to its destination a stork unloads, in pixels.
pub const ARRIVAL_RADIUS: i64 = 16;

/// Time between two frames of a stork's animation, in microseconds.
pub const STORK_FRAME_TIME: u64 = 200_000;

/// The number of frames in a stork's animation.
pub const STORK_FRAMES: u8 = 3;

/// The longest time between two frames that a stork's animation can count
/// to.
pub const LONGEST_FRAME_TIME: u64 = 0xffff_ffff_0000_0000;

/// Whether a stork still carries its panda.
#[derive(Clone, Copy, Debug, PartialEq, Eq, Structural)]
pub enum StorkState {
    Loaded,
    Unloaded,
}

/// One stork.
#[derive(Clone, Copy, Debug, PartialEq, Eq, Structural)]
pub struct Stork {
    pub state: StorkState,
    /// Where the stork is, on the fine grid.
    pub pos: FinePoint,
    /// Where the stork delivers.
    pub dest: Point,
    pub speed: Velocity,
    /// Time since the last frame of the animation, in microseconds.
    pub frame_countdown: u64,
    /// Time between two frames of the animation, in microseconds.
    pub frame_time: u64,
    pub anim_index: u8,
}

/// Makes storks.
pub struct StorkFactory {}

impl Stork {
    /// The animation index and its timer are in range.
    pub open spec fn well_formed(self) -> bool {
        &&& self.anim_index < STORK_FRAMES
        &&& self.frame_countdown <= self.frame_time <= LONGEST_FRAME_TIME
    }

    /// Whether `pos` is within the arrival radius of `dest`: the squared
    /// distance is below the squared radius.
    pub open spec fn within_reach(pos: FinePoint, dest: Point) -> bool {
        let x = pos.x - dest.x * NANOS_PER_PIXEL;
        let y = pos.y - dest.y * NANOS_PER_PIXEL;
        let r = ARRIVAL_RADIUS * NANOS_PER_PIXEL;
        x * x + y * y < r * r
    }

    /// Whether the stork unloads in a frame of `dt` microseconds: it is
    /// still loaded, and the frame's flight brings it within reach of its
    /// destination.
    pub open spec fn delivers(self, dt: u32) -> bool {
        self.state == StorkState::Loaded && Stork::within_reach(
            self.pos.moved(self.speed.over(dt)),
            self.dest,
        )
    }

    /// The stork after a frame of `dt` microseconds: it has flown on, and
    /// if it unloads its animation starts over.
    pub open spec fn flown(self, dt: u32) -> Stork {
        let pos = self.pos.moved(self.speed.over(dt));
        if self.delivers(dt) {
            Stork { state: StorkState::Unloaded, pos, anim_index: 0, frame_countdown: 0, ..self }
        } else {
            Stork { pos, ..self }
        }
    }

    /// The stork after `dt` microseconds of animation: the timer runs, and
    /// once it is past the frame time the animation steps and the timer
    /// starts over.
    pub open spec fn animated(self, dt: u32) -> Stork {
        if self.frame_countdown + dt > self.frame_time {
            Stork {
                anim_index: next_frame(self.anim_index, STORK_FRAMES),
                frame_countdown: 0,
                ..self
            }
        } else {
            Stork { frame_countdown: (self.frame_countdown + dt) as u64, ..self }
        }
    }

    /// The stork that is sent to `dest` over a screen `screen_width`
    /// pixels wide: it starts level with its destination, beyond the left
    /// edge if the destination is in the left half of the screen and beyond
    /// the right edge otherwise, and flies toward it.
    pub open spec fn dispatched(dest: Point, screen_width: u32) -> Stork {
        let from_left = 2 * dest.x < screen_width;
        Stork {
            state: StorkState::Loaded,
            pos: FinePoint {
                x: if from_left {
                    (-STORK_MARGIN * NANOS_PER_PIXEL) as i64
                } else {
                    ((screen_width + STORK_MARGIN) * NANOS_PER_PIXEL) as i64
                },
                y: (dest.y * NANOS_PER_PIXEL) as i64,
            },
            dest,
            speed: Velocity {
                x: if from_left {
                    STORK_SPEED
                } else {
                    (-STORK_SPEED) as i32
                },
                y: 0,
            },
            frame_countdown: 0,
            frame_time: STORK_FRAME_TIME,
            anim_index: 0,
        }
    }

    /// Exec counterpart of [`Stork::within_reach`].
    fn is_within_reach(pos: FinePoint, dest: Point) -> (b: bool)
        ensures
            b == Stork::within_reach(pos, dest),
    {
        let pixel: i128 = 1_000_000_000;
        let r: i128 = 16_000_000_000;
        assert(pixel == NANOS_PER_PIXEL && r == ARRIVAL_RADIUS * NANOS_PER_PIXEL);
        let x: i128 = pos.x as i128 - dest.x as i128 * pixel;
        let y: i128 = pos.y as i128 - dest.y as i128 * pixel;
        if x >= r || x <= -r || y >= r || y <= -r {
            assert(x * x + y * y >= r * r) by (nonlinear_arith)
                requires
                    x >= r || x <= -r || y >= r || y <= -r,
                    r >= 0,
            ;
            false
        } else {
            assert(x * x < r * r && y * y < r * r && x * x >= 0 && y * y >= 0)
                by (nonlinear_arith)
                requires
                    -r < x < r,
                    -r < y < r,
            ;
            x * x + y * y < 256_000_000_000_000_000_000
        }
    }

    /// Flies the stork for `dt` microseconds and says whether it unloaded:
    /// then one new panda is due where the stork now is.
    pub fn apply_movement(&mut self, dt: u32) -> (delivered: bool)
        ensures
            *final(self) == old(self).flown(dt),
            delivered == old(self).delivers(dt),
            old(self).well_formed() ==> final(self).well_formed(),
    {
        self.pos = self.pos.advance(self.speed.travel(dt));
        if self.state == StorkState::Loaded && Stork::is_within_reach(self.pos, self.dest) {
            self.state = StorkState::Unloaded;
            self.anim_index = 0;
            self.frame_countdown = 0;
            true
        } else {
            false
        }
    }

    /// Lets `dt` microseconds of animation pass.
    pub fn update_animation(&mut self, dt: u32)
        requires
            old(self).well_formed(),
        ensures
            *final(self) == old(self).animated(dt),
            final(self).well_formed(),
    {
        self.frame_countdown = self.frame_countdown + dt as u64;
        if self.frame_countdown > self.frame_time {
            self.anim_index = step_frame(self.anim_index, STORK_FRAMES);
            self.frame_countdown = 0;
        }
    }
}

impl StorkFactory {
    /// Sends a stork to `dest` over a screen `screen_width` pixels wide.
    pub fn create_stork(dest: Point, screen_width: u32) -> (stork: Stork)
        ensures
            stork == Stork::dispatched(dest, screen_width),
            stork.well_formed(),
            stork.state == StorkState::Loaded,
    {
        let level: i64 = dest.y as i64 * NANOS_PER_PIXEL;
        if 2 * (dest.x as i64) < screen_width as i64 {
            Stork {
                state: StorkState::Loaded,
                pos: FinePoint { x: -STORK_MARGIN * NANOS_PER_PIXEL, y: level },
                dest,
                speed: Velocity { x: STORK_SPEED, y: 0 },
                frame_countdown: 0,
                frame_time: STORK_FRAME_TIME,
                anim_index: 0,
            }
        } else {
            Stork {
                state: StorkState::Loaded,
                pos: FinePoint { x: (screen_width as i64 + STORK_MARGIN) * NANOS_PER_PIXEL, y: level },
                dest,
                speed: Velocity { x: -STORK_SPEED, y: 0 },
                frame_countdown: 0,
                frame_time: STORK_FRAME_TIME,
                anim_index: 0,
            }
        }
    }
}

} // verus!
