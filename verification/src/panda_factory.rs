//! Pandas: their states, their per-frame step, and how they are made.

use vstd::prelude::*;
use crate::heading::{normalized, Direction};
use crate::mover::{ActiveMover, LoveMover, Mover, NormalMover, ThrownMover, THROWING_SPEED};
use crate::animation::{next_frame, step_frame, FIRST_FRAME_DELAY};
use crate::rng::random_between;
use crate::tuning::Tuning;
use crate::units::{elapsed, elapsed_since, run_down, Displacement, Frame, Point, Velocity};

verus! {

/// Time between two frames of a panda's animations, in microseconds.
pub const PANDA_FRAME_INTERVAL: u64 = 100_000;

/// The number of frames in the heart animation.
pub const HEART_FRAMES: u8 = 4;

/// The number of frames in a panda's walk animation.
pub const PANDA_WALK_FRAMES: u8 = 4;

/// The number of frames in the love animation.
pub const LOVE_FRAMES: u8 = 9;

/// The number of frames in the thrown animation.
pub const THROWN_FRAMES: u8 = 2;

/// The number of places where a panda can appear at the start of a session.
pub const SPAWN_POINTS: u32 = 4;

/// What a panda is doing.
#[derive(Clone, Copy, Debug, PartialEq, Eq, Structural)]
pub enum PandaState {
    Normal,
    Grabbed,
    Thrown,
    FoundLove,
    Dead,
}

/// What the collision world is asked to do with one actor in a frame.
#[derive(Clone, Copy, Debug, PartialEq, Eq, Structural)]
pub enum Motion {
    /// Leave the actor where it is.
    Rest,
    /// Sweep the actor by this distance, first horizontally, then
    /// vertically, stopping at solid tiles.
    Sweep(Displacement),
    /// Put the actor at this point, whatever is in the way.
    Place(Point),
}

/// One panda.
#[derive(Clone, Copy, Debug, PartialEq, Eq, Structural)]
pub struct Panda {
    /// Where the panda's collider stands, as last reported.
    pub pos: Point,
    pub speed: Velocity,
    pub mover: ActiveMover,
    pub state: PandaState,
    pub heart_anim_index: u8,
    pub walk_anim_index: u8,
    pub love_anim_index: u8,
    pub thrown_anim_index: u8,
    /// Time until the next frame of the animations, in microseconds.
    pub frame_countdown: u64,
    /// When the panda appeared, in microseconds.
    pub spawn_time: u64,
    /// What is left of the time out of pairing, in microseconds.
    pub loving_cooldown: u64,
}

/// Makes pandas.
pub struct PandaFactory {}

/// The place with the given number where a panda can appear at the start of
/// a session.
pub open spec fn spawn_point(index: int) -> Point {
    if index == 0 {
        Point { x: 170, y: 230 }
    } else if index == 1 {
        Point { x: 200, y: 100 }
    } else if index == 2 {
        Point { x: 350, y: 170 }
    } else {
        Point { x: 100, y: 350 }
    }
}

impl Panda {
    /// The panda's state and its mover fit together, and its velocity,
    /// mover and animation indices are in range. A thrown panda flies by a
    /// thrown mover, a panda in love stands by a love mover, and a wandering
    /// panda has a mover without an end.
    pub open spec fn well_formed(self) -> bool {
        &&& self.speed.well_formed()
        &&& self.mover.well_formed()
        &&& self.heart_anim_index < HEART_FRAMES
        &&& self.walk_anim_index < PANDA_WALK_FRAMES
        &&& self.love_anim_index < LOVE_FRAMES
        &&& self.thrown_anim_index < THROWN_FRAMES
        &&& self.state == PandaState::Thrown ==> self.mover is Thrown
        &&& self.state == PandaState::FoundLove ==> self.mover is Love
        &&& self.state == PandaState::Normal ==> self.mover is Normal || self.mover is Patrol
    }

    /// A panda as it is made: wandering from `at` with velocity `speed`,
    /// born at `now`, free to pair.
    pub open spec fn fresh(at: Point, speed: Velocity, now: u64) -> Panda {
        Panda {
            pos: at,
            speed,
            mover: ActiveMover::Normal(NormalMover { time_since_last_move: now }),
            state: PandaState::Normal,
            heart_anim_index: 0,
            walk_anim_index: 0,
            love_anim_index: 0,
            thrown_anim_index: 0,
            frame_countdown: FIRST_FRAME_DELAY,
            spawn_time: now,
            loving_cooldown: 0,
        }
    }

    /// Whether the panda takes part in the game at all.
    pub open spec fn alive(self) -> bool {
        self.state != PandaState::Dead
    }

    /// Whether the panda has outlived its time at `now`: it is alive, not
    /// held by the player, and older than the independence lifetime.
    pub open spec fn ages_out(self, now: u64, tuning: Tuning) -> bool {
        &&& self.state != PandaState::Dead
        &&& self.state != PandaState::Grabbed
        &&& elapsed_since(now, self.spawn_time) > tuning.independence_lifetime
    }

    /// The panda after its mover ran for one frame, and the distance to
    /// sweep it by.
    pub open spec fn moved(self, frame: Frame) -> (Panda, Displacement) {
        let r = self.mover.routine(frame, self.pos, self.speed);
        (Panda { mover: r.0, speed: r.1, ..self }, r.2)
    }

    /// The panda with its wandering taken up again at `now` with velocity
    /// `wander`.
    pub open spec fn wandering(self, now: u64, wander: Velocity) -> Panda {
        Panda {
            state: PandaState::Normal,
            mover: ActiveMover::Normal(NormalMover { time_since_last_move: now }),
            speed: wander,
            ..self
        }
    }

    /// One frame of the panda's life, and what the collision world is to do
    /// with its actor.
    ///
    /// A dead panda stays as it is. A panda that has outlived its time dies
    /// where it stands. Otherwise its time out of pairing runs down, and:
    /// a grabbed panda is thrown along `facing` if the action was pressed,
    /// and is else put at `holder_at` plus the grab offset, its mover left
    /// alone; any other panda runs its mover and is swept by what the mover
    /// says. When the mover has reached its end the panda takes up
    /// wandering with velocity `wander`, and after a love episode its time
    /// out of pairing starts.
    pub open spec fn advanced(
        self,
        holder_at: Point,
        facing: Direction,
        pressed: bool,
        frame: Frame,
        wander: Velocity,
        tuning: Tuning,
    ) -> (Panda, Motion) {
        if self.state == PandaState::Dead {
            (self, Motion::Rest)
        } else if self.ages_out(frame.now, tuning) {
            (Panda { state: PandaState::Dead, ..self }, Motion::Rest)
        } else {
            let cooled = Panda { loving_cooldown: run_down(self.loving_cooldown, frame.dt), ..self };
            if self.state == PandaState::Grabbed {
                if pressed {
                    (
                        Panda {
                            state: PandaState::Thrown,
                            mover: ActiveMover::Thrown(
                                ThrownMover {
                                    thrown_direction: normalized(facing),
                                    throwing_speed: THROWING_SPEED,
                                    init_time: frame.now,
                                },
                            ),
                            ..cooled
                        },
                        Motion::Rest,
                    )
                } else {
                    let held_at = holder_at.shifted(tuning.grab_offset);
                    (Panda { pos: held_at, ..cooled }, Motion::Place(held_at))
                }
            } else {
                let (moved, sweep) = cooled.moved(frame);
                if moved.mover.finished() {
                    let settled = moved.wandering(frame.now, wander);
                    if self.state == PandaState::FoundLove {
                        (
                            Panda { loving_cooldown: tuning.loving_cooldown, ..settled },
                            Motion::Sweep(sweep),
                        )
                    } else {
                        (settled, Motion::Sweep(sweep))
                    }
                } else {
                    (moved, Motion::Sweep(sweep))
                }
            }
        }
    }

    /// Whether `after` and `motion` are what one frame makes of this panda
    /// for some wander velocity that the tuning allows.
    pub open spec fn steps_to(
        self,
        after: Panda,
        motion: Motion,
        holder_at: Point,
        facing: Direction,
        pressed: bool,
        frame: Frame,
        tuning: Tuning,
    ) -> bool {
        exists|wander: Velocity|
            {
                &&& #[trigger] PandaFactory::wanders(wander, tuning)
                &&& after == self.advanced(holder_at, facing, pressed, frame, wander, tuning).0
                &&& motion == self.advanced(holder_at, facing, pressed, frame, wander, tuning).1
            }
    }

    /// The panda after the world reported where its actor stands. A grabbed
    /// panda is where the player holds it and a dead one where it died,
    /// whatever the report says.
    pub open spec fn arrived(self, at: Point) -> Panda {
        if self.state == PandaState::Grabbed || self.state == PandaState::Dead {
            self
        } else {
            Panda { pos: at, ..self }
        }
    }

    /// The panda with all its animations stepped and the countdown wound
    /// up.
    pub open spec fn next_frames(self) -> Panda {
        Panda {
            frame_countdown: PANDA_FRAME_INTERVAL,
            heart_anim_index: next_frame(self.heart_anim_index, HEART_FRAMES),
            walk_anim_index: next_frame(self.walk_anim_index, PANDA_WALK_FRAMES),
            love_anim_index: next_frame(self.love_anim_index, LOVE_FRAMES),
            thrown_anim_index: next_frame(self.thrown_anim_index, THROWN_FRAMES),
            ..self
        }
    }

    /// The panda after `dt` microseconds of animation: a dead panda does
    /// not animate; for any other the countdown runs, and when it runs out
    /// the animations step.
    pub open spec fn animated(self, dt: u32) -> Panda {
        if self.state == PandaState::Dead {
            self
        } else if dt >= self.frame_countdown {
            self.next_frames()
        } else {
            Panda { frame_countdown: (self.frame_countdown - dt) as u64, ..self }
        }
    }

    /// Runs the panda's mover for one frame and returns the distance to
    /// sweep the panda's actor by.
    pub fn apply_movement(&mut self, frame: Frame) -> (sweep: Displacement)
        requires
            old(self).well_formed(),
        ensures
            *final(self) == old(self).moved(frame).0,
            sweep == old(self).moved(frame).1,
            final(self).speed.well_formed(),
            final(self).mover.well_formed(),
    {
        let at = self.pos;
        self.mover.apply_movement_routine(frame, at, &mut self.speed)
    }

    /// Steps all four animations, each wrapping at its own length, and
    /// winds the countdown up.
    pub fn update_animation_indices(&mut self)
        requires
            old(self).well_formed(),
        ensures
            *final(self) == old(self).next_frames(),
            final(self).well_formed(),
    {
        self.frame_countdown = PANDA_FRAME_INTERVAL;
        self.heart_anim_index = step_frame(self.heart_anim_index, HEART_FRAMES);
        self.walk_anim_index = step_frame(self.walk_anim_index, PANDA_WALK_FRAMES);
        self.love_anim_index = step_frame(self.love_anim_index, LOVE_FRAMES);
        self.thrown_anim_index = step_frame(self.thrown_anim_index, THROWN_FRAMES);
    }

    /// Lets `dt` microseconds of animation pass.
    pub fn animate(&mut self, dt: u32)
        requires
            old(self).well_formed(),
        ensures
            *final(self) == old(self).animated(dt),
            final(self).well_formed(),
    {
        if self.state != PandaState::Dead {
            if dt as u64 >= self.frame_countdown {
                self.update_animation_indices();
            } else {
                self.frame_countdown = self.frame_countdown - dt as u64;
            }
        }
    }

    /// Records where the world left the panda's actor after a sweep.
    pub fn arrive(&mut self, at: Point)
        ensures
            *final(self) == old(self).arrived(at),
            old(self).well_formed() ==> final(self).well_formed(),
    {
        if self.state != PandaState::Grabbed && self.state != PandaState::Dead {
            self.pos = at;
        }
    }

    /// Takes the panda through one frame: see [`Panda::advanced`].
    ///
    /// A grabbed panda that is not thrown ends the frame at the holder's
    /// position plus the grab offset, whatever its velocity and mover were.
    /// A panda older than the independence lifetime dies, unless it is
    /// grabbed: a grabbed panda never dies in the hand.
    pub fn advance(
        &mut self,
        holder_at: Point,
        facing: Direction,
        pressed: bool,
        frame: Frame,
        wander: Velocity,
        tuning: &Tuning,
    ) -> (motion: Motion)
        requires
            old(self).well_formed(),
            wander.well_formed(),
        ensures
            *final(self) == old(self).advanced(holder_at, facing, pressed, frame, wander, *tuning).0,
            motion == old(self).advanced(holder_at, facing, pressed, frame, wander, *tuning).1,
            final(self).well_formed(),
            old(self).state == PandaState::Grabbed && !pressed ==> final(self).pos
                == holder_at.shifted(tuning.grab_offset) && motion == Motion::Place(
                final(self).pos,
            ) && final(self).state == PandaState::Grabbed,
            old(self).state == PandaState::Grabbed ==> final(self).state != PandaState::Dead,
            old(self).state == PandaState::Grabbed && pressed ==> final(self).state
                == PandaState::Thrown,
            old(self).state != PandaState::Grabbed ==> final(self).state != PandaState::Grabbed,
            old(self).state != PandaState::Grabbed && elapsed_since(frame.now, old(self).spawn_time)
                > tuning.independence_lifetime ==> final(self).state == PandaState::Dead,
            old(self).state == PandaState::Dead ==> *final(self) == *old(self),
    {
        if self.state == PandaState::Dead {
            return Motion::Rest;
        }
        if self.state != PandaState::Grabbed && elapsed(frame.now, self.spawn_time)
            > tuning.independence_lifetime {
            self.state = PandaState::Dead;
            return Motion::Rest;
        }
        self.loving_cooldown =
        if self.loving_cooldown >= frame.dt as u64 {
            self.loving_cooldown - frame.dt as u64
        } else {
            0
        };
        if self.state == PandaState::Grabbed {
            if pressed {
                self.state = PandaState::Thrown;
                self.mover = ActiveMover::Thrown(ThrownMover::new(facing, frame.now));
                Motion::Rest
            } else {
                let held_at = holder_at.offset(tuning.grab_offset);
                self.pos = held_at;
                Motion::Place(held_at)
            }
        } else {
            let was_in_love = self.state == PandaState::FoundLove;
            let sweep = self.apply_movement(frame);
            if self.mover.movement_complete() {
                self.state = PandaState::Normal;
                self.mover = ActiveMover::Normal(NormalMover::new(frame.now));
                self.speed = wander;
                if was_in_love {
                    self.loving_cooldown = tuning.loving_cooldown;
                }
            }
            Motion::Sweep(sweep)
        }
    }

    /// Takes the panda through one frame with a wander velocity drawn at
    /// random: both components below the tuning's wander speed.
    pub fn advance_at_random(
        &mut self,
        holder_at: Point,
        facing: Direction,
        pressed: bool,
        frame: Frame,
        tuning: &Tuning,
    ) -> (motion: Motion)
        requires
            old(self).well_formed(),
            tuning.well_formed(),
        ensures
            old(self).steps_to(*final(self), motion, holder_at, facing, pressed, frame, *tuning),
            final(self).well_formed(),
            old(self).state == PandaState::Grabbed && !pressed ==> final(self).pos
                == holder_at.shifted(tuning.grab_offset) && motion == Motion::Place(
                final(self).pos,
            ) && final(self).state == PandaState::Grabbed,
            old(self).state == PandaState::Grabbed && pressed ==> final(self).state
                == PandaState::Thrown,
            old(self).state != PandaState::Grabbed ==> final(self).state != PandaState::Grabbed,
    {
        let wander = PandaFactory::wander(tuning);
        self.advance(holder_at, facing, pressed, frame, wander, tuning)
    }
}

impl PandaFactory {
    /// Whether `v` is a velocity that a panda may take up wandering with:
    /// both components are at least zero and, unless the tuning's wander
    /// speed is zero, below it.
    pub open spec fn wanders(v: Velocity, tuning: Tuning) -> bool {
        &&& 0 <= v.x <= tuning.wander_speed
        &&& 0 <= v.y <= tuning.wander_speed
        &&& tuning.wander_speed > 0 ==> v.x < tuning.wander_speed && v.y < tuning.wander_speed
    }

    /// Draws a wander velocity: two draws, put together by [`PandaFactory::of_draws`].
    pub fn wander(tuning: &Tuning) -> (v: Velocity)
        requires
            tuning.well_formed(),
        ensures
            PandaFactory::wanders(v, *tuning),
            v.well_formed(),
    {
        let x = random_between(0, tuning.wander_speed);
        let y = random_between(0, tuning.wander_speed);
        PandaFactory::of_draws(x, y)
    }

    /// The wander velocity that two draws make: the first draw is its x
    /// component, the second its y component.
    pub open spec fn drawn(x: u32, y: u32) -> Velocity {
        Velocity { x: x as i32, y: y as i32 }
    }

    /// Puts two draws together to a wander velocity.
    pub fn of_draws(x: u32, y: u32) -> (v: Velocity)
        requires
            x <= i32::MAX,
            y <= i32::MAX,
        ensures
            v == PandaFactory::drawn(x, y),
            v.x == x,
            v.y == y,
            v.well_formed(),
    {
        Velocity { x: x as i32, y: y as i32 }
    }

    /// The place with the given number where a panda can appear at the
    /// start of a session.
    pub fn spawn_place(index: u32) -> (at: Point)
        requires
            index < SPAWN_POINTS,
        ensures
            at == spawn_point(index as int),
    {
        if index == 0 {
            Point { x: 170, y: 230 }
        } else if index == 1 {
            Point { x: 200, y: 100 }
        } else if index == 2 {
            Point { x: 350, y: 170 }
        } else {
            Point { x: 100, y: 350 }
        }
    }

    /// Makes the panda that appears at `at` with velocity `speed` at `now`.
    pub fn assemble(at: Point, speed: Velocity, now: u64) -> (panda: Panda)
        requires
            speed.well_formed(),
        ensures
            panda == Panda::fresh(at, speed, now),
            panda.well_formed(),
    {
        Panda {
            pos: at,
            speed,
            mover: ActiveMover::Normal(NormalMover::new(now)),
            state: PandaState::Normal,
            heart_anim_index: 0,
            walk_anim_index: 0,
            love_anim_index: 0,
            thrown_anim_index: 0,
            frame_countdown: FIRST_FRAME_DELAY,
            spawn_time: now,
            loving_cooldown: 0,
        }
    }

    /// Makes a panda at one of the spawn points, picked at random, with a
    /// wander velocity drawn at random.
    pub fn create_panda(now: u64, tuning: &Tuning) -> (panda: Panda)
        requires
            tuning.well_formed(),
        ensures
            exists|index: int|
                0 <= index < SPAWN_POINTS && panda.pos == #[trigger] spawn_point(index),
            PandaFactory::wanders(panda.speed, *tuning),
            panda == Panda::fresh(panda.pos, panda.speed, now),
            panda.well_formed(),
    {
        let index = random_between(0, SPAWN_POINTS);
        let at = PandaFactory::spawn_place(index);
        assert(at == spawn_point(index as int));
        let speed = PandaFactory::wander(tuning);
        PandaFactory::assemble(at, speed, now)
    }

    /// Makes a panda at `at`, with a wander velocity drawn at random.
    pub fn create_panda_at(at: Point, now: u64, tuning: &Tuning) -> (panda: Panda)
        requires
            tuning.well_formed(),
        ensures
            PandaFactory::wanders(panda.speed, *tuning),
            panda == Panda::fresh(at, panda.speed, now),
            panda.well_formed(),
    {
        let speed = PandaFactory::wander(tuning);
        PandaFactory::assemble(at, speed, now)
    }
}

} // verus!
