//! Movement strategies: how one entity's motion evolves from frame to frame.
//!
//! A mover does not touch the collision world. Each frame it is told where
//! its actor stands and answers with the distance the actor should try to
//! cover; the caller sweeps the actor through the world by that much.

use vstd::prelude::*;
use crate::heading::{normalized, toward_zero, unit_heading, Direction, Heading, UNIT};
use crate::units::{elapsed, elapsed_since, Displacement, Frame, Point, Velocity};

verus! {

/// Time between two quarter turns of a wandering entity, in microseconds.
pub const TURN_INTERVAL: u64 = 1_500_000;

/// Speed at which a thrown entity leaves the hand, in thousandths of a pixel
/// per second.
pub const THROWING_SPEED: u32 = 500_000;

/// Speed below which a thrown entity is taken to be at rest.
pub const REST_THRESHOLD: u32 = 1_000;

/// Decay rate `k` of a throw, in thousandths per second: the speed is
/// multiplied each frame by `1 - (k·t)²`, `t` the time since the throw.
pub const DECAY_RATE: u64 = 869;

/// The scale of [`decay_factor`]: its value for a factor of one.
pub const DECAY_SCALE: u64 = 1_000_000_000_000_000_000;

/// Time after which the decay curve has reached zero, in microseconds.
pub const DECAY_HORIZON: u64 = 1_150_748;

/// How long a love episode lasts, in microseconds.
pub const LOVE_DURATION: u64 = 3_000_000;

/// The factor `1 - (k·t)²` by which a throw's speed is multiplied `t`
/// microseconds after the throw, in units of `1 / DECAY_SCALE`. Beyond the
/// point where the curve crosses zero the factor is zero, never negative.
pub open spec fn decay_factor(t: nat) -> nat {
    if DECAY_RATE * t >= 1_000_000_000 {
        0
    } else {
        (DECAY_SCALE - (DECAY_RATE * t) * (DECAY_RATE * t)) as nat
    }
}

/// One movement strategy.
pub trait Mover: Sized {
    /// What the strategy's fields must satisfy.
    spec fn well_formed(&self) -> bool;

    /// Whether the movement has reached its natural end.
    spec fn finished(&self) -> bool;

    /// One frame of the strategy for an actor standing at `at` with velocity
    /// `speed`: the strategy afterwards, the velocity afterwards, and the
    /// distance to sweep the actor by.
    spec fn routine(self, frame: Frame, at: Point, speed: Velocity) -> (Self, Velocity, Displacement);

    /// Runs one frame of the strategy.
    fn apply_movement_routine(&mut self, frame: Frame, at: Point, speed: &mut Velocity) -> (d:
        Displacement)
        requires
            old(self).well_formed(),
            old(speed).well_formed(),
        ensures
            *final(self) == old(self).routine(frame, at, *old(speed)).0,
            *final(speed) == old(self).routine(frame, at, *old(speed)).1,
            d == old(self).routine(frame, at, *old(speed)).2,
            final(self).well_formed(),
            final(speed).well_formed(),
    ;

    /// Whether the movement has reached its natural end.
    fn movement_complete(&self) -> (done: bool)
        ensures
            done == self.finished(),
    ;
}

/// The axis along which a patrol is bounded.
#[derive(Clone, Copy, Debug, PartialEq, Eq, Structural)]
pub enum Axis {
    Horizontal,
    Vertical,
}

/// Bounces between two bounds on one axis.
#[derive(Clone, Copy, Debug, PartialEq, Eq, Structural)]
pub struct PatrolMover {
    pub axis: Axis,
    pub lower: i32,
    pub upper: i32,
}

/// Wanders in a lazy square: straight ahead, with a quarter turn every
/// [`TURN_INTERVAL`].
#[derive(Clone, Copy, Debug, PartialEq, Eq, Structural)]
pub struct NormalMover {
    pub time_since_last_move: u64,
}

/// Flies along a fixed heading with a speed that decays to rest.
#[derive(Clone, Copy, Debug, PartialEq, Eq, Structural)]
pub struct ThrownMover {
    pub thrown_direction: Heading,
    pub throwing_speed: u32,
    pub init_time: u64,
}

/// Stands still until [`LOVE_DURATION`] has passed.
#[derive(Clone, Copy, Debug, PartialEq, Eq, Structural)]
pub struct LoveMover {
    pub init_time: u64,
    pub complete: bool,
}

impl PatrolMover {
    /// A patrol between `lower` and `upper` on `axis`.
    pub fn new(axis: Axis, lower: i32, upper: i32) -> (m: PatrolMover)
        ensures
            m == (PatrolMover { axis, lower, upper }),
    {
        PatrolMover { axis, lower, upper }
    }

    /// One velocity component after the bounds had their say: it is negated
    /// where the actor stands at or beyond a bound and moves further out.
    pub open spec fn reflected(self, position: i32, component: i32) -> i32 {
        if (position >= self.upper && component > 0) || (position <= self.lower && component < 0) {
            (-component) as i32
        } else {
            component
        }
    }

    /// The velocity after the bounds had their say.
    pub open spec fn turned_back(self, at: Point, speed: Velocity) -> Velocity {
        match self.axis {
            Axis::Horizontal => Velocity { x: self.reflected(at.x, speed.x), y: speed.y },
            Axis::Vertical => Velocity { x: speed.x, y: self.reflected(at.y, speed.y) },
        }
    }

    fn reflect(&self, position: i32, component: i32) -> (c: i32)
        requires
            component > i32::MIN,
        ensures
            c == self.reflected(position, component),
            c > i32::MIN,
    {
        if (position >= self.upper && component > 0) || (position <= self.lower && component < 0) {
            -component
        } else {
            component
        }
    }
}

impl Mover for PatrolMover {
    open spec fn well_formed(&self) -> bool {
        true
    }

    open spec fn finished(&self) -> bool {
        false
    }

    open spec fn routine(self, frame: Frame, at: Point, speed: Velocity) -> (
        Self,
        Velocity,
        Displacement,
    ) {
        (self, self.turned_back(at, speed), speed.over(frame.dt))
    }

    fn apply_movement_routine(&mut self, frame: Frame, at: Point, speed: &mut Velocity) -> (d:
        Displacement) {
        let d = speed.travel(frame.dt);
        match self.axis {
            Axis::Horizontal => {
                speed.x = self.reflect(at.x, speed.x);
            },
            Axis::Vertical => {
                speed.y = self.reflect(at.y, speed.y);
            },
        }
        d
    }

    fn movement_complete(&self) -> (done: bool) {
        false
    }
}

impl NormalMover {
    /// A wanderer that will first turn [`TURN_INTERVAL`] after `now`.
    pub fn new(now: u64) -> (m: NormalMover)
        ensures
            m == (NormalMover { time_since_last_move: now }),
    {
        NormalMover { time_since_last_move: now }
    }

    /// Whether the quarter turn is due at `now`.
    pub open spec fn turn_due(self, now: u64) -> bool {
        elapsed_since(now, self.time_since_last_move) > TURN_INTERVAL
    }
}

impl Mover for NormalMover {
    open spec fn well_formed(&self) -> bool {
        true
    }

    open spec fn finished(&self) -> bool {
        false
    }

    open spec fn routine(self, frame: Frame, at: Point, speed: Velocity) -> (
        Self,
        Velocity,
        Displacement,
    ) {
        if self.turn_due(frame.now) {
            (
                NormalMover { time_since_last_move: frame.now },
                speed.quarter_turned(),
                speed.over(frame.dt),
            )
        } else {
            (self, speed, speed.over(frame.dt))
        }
    }

    fn apply_movement_routine(&mut self, frame: Frame, at: Point, speed: &mut Velocity) -> (d:
        Displacement) {
        let d = speed.travel(frame.dt);
        if elapsed(frame.now, self.time_since_last_move) > TURN_INTERVAL {
            let temp = speed.x;
            speed.x = -speed.y;
            speed.y = temp;
            self.time_since_last_move = frame.now;
        }
        d
    }

    fn movement_complete(&self) -> (done: bool) {
        false
    }
}

impl ThrownMover {
    /// A throw along `dir` that starts at `now`. The direction is stored
    /// normalised; a zero direction becomes the positive x axis.
    pub fn new(dir: Direction, now: u64) -> (m: ThrownMover)
        ensures
            m == (ThrownMover {
                thrown_direction: normalized(dir),
                throwing_speed: THROWING_SPEED,
                init_time: now,
            }),
            m.well_formed(),
            !m.finished(),
    {
        ThrownMover {
            thrown_direction: unit_heading(dir),
            throwing_speed: THROWING_SPEED,
            init_time: now,
        }
    }

    /// The speed that the next frame moves with: a speed below
    /// [`REST_THRESHOLD`] counts as rest.
    pub open spec fn live_speed(self) -> int {
        if self.throwing_speed < REST_THRESHOLD {
            0
        } else {
            self.throwing_speed as int
        }
    }

    /// The velocity that the next frame moves with: the heading times the
    /// live speed, each component rounded toward zero.
    pub open spec fn velocity(self) -> Velocity {
        Velocity {
            x: toward_zero(self.thrown_direction.x * self.live_speed(), UNIT as int) as i32,
            y: toward_zero(self.thrown_direction.y * self.live_speed(), UNIT as int) as i32,
        }
    }

    /// The mover after a frame: the live speed, multiplied by the decay
    /// factor for the time since the throw and rounded down.
    pub open spec fn stepped(self, frame: Frame) -> ThrownMover {
        ThrownMover {
            thrown_direction: self.thrown_direction,
            throwing_speed: (self.live_speed() * decay_factor(
                elapsed_since(frame.now, self.init_time),
            ) / DECAY_SCALE as int) as u32,
            init_time: self.init_time,
        }
    }

    /// The mover after one frame for each clock reading in `frames`, in
    /// order.
    pub open spec fn after(self, frames: Seq<Frame>) -> ThrownMover
        decreases frames.len(),
    {
        if frames.len() == 0 {
            self
        } else {
            self.after(frames.drop_last()).stepped(frames.last())
        }
    }

    /// The decay factor `t` microseconds after the throw.
    fn decay(t: u64) -> (f: u64)
        ensures
            f == decay_factor(t as nat),
            f <= DECAY_SCALE,
            t > 0 ==> f < DECAY_SCALE,
    {
        if t >= DECAY_HORIZON {
            0
        } else {
            let x: u64 = DECAY_RATE * t;
            assert(x * x <= 999_999_999 * 999_999_999 && (x > 0 ==> x * x > 0))
                by (nonlinear_arith)
                requires
                    0 <= x <= 999_999_999,
            ;
            DECAY_SCALE - x * x
        }
    }

    /// One component of the velocity.
    fn component(h: i32, speed: u32) -> (c: i32)
        requires
            -UNIT <= h <= UNIT,
            speed <= THROWING_SPEED,
        ensures
            c == toward_zero(h * speed, UNIT as int),
            -(THROWING_SPEED as int) <= c <= THROWING_SPEED,
            speed == 0 ==> c == 0,
    {
        assert(speed == 0 ==> h * speed == 0) by (nonlinear_arith);
        assert(-1_000_000 * 500_000 <= h * speed <= 1_000_000 * 500_000) by (nonlinear_arith)
            requires
                -1_000_000 <= h <= 1_000_000,
                0 <= speed <= 500_000,
        ;
        let product: i64 = h as i64 * speed as i64;
        if product >= 0 {
            (product / UNIT as i64) as i32
        } else {
            (-((-product) / UNIT as i64)) as i32
        }
    }
}

impl Mover for ThrownMover {
    open spec fn well_formed(&self) -> bool {
        self.thrown_direction.well_formed() && self.throwing_speed <= THROWING_SPEED
    }

    open spec fn finished(&self) -> bool {
        self.throwing_speed == 0
    }

    open spec fn routine(self, frame: Frame, at: Point, speed: Velocity) -> (
        Self,
        Velocity,
        Displacement,
    ) {
        (self.stepped(frame), speed, self.velocity().over(frame.dt))
    }

    /// Moves along the heading at the live speed, then lets the speed
    /// decay. The speed never rises, a frame taken after the moment of the
    /// throw lowers it unless it is zero, and a mover at rest stays at
    /// rest.
    fn apply_movement_routine(&mut self, frame: Frame, at: Point, speed: &mut Velocity) -> (d:
        Displacement)
        ensures
            final(self).throwing_speed <= old(self).throwing_speed,
            frame.now > old(self).init_time && old(self).throwing_speed > 0 ==> final(self).throwing_speed < old(self).throwing_speed,
            old(self).finished() ==> final(self).finished() && d == Displacement::zero(),
            final(self).thrown_direction == old(self).thrown_direction,
            final(self).init_time == old(self).init_time,
    {
        proof {
            lemma_thrown_speed_falls_if_late(*self, frame);
        }
        if self.throwing_speed < REST_THRESHOLD {
            self.throwing_speed = 0;
        }
        let v = Velocity {
            x: Self::component(self.thrown_direction.x, self.throwing_speed),
            y: Self::component(self.thrown_direction.y, self.throwing_speed),
        };
        let d = v.travel(frame.dt);
        assert(v.x == 0 && v.y == 0 ==> v.x * frame.dt == 0 && v.y * frame.dt == 0)
            by (nonlinear_arith);
        let factor = Self::decay(elapsed(frame.now, self.init_time));
        assert(self.throwing_speed * factor <= 500_000 * DECAY_SCALE) by (nonlinear_arith)
            requires
                0 <= self.throwing_speed <= 500_000,
                0 <= factor <= DECAY_SCALE,
        ;
        let decayed: u128 = self.throwing_speed as u128 * factor as u128 / DECAY_SCALE as u128;
        assert(decayed <= self.throwing_speed) by (nonlinear_arith)
            requires
                decayed == (self.throwing_speed * factor) / DECAY_SCALE as int,
                0 <= factor <= DECAY_SCALE,
                0 <= self.throwing_speed,
                DECAY_SCALE > 0,
        ;
        self.throwing_speed = decayed as u32;
        d
    }

    fn movement_complete(&self) -> (done: bool) {
        self.throwing_speed == 0
    }
}

impl LoveMover {
    /// A love episode that starts at `now`.
    pub fn new(now: u64) -> (m: LoveMover)
        ensures
            m == (LoveMover { init_time: now, complete: false }),
            !m.finished(),
    {
        LoveMover { init_time: now, complete: false }
    }
}

impl Mover for LoveMover {
    open spec fn well_formed(&self) -> bool {
        true
    }

    open spec fn finished(&self) -> bool {
        self.complete
    }

    open spec fn routine(self, frame: Frame, at: Point, speed: Velocity) -> (
        Self,
        Velocity,
        Displacement,
    ) {
        (
            LoveMover {
                init_time: self.init_time,
                complete: self.complete || elapsed_since(frame.now, self.init_time)
                    > LOVE_DURATION,
            },
            speed,
            Displacement::zero(),
        )
    }

    fn apply_movement_routine(&mut self, frame: Frame, at: Point, speed: &mut Velocity) -> (d:
        Displacement) {
        if elapsed(frame.now, self.init_time) > LOVE_DURATION {
            self.complete = true;
        }
        Displacement::none()
    }

    fn movement_complete(&self) -> (done: bool) {
        self.complete
    }
}

/// The strategy that an entity currently moves by: one of the closed set of
/// strategies.
#[derive(Clone, Copy, Debug, PartialEq, Eq, Structural)]
pub enum ActiveMover {
    Patrol(PatrolMover),
    Normal(NormalMover),
    Thrown(ThrownMover),
    Love(LoveMover),
}

impl Mover for ActiveMover {
    open spec fn well_formed(&self) -> bool {
        match *self {
            ActiveMover::Patrol(m) => m.well_formed(),
            ActiveMover::Normal(m) => m.well_formed(),
            ActiveMover::Thrown(m) => m.well_formed(),
            ActiveMover::Love(m) => m.well_formed(),
        }
    }

    open spec fn finished(&self) -> bool {
        match *self {
            ActiveMover::Patrol(m) => m.finished(),
            ActiveMover::Normal(m) => m.finished(),
            ActiveMover::Thrown(m) => m.finished(),
            ActiveMover::Love(m) => m.finished(),
        }
    }

    open spec fn routine(self, frame: Frame, at: Point, speed: Velocity) -> (
        Self,
        Velocity,
        Displacement,
    ) {
        match self {
            ActiveMover::Patrol(m) => {
                let r = m.routine(frame, at, speed);
                (ActiveMover::Patrol(r.0), r.1, r.2)
            },
            ActiveMover::Normal(m) => {
                let r = m.routine(frame, at, speed);
                (ActiveMover::Normal(r.0), r.1, r.2)
            },
            ActiveMover::Thrown(m) => {
                let r = m.routine(frame, at, speed);
                (ActiveMover::Thrown(r.0), r.1, r.2)
            },
            ActiveMover::Love(m) => {
                let r = m.routine(frame, at, speed);
                (ActiveMover::Love(r.0), r.1, r.2)
            },
        }
    }

    fn apply_movement_routine(&mut self, frame: Frame, at: Point, speed: &mut Velocity) -> (d:
        Displacement) {
        match self {
            ActiveMover::Patrol(m) => m.apply_movement_routine(frame, at, speed),
            ActiveMover::Normal(m) => m.apply_movement_routine(frame, at, speed),
            ActiveMover::Thrown(m) => m.apply_movement_routine(frame, at, speed),
            ActiveMover::Love(m) => m.apply_movement_routine(frame, at, speed),
        }
    }

    fn movement_complete(&self) -> (done: bool) {
        match self {
            ActiveMover::Patrol(m) => m.movement_complete(),
            ActiveMover::Normal(m) => m.movement_complete(),
            ActiveMover::Thrown(m) => m.movement_complete(),
            ActiveMover::Love(m) => m.movement_complete(),
        }
    }
}

/// The decay factor never exceeds one, and is below one at any time after
/// the throw.
pub proof fn lemma_decay_factor_bounds(t: nat)
    ensures
        decay_factor(t) <= DECAY_SCALE,
        t > 0 ==> decay_factor(t) < DECAY_SCALE,
{
    if DECAY_RATE * t < 1_000_000_000 {
        let x: int = DECAY_RATE * t;
        assert(0 <= x * x <= 999_999_999 * 999_999_999 && (x > 0 ==> x * x > 0))
            by (nonlinear_arith)
            requires
                0 <= x <= 999_999_999,
        ;
    }
}

/// [`lemma_thrown_speed_falls`], for any frame: the speed drops if the frame
/// comes after the moment of the throw.
proof fn lemma_thrown_speed_falls_if_late(m: ThrownMover, frame: Frame)
    requires
        m.well_formed(),
    ensures
        frame.now > m.init_time && m.throwing_speed > 0 ==> m.stepped(frame).throwing_speed
            < m.throwing_speed,
{
    if frame.now > m.init_time {
        lemma_thrown_speed_falls(m, frame);
    }
}

/// A thrown entity never gains speed: after any frame its speed is at most
/// what it was.
pub proof fn lemma_thrown_speed_never_rises(m: ThrownMover, frame: Frame)
    requires
        m.well_formed(),
    ensures
        m.stepped(frame).throwing_speed <= m.throwing_speed,
        m.stepped(frame).well_formed(),
{
    let f = decay_factor(elapsed_since(frame.now, m.init_time));
    let s = m.live_speed();
    lemma_decay_factor_bounds(elapsed_since(frame.now, m.init_time));
    assert(0 <= (s * f) / (DECAY_SCALE as int) <= s) by (nonlinear_arith)
        requires
            0 <= s,
            0 <= f <= DECAY_SCALE,
            DECAY_SCALE > 0,
    ;
}

/// A frame taken after the moment of the throw slows a moving thrown entity
/// down: its speed drops, unless it is zero already.
pub proof fn lemma_thrown_speed_falls(m: ThrownMover, frame: Frame)
    requires
        m.well_formed(),
        frame.now > m.init_time,
    ensures
        m.throwing_speed > 0 ==> m.stepped(frame).throwing_speed < m.throwing_speed,
{
    let t = elapsed_since(frame.now, m.init_time);
    let f = decay_factor(t);
    let s = m.live_speed();
    lemma_decay_factor_bounds(t);
    assert(0 <= (s * f) / (DECAY_SCALE as int) <= s && (s > 0 ==> (s * f) / (DECAY_SCALE as int)
        < s)) by (nonlinear_arith)
        requires
            0 <= s,
            0 <= f < DECAY_SCALE,
            DECAY_SCALE > 0,
    ;
}

/// A thrown entity at rest stays at rest, and reports so.
pub proof fn lemma_thrown_stays_at_rest(m: ThrownMover, frame: Frame)
    requires
        m.finished(),
    ensures
        m.stepped(frame).finished(),
{
    assert(0 * decay_factor(elapsed_since(frame.now, m.init_time)) == 0);
}

/// A frame taken [`DECAY_HORIZON`] or longer after the throw brings the
/// entity to rest at once, whatever its speed was.
pub proof fn lemma_thrown_rests_beyond_horizon(m: ThrownMover, frame: Frame)
    requires
        frame.now >= m.init_time + DECAY_HORIZON,
    ensures
        m.stepped(frame).finished(),
{
    assert(decay_factor(elapsed_since(frame.now, m.init_time)) == 0);
    assert(m.live_speed() * 0 == 0);
}

/// After `k` frames that each come after the moment of the throw, the speed
/// has dropped by at least `k`, or is zero.
proof fn lemma_thrown_speed_after(m: ThrownMover, frames: Seq<Frame>)
    requires
        m.well_formed(),
        forall|i: int| 0 <= i < frames.len() ==> (#[trigger] frames[i]).now > m.init_time,
    ensures
        m.after(frames).well_formed(),
        m.after(frames).init_time == m.init_time,
        m.after(frames).throwing_speed == 0 || m.after(frames).throwing_speed + frames.len()
            <= m.throwing_speed,
    decreases frames.len(),
{
    if frames.len() > 0 {
        let before = m.after(frames.drop_last());
        lemma_thrown_speed_after(m, frames.drop_last());
        lemma_thrown_speed_never_rises(before, frames.last());
        lemma_thrown_speed_falls(before, frames.last());
    }
}

/// A throw comes to rest within a bounded number of frames: after as many
/// frames as the speed it started with, each taken after the moment of the
/// throw, the entity is at rest and its movement is complete.
pub proof fn lemma_thrown_comes_to_rest(m: ThrownMover, frames: Seq<Frame>)
    requires
        m.well_formed(),
        forall|i: int| 0 <= i < frames.len() ==> (#[trigger] frames[i]).now > m.init_time,
        frames.len() >= m.throwing_speed,
    ensures
        m.after(frames).finished(),
{
    lemma_thrown_speed_after(m, frames);
}

} // verus!
