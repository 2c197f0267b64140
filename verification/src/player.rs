//! The player: steering by the keyboard, and the grab and throw cycle.

use vstd::prelude::*;
use crate::animation::{next_frame, step_frame, FIRST_FRAME_DELAY};
use crate::heading::Direction;
use crate::tuning::Tuning;
use crate::units::{Displacement, Point, Velocity};

verus! {

/// The speed a player walks at, in thousandths of a pixel per second.
pub const PLAYER_SPEED: u32 = 100_000;

/// One over the square root of two, in millionths: the share of the speed
/// that each axis gets when walking diagonally.
pub const DIAGONAL_SHARE: u64 = 707_107;

/// Time between two frames of the walk animation, in microseconds.
pub const PLAYER_FRAME_INTERVAL: u64 = 250_000;

/// The number of frames in the walk animation.
pub const WALK_FRAMES: u8 = 4;

/// Where the player is in the grab and throw cycle.
#[derive(Clone, Copy, Debug, PartialEq, Eq, Structural)]
pub enum PlayerState {
    Normal,
    Grabbing,
    Throwing,
}

/// The directional keys that are held down.
#[derive(Clone, Copy, Debug, PartialEq, Eq, Structural)]
pub struct Keys {
    pub right: bool,
    pub left: bool,
    pub up: bool,
    pub down: bool,
}

/// The player.
#[derive(Clone, Copy, Debug, PartialEq, Eq, Structural)]
pub struct Player {
    /// Where the player's collider stands, as last reported.
    pub pos: Point,
    /// Walking speed, in thousandths of a pixel per second.
    pub speed: u32,
    /// The direction last walked in: each component is -1, 0 or 1.
    pub dir: Direction,
    pub state: PlayerState,
    /// What is left of the recovery after a throw, in microseconds.
    pub throw_cooldown: u64,
    pub walk_anim_index: u8,
    /// Time until the next frame of the walk animation, in microseconds.
    pub frame_countdown: u64,
}

impl Keys {
    /// Whether any directional key is held.
    pub open spec fn any(self) -> bool {
        self.right || self.left || self.up || self.down
    }

    /// The direction faced after these keys were read, having faced `dir`
    /// before. With no key held the direction stays. Otherwise it is set
    /// anew: right wins over left and up over down, and up is negative y.
    pub open spec fn facing(self, dir: Direction) -> Direction {
        Direction {
            x: if self.right {
                1
            } else if self.left {
                -1i32
            } else if self.any() {
                0
            } else {
                dir.x
            },
            y: if self.up {
                -1i32
            } else if self.down {
                1
            } else if self.any() {
                0
            } else {
                dir.y
            },
        }
    }
}

impl Player {
    /// A player whose facing is on the key grid and whose speed and
    /// animation index are in range.
    pub open spec fn well_formed(self) -> bool {
        &&& -1 <= self.dir.x <= 1
        &&& -1 <= self.dir.y <= 1
        &&& self.speed <= i32::MAX
        &&& self.walk_anim_index < WALK_FRAMES
    }

    /// The share of the speed that one axis gets when facing `dir`: all of
    /// it along an axis, one over root two of it, rounded down, on a
    /// diagonal.
    pub open spec fn axis_speed(self, dir: Direction) -> int {
        if dir.x != 0 && dir.y != 0 {
            self.speed * DIAGONAL_SHARE / 1_000_000
        } else {
            self.speed as int
        }
    }

    /// The velocity when walking along `dir`.
    pub open spec fn velocity(self, dir: Direction) -> Velocity {
        Velocity {
            x: (dir.x * self.axis_speed(dir)) as i32,
            y: (dir.y * self.axis_speed(dir)) as i32,
        }
    }

    /// The player after the keys were read and `dt` microseconds have
    /// passed: the facing follows the keys, and a throw's recovery runs
    /// down; once `dt` exceeds what is left of it, the player is back to
    /// normal with the recovery wound up again.
    pub open spec fn controlled(self, keys: Keys, dt: u32, tuning: Tuning) -> Player {
        let recovered = self.state == PlayerState::Throwing && dt > self.throw_cooldown;
        Player {
            dir: keys.facing(self.dir),
            state: if recovered {
                PlayerState::Normal
            } else {
                self.state
            },
            throw_cooldown: if recovered {
                tuning.throw_cooldown
            } else if self.state == PlayerState::Throwing {
                (self.throw_cooldown - dt) as u64
            } else {
                self.throw_cooldown
            },
            ..self
        }
    }

    /// The distance to sweep the player by: none unless a directional key
    /// is held, else the velocity along the new facing over `dt`.
    pub open spec fn stride(self, keys: Keys, dt: u32) -> Option<Displacement> {
        if keys.any() {
            Some(self.velocity(keys.facing(self.dir)).over(dt))
        } else {
            None
        }
    }

    /// The player after `dt` microseconds of animation: when the countdown
    /// runs out it is wound up again and the walk animation steps.
    pub open spec fn animated(self, dt: u32) -> Player {
        if dt >= self.frame_countdown {
            Player {
                frame_countdown: PLAYER_FRAME_INTERVAL,
                walk_anim_index: next_frame(self.walk_anim_index, WALK_FRAMES),
                ..self
            }
        } else {
            Player { frame_countdown: (self.frame_countdown - dt) as u64, ..self }
        }
    }

    /// The player at the start of a session, standing at the origin: facing
    /// nowhere, hands free.
    pub open spec fn initial(tuning: Tuning) -> Player {
        Player {
            pos: Point { x: 0, y: 0 },
            speed: PLAYER_SPEED,
            dir: Direction { x: 0, y: 0 },
            state: PlayerState::Normal,
            throw_cooldown: tuning.throw_cooldown,
            walk_anim_index: 0,
            frame_countdown: FIRST_FRAME_DELAY,
        }
    }

    /// A player standing at `at`, facing nowhere, hands free.
    pub fn new(at: Point, tuning: &Tuning) -> (p: Player)
        ensures
            p == (Player { pos: at, ..Player::initial(*tuning) }),
            p.well_formed(),
    {
        Player {
            pos: at,
            speed: PLAYER_SPEED,
            dir: Direction { x: 0, y: 0 },
            state: PlayerState::Normal,
            throw_cooldown: tuning.throw_cooldown,
            walk_anim_index: 0,
            frame_countdown: FIRST_FRAME_DELAY,
        }
    }

    /// Reads the keys and lets `dt` microseconds pass. Returns the distance
    /// to sweep the player's collider by, first horizontally, then
    /// vertically, if a directional key is held.
    pub fn control(&mut self, keys: Keys, dt: u32, tuning: &Tuning) -> (stride: Option<
        Displacement,
    >)
        requires
            old(self).well_formed(),
        ensures
            *final(self) == old(self).controlled(keys, dt, *tuning),
            stride == old(self).stride(keys, dt),
            final(self).well_formed(),
    {
        let moving = keys.right || keys.left || keys.up || keys.down;
        if moving {
            self.dir = Direction { x: 0, y: 0 };
        }
        if keys.right {
            self.dir.x = 1;
        } else if keys.left {
            self.dir.x = -1;
        }
        if keys.up {
            self.dir.y = -1;
        } else if keys.down {
            self.dir.y = 1;
        }
        let diagonal = self.dir.x != 0 && self.dir.y != 0;
        let axis_speed: i32 = if diagonal {
            (self.speed as u64 * DIAGONAL_SHARE / 1_000_000) as i32
        } else {
            self.speed as i32
        };
        let stride = if moving {
            let v = Velocity { x: self.dir.x * axis_speed, y: self.dir.y * axis_speed };
            Some(v.travel(dt))
        } else {
            None
        };
        if self.state == PlayerState::Throwing {
            if dt as u64 > self.throw_cooldown {
                self.throw_cooldown = tuning.throw_cooldown;
                self.state = PlayerState::Normal;
            } else {
                self.throw_cooldown = self.throw_cooldown - dt as u64;
            }
        }
        stride
    }

    /// Records where the world left the player's collider.
    pub fn arrive(&mut self, at: Point)
        ensures
            *final(self) == (Player { pos: at, ..*old(self) }),
    {
        self.pos = at;
    }

    /// Lets `dt` microseconds of animation pass.
    pub fn animate(&mut self, dt: u32)
        requires
            old(self).well_formed(),
        ensures
            *final(self) == old(self).animated(dt),
            final(self).well_formed(),
    {
        if dt as u64 >= self.frame_countdown {
            self.frame_countdown = PLAYER_FRAME_INTERVAL;
            self.walk_anim_index = step_frame(self.walk_anim_index, WALK_FRAMES);
        } else {
            self.frame_countdown = self.frame_countdown - dt as u64;
        }
    }
}

} // verus!
