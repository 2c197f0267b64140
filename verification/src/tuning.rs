//! The values that tune a session.

use vstd::prelude::*;
use crate::rng::RANDOM_SPAN_LIMIT;
use crate::units::Point;

verus! {

/// The tuning values of a session, in the units of [`crate::units`].
#[derive(Clone, Copy, Debug, PartialEq, Eq, Structural)]
pub struct Tuning {
    /// A panda closer to the player than this on both axes can be grabbed,
    /// in pixels.
    pub grab_range: u32,
    /// Two pandas closer to each other than this on both axes pair off, in
    /// pixels.
    pub pairing_range: u32,
    /// Where a grabbed panda is held, relative to the player.
    pub grab_offset: Point,
    /// How long the player recovers after a throw, in microseconds.
    pub throw_cooldown: u64,
    /// The age beyond which a panda leaves for good, in microseconds.
    pub independence_lifetime: u64,
    /// How long a panda stays out of pairing after a love episode, in
    /// microseconds.
    pub loving_cooldown: u64,
    /// What one pairing adds to the score.
    pub pairing_bonus: u64,
    /// What one wandering panda eats, in thousandths of a bamboo per second.
    pub hunger_rate: u32,
    /// The time between two deliveries of bamboo, in microseconds.
    pub refill_interval: u64,
    /// What one delivery adds to the stock, in billionths of a bamboo.
    pub refill_amount: u64,
    /// The bound below which both components of a wander velocity are
    /// drawn, in thousandths of a pixel per second.
    pub wander_speed: u32,
}

impl Tuning {
    /// Tuning that the rest of the core can work with: the wander velocity
    /// must be one that the generator can draw.
    pub open spec fn well_formed(self) -> bool {
        self.wander_speed <= RANDOM_SPAN_LIMIT
    }

    /// The values of [`Tuning::standard`].
    pub open spec fn standard_values() -> Tuning {
        Tuning {
            grab_range: 20,
            pairing_range: 32,
            grab_offset: Point { x: 0, y: -5i32 },
            throw_cooldown: 2_000_000,
            independence_lifetime: 60_000_000,
            loving_cooldown: 5_000_000,
            pairing_bonus: 50,
            hunger_rate: 250,
            refill_interval: 10_000_000,
            refill_amount: 5_000_000_000,
            wander_speed: 50_000,
        }
    }

    /// The tuning that the game ships with.
    pub fn standard() -> (t: Tuning)
        ensures
            t == Tuning::standard_values(),
            t.well_formed(),
    {
        Tuning {
            grab_range: 20,
            pairing_range: 32,
            grab_offset: Point { x: 0, y: -5 },
            throw_cooldown: 2_000_000,
            independence_lifetime: 60_000_000,
            loving_cooldown: 5_000_000,
            pairing_bonus: 50,
            hunger_rate: 250,
            refill_interval: 10_000_000,
            refill_amount: 5_000_000_000,
            wander_speed: 50_000,
        }
    }
}

} // verus!
