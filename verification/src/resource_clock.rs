//! The bamboo stock: eaten down by the wandering pandas, topped up at a
//! fixed interval, never below zero.

use vstd::prelude::*;
use crate::panda_factory::{Panda, PandaState};
use crate::tuning::Tuning;
use crate::units::{elapsed, elapsed_since, Frame};

verus! {

/// The stock at the start of a session, in billionths of a bamboo.
pub const INITIAL_STOCK: i64 = 100_000_000_000;

/// The bamboo stock and the time of its last delivery.
#[derive(Clone, Copy, Debug, PartialEq, Eq, Structural)]
pub struct ResourceClock {
    /// What is left, in billionths of a bamboo.
    pub stock: i64,
    /// When bamboo was last delivered, in microseconds.
    pub last_refill: u64,
}

/// The number of pandas among `pandas` that eat: those that wander.
pub open spec fn hungry_among(pandas: Seq<Panda>) -> nat
    decreases pandas.len(),
{
    if pandas.len() == 0 {
        0
    } else {
        hungry_among(pandas.drop_last()) + if pandas.last().state == PandaState::Normal {
            1nat
        } else {
            0nat
        }
    }
}

/// The number of pandas among `pandas` that are alive.
pub open spec fn alive_among(pandas: Seq<Panda>) -> nat
    decreases pandas.len(),
{
    if pandas.len() == 0 {
        0
    } else {
        alive_among(pandas.drop_last()) + if pandas.last().state != PandaState::Dead {
            1nat
        } else {
            0nat
        }
    }
}

/// Counts the pandas that eat.
pub fn count_hungry(pandas: &Vec<Panda>) -> (hungry: usize)
    ensures
        hungry == hungry_among(pandas@),
{
    let mut hungry: usize = 0;
    let mut i: usize = 0;
    while i < pandas.len()
        invariant
            i <= pandas@.len(),
            hungry <= i,
            hungry == hungry_among(pandas@.take(i as int)),
        decreases pandas@.len() - i,
    {
        proof {
            assert(pandas@.take(i + 1).drop_last() == pandas@.take(i as int));
        }
        if pandas[i].state == PandaState::Normal {
            hungry = hungry + 1;
        }
        i = i + 1;
    }
    proof {
        assert(pandas@.take(pandas@.len() as int) == pandas@);
    }
    hungry
}

/// Counts the pandas that are alive.
pub fn count_alive(pandas: &Vec<Panda>) -> (alive: usize)
    ensures
        alive == alive_among(pandas@),
{
    let mut alive: usize = 0;
    let mut i: usize = 0;
    while i < pandas.len()
        invariant
            i <= pandas@.len(),
            alive <= i,
            alive == alive_among(pandas@.take(i as int)),
        decreases pandas@.len() - i,
    {
        proof {
            assert(pandas@.take(i + 1).drop_last() == pandas@.take(i as int));
        }
        if pandas[i].state != PandaState::Dead {
            alive = alive + 1;
        }
        i = i + 1;
    }
    proof {
        assert(pandas@.take(pandas@.len() as int) == pandas@);
    }
    alive
}

impl ResourceClock {
    /// What `hungry` pandas eat in `dt` microseconds at the tuning's hunger
    /// rate, in billionths of a bamboo.
    pub open spec fn eaten(hungry: nat, dt: u32, tuning: Tuning) -> int {
        hungry * (tuning.hunger_rate * dt)
    }

    /// The stock after the meal of one frame: nothing where there was
    /// nothing, else what is left, and zero where more was eaten than there
    /// was.
    pub open spec fn after_meal(self, hungry: nat, dt: u32, tuning: Tuning) -> int {
        if self.stock <= 0 || ResourceClock::eaten(hungry, dt, tuning) >= self.stock {
            0
        } else {
            self.stock - ResourceClock::eaten(hungry, dt, tuning)
        }
    }

    /// Whether a delivery is due at `now`.
    pub open spec fn refill_due(self, now: u64, tuning: Tuning) -> bool {
        elapsed_since(now, self.last_refill) >= tuning.refill_interval
    }

    /// The clock after a frame: the meal is taken off the stock, and a
    /// delivery that is due is added on top, whatever the meal left; the
    /// stock stops at the largest number it can hold.
    pub open spec fn ticked(self, hungry: nat, frame: Frame, tuning: Tuning) -> ResourceClock {
        let left = self.after_meal(hungry, frame.dt, tuning);
        if self.refill_due(frame.now, tuning) {
            ResourceClock {
                stock: if left + tuning.refill_amount > i64::MAX {
                    i64::MAX
                } else {
                    (left + tuning.refill_amount) as i64
                },
                last_refill: frame.now,
            }
        } else {
            ResourceClock { stock: left as i64, last_refill: self.last_refill }
        }
    }

    /// A full stock whose first delivery is due one interval after `now`.
    pub fn new(now: u64) -> (clock: ResourceClock)
        ensures
            clock == (ResourceClock { stock: INITIAL_STOCK, last_refill: now }),
    {
        ResourceClock { stock: INITIAL_STOCK, last_refill: now }
    }

    /// Takes the clock through one frame in which `hungry` pandas eat, and
    /// says whether the meal left nothing: the session is then lost to
    /// starvation. The stock is never negative afterwards, however long the
    /// frame and however many the pandas.
    pub fn tick(&mut self, hungry: usize, frame: Frame, tuning: &Tuning) -> (starved: bool)
        ensures
            *final(self) == old(self).ticked(hungry as nat, frame, *tuning),
            starved == (old(self).after_meal(hungry as nat, frame.dt, *tuning) == 0),
            final(self).stock >= 0,
    {
        let mut left: i64 = 0;
        if self.stock > 0 {
            assert(tuning.hunger_rate * frame.dt <= 0xffff_ffff * 0xffff_ffff) by (nonlinear_arith)
                requires
                    0 <= tuning.hunger_rate <= 0xffff_ffff,
                    0 <= frame.dt <= 0xffff_ffff,
            ;
            let per_panda: u128 = tuning.hunger_rate as u128 * frame.dt as u128;
            assert(0 <= hungry * per_panda <= 0xffff_ffff_ffff_ffff * (0xffff_ffff * 0xffff_ffff))
                by (nonlinear_arith)
                requires
                    0 <= hungry <= 0xffff_ffff_ffff_ffff,
                    0 <= per_panda <= 0xffff_ffff * 0xffff_ffff,
            ;
            let eaten: u128 = hungry as u128 * per_panda;
            if eaten < self.stock as u128 {
                left = (self.stock as u128 - eaten) as i64;
            }
        }
        let starved = left == 0;
        if elapsed(frame.now, self.last_refill) >= tuning.refill_interval {
            let topped: i128 = left as i128 + tuning.refill_amount as i128;
            self.stock = if topped > i64::MAX as i128 {
                i64::MAX
            } else {
                topped as i64
            };
            self.last_refill = frame.now;
        } else {
            self.stock = left;
        }
        starved
    }
}

} // verus!
