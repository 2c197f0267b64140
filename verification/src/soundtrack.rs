//! When to ask for sounds. Playing them is the caller's business.

use vstd::prelude::*;

verus! {

/// The number of frames between two heart sounds.
pub const HEART_PERIOD: u32 = 10;

/// The number of frames after which the heart sounds stop by themselves.
pub const HEART_SPAN: u32 = 1000;

/// The two ends of a drum fill in the music.
#[derive(Debug, Clone, Copy, PartialEq, Eq, Hash)]
pub enum DrumFillEvent {
    Start,
    Finish,
}

/// Counts the frames of a love episode and says when a heart sound is due.
#[derive(Clone, Copy, Debug, PartialEq, Eq, Structural)]
pub struct HeartPulse {
    /// The number of frames since the episode began, if one is running.
    pub counter: Option<u32>,
}

impl HeartPulse {
    /// Whether a heart sound is due in this frame: an episode is running
    /// and its frame count is a multiple of [`HEART_PERIOD`].
    pub open spec fn due(self) -> bool {
        self.counter matches Some(count) && count % HEART_PERIOD == 0
    }

    /// The pulse after a frame: a running episode counts on, and ends once
    /// it has counted past [`HEART_SPAN`].
    pub open spec fn advanced(self) -> HeartPulse {
        match self.counter {
            None => self,
            Some(count) => if count > HEART_SPAN {
                HeartPulse { counter: None }
            } else {
                HeartPulse { counter: Some((count + 1) as u32) }
            },
        }
    }

    /// A pulse with no episode running.
    pub fn new() -> (pulse: HeartPulse)
        ensures
            pulse.counter is None,
    {
        HeartPulse { counter: None }
    }

    /// Begins an episode, or begins a running one anew.
    pub fn start(&mut self)
        ensures
            final(self).counter == Some(0u32),
    {
        self.counter = Some(0);
    }

    /// Ends the episode.
    pub fn stop(&mut self)
        ensures
            final(self).counter is None,
    {
        self.counter = None;
    }

    /// Takes the pulse through one frame and says whether to play the
    /// heart sound.
    pub fn beat(&mut self) -> (play: bool)
        ensures
            play == old(self).due(),
            *final(self) == old(self).advanced(),
    {
        match self.counter {
            None => false,
            Some(count) => {
                let play = count % HEART_PERIOD == 0;
                if count > HEART_SPAN {
                    self.counter = None;
                } else {
                    self.counter = Some(count + 1);
                }
                play
            },
        }
    }
}

} // verus!
