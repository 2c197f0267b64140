//! A session, and the phases of one frame.
//!
//! The caller drives a frame in this order, carrying out in the collision
//! world what each phase asks for before it enters the next:
//!
//! 1. [`Game::steer`] reads the keys and says how far to sweep the player;
//!    [`Game::player_arrived`] takes the place the sweep ended at.
//! 2. [`Game::advance_pandas`] takes every panda through its frame and says
//!    what to do with each panda's actor; [`Game::advance_storks`] flies the
//!    storks and makes the pandas they deliver;
//!    [`Game::pandas_arrived`] takes the places the sweeps ended at.
//! 3. [`Game::resolve`] runs the grab pass and the pairing pass on those
//!    places, then the bamboo stock, then the animations.

use vstd::prelude::*;
use crate::heading::Direction;
use crate::match_engine::{
    dispatches,
    enamoured,
    grab_pass,
    grabbable,
    held,
    is_pairing,
    occurs,
    pairing_pass,
    rewarded,
};
use crate::panda_factory::{spawn_point, Motion, Panda, PandaFactory, PandaState, SPAWN_POINTS};
use crate::player::{Keys, Player, PlayerState};
use crate::resource_clock::{alive_among, count_alive, count_hungry, hungry_among, ResourceClock};
use crate::soundtrack::HeartPulse;
use crate::stork_factory::Stork;
use crate::tuning::Tuning;
use crate::units::{Displacement, Frame, Point};

verus! {

/// One session of the game.
pub struct Game {
    pub tuning: Tuning,
    pub player: Player,
    /// Every panda that ever appeared, in the order of appearance. A dead
    /// panda keeps its place.
    pub pandas: Vec<Panda>,
    /// Every stork that was ever sent out, in the order of dispatch.
    pub storks: Vec<Stork>,
    pub bamboo: ResourceClock,
    pub score: u64,
    /// The heart sounds of the love episode that is running, if any.
    pub heart: HeartPulse,
}

/// What the pandas did in their frame.
pub struct PandaMoves {
    /// What the world is to do with each panda's actor, by the panda's
    /// number.
    pub motions: Vec<Motion>,
    /// The numbers of the pandas that were thrown, in ascending order.
    pub thrown: Vec<usize>,
}

/// What happened in the last phase of a frame.
pub struct TickReport {
    /// The numbers of the pandas that were grabbed, in ascending order.
    pub grabs: Vec<usize>,
    /// The pairs of pandas that fell in love, in scan order.
    pub pairs: Vec<(usize, usize)>,
    /// Whether the meal of this frame left no bamboo.
    pub starved: bool,
    /// Whether at most one panda is left alive.
    pub collapsed: bool,
    /// Whether the heart sound is due.
    pub heartbeat: bool,
}

/// Whether any of `pandas` is in the player's hand.
pub open spec fn holding(pandas: Seq<Panda>) -> bool {
    exists|i: int| 0 <= i < pandas.len() && (#[trigger] pandas[i]).state == PandaState::Grabbed
}

/// Whether every panda in the player's hand is where the player holds it:
/// at `hand`.
pub open spec fn held_in_place(pandas: Seq<Panda>, hand: Point) -> bool {
    forall|i: int|
        0 <= i < pandas.len() && (#[trigger] pandas[i]).state == PandaState::Grabbed
            ==> pandas[i].pos == hand
}

/// Whether one of the first `count` pandas was in love in `before` and no
/// longer is in `after`.
pub open spec fn love_ended(before: Seq<Panda>, after: Seq<Panda>, count: int) -> bool {
    exists|i: int|
        0 <= i < count && (#[trigger] before[i]).state == PandaState::FoundLove && after[i].state
            != PandaState::FoundLove
}

/// The pandas after the grab pass: each panda that the player grabs is in
/// the player's hand, the others are as they were.
pub open spec fn after_grabs(
    pandas: Seq<Panda>,
    player: Player,
    pressed: bool,
    tuning: Tuning,
) -> Seq<Panda> {
    Seq::new(
        pandas.len(),
        |i: int|
            if grabbable(pandas[i], player, pressed, tuning) {
                held(pandas[i], player, tuning)
            } else {
                pandas[i]
            },
    )
}

/// The pandas after the pairing pass: each panda that occurs in a pair is
/// in love since `now`, the others are as they were.
pub open spec fn after_pairs(pandas: Seq<Panda>, pairs: Seq<(usize, usize)>, now: u64) -> Seq<
    Panda,
> {
    Seq::new(
        pandas.len(),
        |k: int|
            if occurs(pairs, k) {
                enamoured(pandas[k], now)
            } else {
                pandas[k]
            },
    )
}

/// The pandas after `dt` microseconds of animation.
pub open spec fn pandas_animated(pandas: Seq<Panda>, dt: u32) -> Seq<Panda> {
    Seq::new(pandas.len(), |i: int| pandas[i].animated(dt))
}

/// The storks after `dt` microseconds of animation.
pub open spec fn storks_animated(storks: Seq<Stork>, dt: u32) -> Seq<Stork> {
    Seq::new(storks.len(), |s: int| storks[s].animated(dt))
}

impl Game {
    /// The tuning, the player, every panda and every stork are well
    /// formed.
    pub open spec fn well_formed(&self) -> bool {
        &&& self.tuning.well_formed()
        &&& self.player.well_formed()
        &&& forall|i: int| 0 <= i < self.pandas@.len() ==> (#[trigger] self.pandas@[i]).well_formed()
        &&& forall|s: int| 0 <= s < self.storks@.len() ==> (#[trigger] self.storks@[s]).well_formed()
    }

    /// A session with a player at `player_at`, no pandas, no storks, a full
    /// bamboo stock and no score.
    pub fn new(tuning: Tuning, player_at: Point, now: u64) -> (game: Game)
        requires
            tuning.well_formed(),
        ensures
            game.tuning == tuning,
            game.player == (Player { pos: player_at, ..Player::initial(tuning) }),
            game.pandas@.len() == 0,
            game.storks@.len() == 0,
            game.bamboo == (ResourceClock { stock: crate::resource_clock::INITIAL_STOCK, last_refill: now }),
            game.score == 0,
            game.heart.counter is None,
            game.well_formed(),
    {
        Game {
            tuning,
            player: Player::new(player_at, &tuning),
            pandas: Vec::new(),
            storks: Vec::new(),
            bamboo: ResourceClock::new(now),
            score: 0,
            heart: HeartPulse::new(),
        }
    }

    /// Lets a panda appear at one of the spawn points, picked at random,
    /// with a wander velocity drawn at random. Returns the panda's number.
    pub fn spawn_panda(&mut self, now: u64) -> (index: usize)
        requires
            old(self).well_formed(),
        ensures
            index == old(self).pandas@.len(),
            final(self).pandas@.len() == index + 1,
            final(self).pandas@.take(index as int) == old(self).pandas@,
            exists|place: int|
                0 <= place < SPAWN_POINTS && final(self).pandas@[index as int].pos
                    == #[trigger] spawn_point(place),
            PandaFactory::wanders(final(self).pandas@[index as int].speed, old(self).tuning),
            final(self).pandas@[index as int] == Panda::fresh(
                final(self).pandas@[index as int].pos,
                final(self).pandas@[index as int].speed,
                now,
            ),
            final(self).tuning == old(self).tuning,
            final(self).player == old(self).player,
            final(self).storks == old(self).storks,
            final(self).bamboo == old(self).bamboo,
            final(self).score == old(self).score,
            final(self).heart == old(self).heart,
            final(self).well_formed(),
    {
        let index = self.pandas.len();
        let panda = PandaFactory::create_panda(now, &self.tuning);
        self.pandas.push(panda);
        proof {
            assert(self.pandas@.take(index as int) == old(self).pandas@);
        }
        index
    }

    /// Reads the keys and lets the frame's time pass for the player.
    /// Returns the distance to sweep the player's actor by, if a directional
    /// key is held.
    pub fn steer(&mut self, keys: Keys, frame: Frame) -> (stride: Option<Displacement>)
        requires
            old(self).well_formed(),
        ensures
            final(self).player == old(self).player.controlled(keys, frame.dt, old(self).tuning),
            stride == old(self).player.stride(keys, frame.dt),
            final(self).tuning == old(self).tuning,
            final(self).pandas == old(self).pandas,
            final(self).storks == old(self).storks,
            final(self).bamboo == old(self).bamboo,
            final(self).score == old(self).score,
            final(self).heart == old(self).heart,
            final(self).well_formed(),
    {
        let tuning = self.tuning;
        self.player.control(keys, frame.dt, &tuning)
    }

    /// Records where the world left the player's actor.
    pub fn player_arrived(&mut self, at: Point)
        ensures
            final(self).player == (Player { pos: at, ..old(self).player }),
            final(self).tuning == old(self).tuning,
            final(self).pandas == old(self).pandas,
            final(self).storks == old(self).storks,
            final(self).bamboo == old(self).bamboo,
            final(self).score == old(self).score,
            final(self).heart == old(self).heart,
            old(self).well_formed() ==> final(self).well_formed(),
    {
        self.player.arrive(at);
    }

    /// Records where the world left the pandas' actors: `at[i]` is the
    /// place of the panda numbered `i`. A panda without a place in `at`
    /// stays where it was.
    pub fn pandas_arrived(&mut self, at: &Vec<Point>)
        ensures
            final(self).pandas@.len() == old(self).pandas@.len(),
            forall|i: int|
                0 <= i < old(self).pandas@.len() ==> #[trigger] final(self).pandas@[i] == if i
                    < at@.len() {
                    old(self).pandas@[i].arrived(at@[i])
                } else {
                    old(self).pandas@[i]
                },
            final(self).tuning == old(self).tuning,
            final(self).player == old(self).player,
            final(self).storks == old(self).storks,
            final(self).bamboo == old(self).bamboo,
            final(self).score == old(self).score,
            final(self).heart == old(self).heart,
            old(self).well_formed() ==> final(self).well_formed(),
    {
        let n = self.pandas.len();
        let mut i: usize = 0;
        while i < n && i < at.len()
            invariant
                n == self.pandas@.len() == old(self).pandas@.len(),
                i <= n,
                i <= at@.len(),
                forall|k: int|
                    0 <= k < i ==> #[trigger] self.pandas@[k] == old(self).pandas@[k].arrived(
                        at@[k],
                    ),
                forall|k: int| i <= k < n ==> #[trigger] self.pandas@[k] == old(self).pandas@[k],
                self.tuning == old(self).tuning,
                self.player == old(self).player,
                self.storks == old(self).storks,
                self.bamboo == old(self).bamboo,
                self.score == old(self).score,
                self.heart == old(self).heart,
            decreases n - i,
        {
            let mut panda = self.pandas[i];
            panda.arrive(at[i]);
            self.pandas.set(i, panda);
            i = i + 1;
        }
    }

    /// Takes every panda through its frame, in the order of the
    /// collection, as [`Panda::advanced`] says, each with a wander velocity
    /// drawn at random, and says what the world is to do with each panda's
    /// actor. If the action was pressed, every panda in the player's hand
    /// is thrown along the player's facing, and the player is throwing. A
    /// love episode that ends takes the heart sounds with it.
    pub fn advance_pandas(&mut self, pressed: bool, frame: Frame) -> (moves: PandaMoves)
        requires
            old(self).well_formed(),
        ensures
            final(self).pandas@.len() == old(self).pandas@.len(),
            moves.motions@.len() == old(self).pandas@.len(),
            forall|i: int|
                0 <= i < old(self).pandas@.len() ==> (#[trigger] old(self).pandas@[i]).steps_to(
                    final(self).pandas@[i],
                    moves.motions@[i],
                    old(self).player.pos,
                    old(self).player.dir,
                    pressed,
                    frame,
                    old(self).tuning,
                ),
            forall|m: int, n: int|
                0 <= m < n < moves.thrown@.len() ==> moves.thrown@[m] < moves.thrown@[n],
            forall|m: int|
                0 <= m < moves.thrown@.len() ==> (#[trigger] moves.thrown@[m]) < old(self).pandas@.len(),
            forall|k: int|
                0 <= k < old(self).pandas@.len() ==> (moves.thrown@.contains(k as usize) <==> pressed
                    && (#[trigger] old(self).pandas@[k]).state == PandaState::Grabbed),
            final(self).player == (Player {
                state: if pressed && holding(old(self).pandas@) {
                    PlayerState::Throwing
                } else {
                    old(self).player.state
                },
                ..old(self).player
            }),
            !pressed ==> forall|i: int|
                0 <= i < old(self).pandas@.len() && (#[trigger] old(self).pandas@[i]).state
                    == PandaState::Grabbed ==> final(self).pandas@[i].pos
                    == old(self).player.pos.shifted(old(self).tuning.grab_offset)
                    && moves.motions@[i] == Motion::Place(final(self).pandas@[i].pos),
            held_in_place(
                final(self).pandas@,
                old(self).player.pos.shifted(old(self).tuning.grab_offset),
            ),
            final(self).heart == if love_ended(
                old(self).pandas@,
                final(self).pandas@,
                old(self).pandas@.len() as int,
            ) {
                HeartPulse { counter: None }
            } else {
                old(self).heart
            },
            final(self).tuning == old(self).tuning,
            final(self).storks == old(self).storks,
            final(self).bamboo == old(self).bamboo,
            final(self).score == old(self).score,
            final(self).well_formed(),
    {
        let tuning = self.tuning;
        let holder_at = self.player.pos;
        let facing = self.player.dir;
        let n = self.pandas.len();
        let mut motions: Vec<Motion> = Vec::new();
        let mut thrown: Vec<usize> = Vec::new();
        let mut love_over = false;
        let mut i: usize = 0;
        while i < n
            invariant
                n == self.pandas@.len() == old(self).pandas@.len(),
                i <= n,
                motions@.len() == i,
                tuning == old(self).tuning,
                tuning.well_formed(),
                holder_at == old(self).player.pos,
                facing == old(self).player.dir,
                forall|k: int|
                    0 <= k < i ==> (#[trigger] old(self).pandas@[k]).steps_to(
                        self.pandas@[k],
                        motions@[k],
                        holder_at,
                        facing,
                        pressed,
                        frame,
                        tuning,
                    ),
                forall|k: int| 0 <= k < i ==> (#[trigger] self.pandas@[k]).well_formed(),
                forall|k: int| i <= k < n ==> #[trigger] self.pandas@[k] == old(self).pandas@[k],
                forall|k: int| 0 <= k < n ==> (#[trigger] old(self).pandas@[k]).well_formed(),
                forall|m: int, n: int| 0 <= m < n < thrown@.len() ==> thrown@[m] < thrown@[n],
                forall|m: int| 0 <= m < thrown@.len() ==> (#[trigger] thrown@[m]) < i,
                forall|k: int|
                    0 <= k < i ==> (thrown@.contains(k as usize) <==> pressed && (
                    #[trigger] old(self).pandas@[k]).state == PandaState::Grabbed),
                love_over == love_ended(old(self).pandas@, self.pandas@, i as int),
                forall|k: int|
                    0 <= k < i && (#[trigger] self.pandas@[k]).state == PandaState::Grabbed
                        ==> self.pandas@[k].pos == holder_at.shifted(tuning.grab_offset),
                !pressed ==> forall|k: int|
                    0 <= k < i && (#[trigger] old(self).pandas@[k]).state == PandaState::Grabbed
                        ==> self.pandas@[k].pos == holder_at.shifted(tuning.grab_offset)
                        && motions@[k] == Motion::Place(self.pandas@[k].pos),
                self.tuning == old(self).tuning,
                self.player == old(self).player,
                self.storks == old(self).storks,
                self.bamboo == old(self).bamboo,
                self.score == old(self).score,
                self.heart == old(self).heart,
            decreases n - i,
        {
            let mut panda = self.pandas[i];
            let was_held = panda.state == PandaState::Grabbed;
            let was_in_love = panda.state == PandaState::FoundLove;
            let motion = panda.advance_at_random(holder_at, facing, pressed, frame, &tuning);
            let ghost pandas_before = self.pandas@;
            self.pandas.set(i, panda);
            motions.push(motion);
            let ghost before = thrown@;
            if was_held && pressed {
                thrown.push(i);
            }
            proof {
                assert forall|k: int| 0 <= k < i + 1 implies (thrown@.contains(k as usize)
                    <==> pressed && (#[trigger] old(self).pandas@[k]).state
                    == PandaState::Grabbed) by {
                    if before.contains(k as usize) {
                        let m = choose|m: int| 0 <= m < before.len() && before[m] == k as usize;
                        assert(thrown@[m] == k as usize);
                    }
                    if thrown@.contains(k as usize) {
                        let m = choose|m: int| 0 <= m < thrown@.len() && thrown@[m] == k as usize;
                        if m < before.len() {
                            assert(before[m] == k as usize);
                        }
                    }
                    if was_held && pressed {
                        assert(thrown@[before.len() as int] == i);
                    }
                }
                let ended_now = was_in_love && panda.state != PandaState::FoundLove;
                if love_ended(old(self).pandas@, pandas_before, i as int) {
                    let w = choose|w: int|
                        0 <= w < i && (#[trigger] old(self).pandas@[w]).state
                            == PandaState::FoundLove && pandas_before[w].state
                            != PandaState::FoundLove;
                    assert(self.pandas@[w] == pandas_before[w]);
                }
                if love_ended(old(self).pandas@, self.pandas@, i + 1) {
                    let w = choose|w: int|
                        0 <= w < i + 1 && (#[trigger] old(self).pandas@[w]).state
                            == PandaState::FoundLove && self.pandas@[w].state
                            != PandaState::FoundLove;
                    if w < i {
                        assert(self.pandas@[w] == pandas_before[w]);
                    }
                }
                if ended_now {
                    assert(old(self).pandas@[i as int].state == PandaState::FoundLove);
                }
            }
            if was_in_love && panda.state != PandaState::FoundLove {
                love_over = true;
            }
            i = i + 1;
        }
        proof {
            if holding(old(self).pandas@) {
                let w = choose|w: int|
                    0 <= w < old(self).pandas@.len() && (#[trigger] old(self).pandas@[w]).state
                        == PandaState::Grabbed;
                assert(pressed ==> thrown@.contains(w as usize));
            }
            if thrown@.len() > 0 {
                assert(thrown@.contains(thrown@[0]));
                assert(old(self).pandas@[thrown@[0] as int].state == PandaState::Grabbed);
            }
        }
        if thrown.len() > 0 {
            self.player.state = PlayerState::Throwing;
        }
        if love_over {
            self.heart.stop();
        }
        PandaMoves { motions, thrown }
    }

    /// Flies every stork for the frame's time, in the order of dispatch.
    /// For each stork that unloads, a new panda appears at the end of the
    /// collection, at the pixel the stork is over, with a wander velocity
    /// drawn at random. Returns the numbers of the storks that unloaded, in
    /// ascending order: the new pandas stand in that order.
    pub fn advance_storks(&mut self, frame: Frame) -> (delivered: Vec<usize>)
        requires
            old(self).well_formed(),
        ensures
            final(self).storks@.len() == old(self).storks@.len(),
            forall|s: int|
                0 <= s < old(self).storks@.len() ==> #[trigger] final(self).storks@[s] == old(self).storks@[s].flown(frame.dt),
            forall|m: int, n: int| 0 <= m < n < delivered@.len() ==> delivered@[m] < delivered@[n],
            forall|m: int|
                0 <= m < delivered@.len() ==> (#[trigger] delivered@[m]) < old(self).storks@.len(),
            forall|s: int|
                0 <= s < old(self).storks@.len() ==> (delivered@.contains(s as usize) <==> (
                #[trigger] old(self).storks@[s]).delivers(frame.dt)),
            final(self).pandas@.len() == old(self).pandas@.len() + delivered@.len(),
            final(self).pandas@.take(old(self).pandas@.len() as int) == old(self).pandas@,
            forall|m: int|
                0 <= m < delivered@.len() ==> {
                    let panda = #[trigger] final(self).pandas@[old(self).pandas@.len() + m];
                    &&& PandaFactory::wanders(panda.speed, old(self).tuning)
                    &&& panda == Panda::fresh(
                        final(self).storks@[delivered@[m] as int].pos.pixel(),
                        panda.speed,
                        frame.now,
                    )
                },
            final(self).tuning == old(self).tuning,
            final(self).player == old(self).player,
            final(self).bamboo == old(self).bamboo,
            final(self).score == old(self).score,
            final(self).heart == old(self).heart,
            final(self).well_formed(),
    {
        let tuning = self.tuning;
        let n = self.storks.len();
        let ghost first_new = self.pandas@.len();
        let mut delivered: Vec<usize> = Vec::new();
        let mut s: usize = 0;
        while s < n
            invariant
                n == self.storks@.len() == old(self).storks@.len(),
                s <= n,
                first_new == old(self).pandas@.len(),
                tuning == old(self).tuning,
                tuning.well_formed(),
                forall|k: int|
                    0 <= k < s ==> #[trigger] self.storks@[k] == old(self).storks@[k].flown(
                        frame.dt,
                    ),
                forall|k: int| s <= k < n ==> #[trigger] self.storks@[k] == old(self).storks@[k],
                forall|k: int| 0 <= k < n ==> (#[trigger] self.storks@[k]).well_formed(),
                forall|m: int, n: int|
                    0 <= m < n < delivered@.len() ==> delivered@[m] < delivered@[n],
                forall|m: int| 0 <= m < delivered@.len() ==> (#[trigger] delivered@[m]) < s,
                forall|k: int|
                    0 <= k < s ==> (delivered@.contains(k as usize) <==> (#[trigger] old(self).storks@[k]).delivers(frame.dt)),
                self.pandas@.len() == first_new + delivered@.len(),
                self.pandas@.take(first_new as int) == old(self).pandas@,
                forall|k: int| 0 <= k < self.pandas@.len() ==> (#[trigger] self.pandas@[k]).well_formed(),
                forall|m: int|
                    0 <= m < delivered@.len() ==> {
                        let panda = #[trigger] self.pandas@[first_new + m];
                        &&& PandaFactory::wanders(panda.speed, tuning)
                        &&& panda == Panda::fresh(
                            self.storks@[delivered@[m] as int].pos.pixel(),
                            panda.speed,
                            frame.now,
                        )
                    },
                self.tuning == old(self).tuning,
                self.player == old(self).player,
                self.bamboo == old(self).bamboo,
                self.score == old(self).score,
                self.heart == old(self).heart,
            decreases n - s,
        {
            let mut stork = self.storks[s];
            let unloaded = stork.apply_movement(frame.dt);
            self.storks.set(s, stork);
            let ghost before = delivered@;
            let ghost pandas_before = self.pandas@;
            if unloaded {
                let panda = PandaFactory::create_panda_at(stork.pos.to_pixel(), frame.now, &tuning);
                self.pandas.push(panda);
                delivered.push(s);
                proof {
                    assert(self.pandas@.take(first_new as int) == pandas_before.take(
                        first_new as int,
                    ));
                    assert(delivered@[before.len() as int] == s);
                    assert forall|m: int| 0 <= m < delivered@.len() implies {
                        let panda = #[trigger] self.pandas@[first_new + m];
                        &&& PandaFactory::wanders(panda.speed, tuning)
                        &&& panda == Panda::fresh(
                            self.storks@[delivered@[m] as int].pos.pixel(),
                            panda.speed,
                            frame.now,
                        )
                    } by {
                        if m < before.len() {
                            assert(self.pandas@[first_new + m] == pandas_before[first_new + m]);
                            assert(delivered@[m] == before[m]);
                        }
                    }
                }
            }
            proof {
                assert forall|k: int| 0 <= k < s + 1 implies (delivered@.contains(k as usize) <==> (
                #[trigger] old(self).storks@[k]).delivers(frame.dt)) by {
                    if before.contains(k as usize) {
                        let m = choose|m: int| 0 <= m < before.len() && before[m] == k as usize;
                        assert(delivered@[m] == k as usize);
                    }
                    if delivered@.contains(k as usize) {
                        let m = choose|m: int|
                            0 <= m < delivered@.len() && delivered@[m] == k as usize;
                        if m < before.len() {
                            assert(before[m] == k as usize);
                        }
                    }
                    if unloaded {
                        assert(delivered@[before.len() as int] == s);
                    }
                }
            }
            s = s + 1;
        }
        delivered
    }

    /// The last phase of a frame, on the places that the world reported.
    ///
    /// First the grab pass, then the pairing pass on what the grab pass
    /// left, then the bamboo stock with the pandas that still wander, then
    /// the animations of pandas, player and storks. The report says whether
    /// the session has come to one of its two ends.
    pub fn resolve(&mut self, pressed: bool, frame: Frame, screen_width: u32) -> (report:
        TickReport)
        requires
            old(self).well_formed(),
        ensures
            ({
                let tuning = old(self).tuning;
                let grabbed = after_grabs(old(self).pandas@, old(self).player, pressed, tuning);
                let paired = after_pairs(grabbed, report.pairs@, frame.now);
                let hungry = hungry_among(paired);
                &&& forall|m: int, n: int|
                    0 <= m < n < report.grabs@.len() ==> report.grabs@[m] < report.grabs@[n]
                &&& forall|m: int|
                    0 <= m < report.grabs@.len() ==> (#[trigger] report.grabs@[m]) < old(self).pandas@.len()
                &&& forall|k: int|
                    0 <= k < old(self).pandas@.len() ==> (report.grabs@.contains(k as usize)
                        <==> #[trigger] grabbable(
                        old(self).pandas@[k],
                        old(self).player,
                        pressed,
                        tuning,
                    ))
                &&& is_pairing(grabbed, tuning.pairing_range, report.pairs@)
                &&& final(self).pandas@ == pandas_animated(paired, frame.dt)
                &&& final(self).storks@ == storks_animated(
                    old(self).storks@ + dispatches(
                        grabbed,
                        report.pairs@,
                        screen_width,
                        report.pairs@.len(),
                    ),
                    frame.dt,
                )
                &&& final(self).score == rewarded(
                    old(self).score,
                    tuning.pairing_bonus,
                    report.pairs@.len(),
                )
                &&& final(self).bamboo == old(self).bamboo.ticked(hungry, frame, tuning)
                &&& report.starved == (old(self).bamboo.after_meal(hungry, frame.dt, tuning) == 0)
                &&& report.collapsed == (alive_among(paired) <= 1)
                &&& report.heartbeat == (report.pairs@.len() > 0 || old(self).heart.due())
                &&& final(self).heart == if report.pairs@.len() > 0 {
                    HeartPulse { counter: Some(1u32) }
                } else {
                    old(self).heart.advanced()
                }
                &&& final(self).player == (Player {
                    state: if report.grabs@.len() > 0 {
                        PlayerState::Grabbing
                    } else {
                        old(self).player.state
                    },
                    ..old(self).player
                }).animated(frame.dt)
                &&& final(self).tuning == tuning
            }),
            held_in_place(
                old(self).pandas@,
                old(self).player.pos.shifted(old(self).tuning.grab_offset),
            ) ==> held_in_place(
                final(self).pandas@,
                final(self).player.pos.shifted(final(self).tuning.grab_offset),
            ),
            final(self).well_formed(),
    {
        let tuning = self.tuning;
        let grabs = grab_pass(&mut self.player, &mut self.pandas, pressed, &tuning);
        let ghost grabbed = self.pandas@;
        proof {
            assert(grabbed == after_grabs(old(self).pandas@, old(self).player, pressed, tuning));
        }
        let pairs = pairing_pass(
            &mut self.pandas,
            &mut self.storks,
            &mut self.score,
            frame.now,
            screen_width,
            &tuning,
        );
        let ghost paired = self.pandas@;
        let ghost flock = self.storks@;
        proof {
            assert(paired == after_pairs(grabbed, pairs@, frame.now));
        }
        let hungry = count_hungry(&self.pandas);
        let starved = self.bamboo.tick(hungry, frame, &tuning);
        let alive = count_alive(&self.pandas);
        let n = self.pandas.len();
        let mut i: usize = 0;
        while i < n
            invariant
                n == self.pandas@.len() == paired.len(),
                i <= n,
                forall|k: int| 0 <= k < i ==> #[trigger] self.pandas@[k] == paired[k].animated(frame.dt),
                forall|k: int| i <= k < n ==> #[trigger] self.pandas@[k] == paired[k],
                forall|k: int| 0 <= k < n ==> (#[trigger] self.pandas@[k]).well_formed(),
                self.tuning == old(self).tuning,
                self.storks@ == flock,
                self.player.well_formed(),
                self.player == (Player {
                    state: if grabs@.len() > 0 {
                        PlayerState::Grabbing
                    } else {
                        old(self).player.state
                    },
                    ..old(self).player
                }),
                self.bamboo == old(self).bamboo.ticked(hungry as nat, frame, tuning),
                self.score == rewarded(old(self).score, tuning.pairing_bonus, pairs@.len()),
                self.heart == old(self).heart,
            decreases n - i,
        {
            let mut panda = self.pandas[i];
            panda.animate(frame.dt);
            self.pandas.set(i, panda);
            i = i + 1;
        }
        self.player.animate(frame.dt);
        let flock_size = self.storks.len();
        let mut s: usize = 0;
        while s < flock_size
            invariant
                flock_size == self.storks@.len() == flock.len(),
                s <= flock_size,
                forall|k: int| 0 <= k < s ==> #[trigger] self.storks@[k] == flock[k].animated(frame.dt),
                forall|k: int| s <= k < flock_size ==> #[trigger] self.storks@[k] == flock[k],
                forall|k: int| 0 <= k < flock_size ==> (#[trigger] self.storks@[k]).well_formed(),
                self.tuning == old(self).tuning,
                self.pandas@ == pandas_animated(paired, frame.dt),
                forall|k: int| 0 <= k < self.pandas@.len() ==> (#[trigger] self.pandas@[k]).well_formed(),
                self.player.well_formed(),
                self.player == (Player {
                    state: if grabs@.len() > 0 {
                        PlayerState::Grabbing
                    } else {
                        old(self).player.state
                    },
                    ..old(self).player
                }).animated(frame.dt),
                self.bamboo == old(self).bamboo.ticked(hungry as nat, frame, tuning),
                self.score == rewarded(old(self).score, tuning.pairing_bonus, pairs@.len()),
                self.heart == old(self).heart,
            decreases flock_size - s,
        {
            let mut stork = self.storks[s];
            stork.update_animation(frame.dt);
            self.storks.set(s, stork);
            s = s + 1;
        }
        proof {
            assert(self.storks@ == storks_animated(flock, frame.dt));
        }
        if pairs.len() > 0 {
            self.heart.start();
        }
        let heartbeat = self.heart.beat();
        TickReport { grabs, pairs, starved, collapsed: alive <= 1, heartbeat }
    }
}

} // verus!
