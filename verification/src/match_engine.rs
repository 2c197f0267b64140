//! Grabbing and pairing: who is close enough to whom.
//!
//! Both passes run over the pandas in the order of the collection. The
//! pairing pass first scans all pairs and only then changes anyone: a panda
//! claimed by one pair is out of the scan for the rest of the frame.

use vstd::prelude::*;
use crate::mover::{ActiveMover, LoveMover};
use crate::panda_factory::{Panda, PandaState};
use crate::player::{Player, PlayerState};
use crate::stork_factory::{Stork, StorkFactory};
use crate::tuning::Tuning;

verus! {

/// Whether a panda is free to pair: it wanders, and its time out of pairing
/// is over.
pub open spec fn eligible(panda: Panda) -> bool {
    panda.state == PandaState::Normal && panda.loving_cooldown == 0
}

/// Whether the pandas numbered `i` and `j`, `i` before `j`, are a match:
/// both are free to pair and they are within `range` of each other on both
/// axes.
pub open spec fn is_match(pandas: Seq<Panda>, i: int, j: int, range: u32) -> bool {
    &&& 0 <= i < j < pandas.len()
    &&& eligible(pandas[i])
    &&& eligible(pandas[j])
    &&& pandas[i].pos.near(pandas[j].pos, range)
}

/// Whether `pair` has the panda numbered `k` in it.
pub open spec fn touches(pair: (usize, usize), k: int) -> bool {
    pair.0 == k || pair.1 == k
}

/// Whether the scan comes to `pair` before it comes to `(i, j)`.
pub open spec fn scanned_before(pair: (usize, usize), i: int, j: int) -> bool {
    pair.0 < i || (pair.0 == i && pair.1 < j)
}

/// Whether some pair in `pairs` has the panda numbered `k` in it.
pub open spec fn occurs(pairs: Seq<(usize, usize)>, k: int) -> bool {
    exists|m: int| 0 <= m < pairs.len() && touches(#[trigger] pairs[m], k)
}

/// Whether one of the pandas numbered `i` and `j` was claimed by a pair that
/// the scan came to before `(i, j)`.
pub open spec fn claimed(pairs: Seq<(usize, usize)>, i: int, j: int) -> bool {
    exists|m: int|
        0 <= m < pairs.len() && scanned_before(#[trigger] pairs[m], i, j) && (touches(
            pairs[m],
            i,
        ) || touches(pairs[m], j))
}

/// Whether `pairs` lists a pair `(i, j)`.
pub open spec fn lists(pairs: Seq<(usize, usize)>, i: int, j: int) -> bool {
    exists|m: int| 0 <= m < pairs.len() && (#[trigger] pairs[m]).0 == i && pairs[m].1 == j
}

/// No panda is in two pairs of `pairs`.
pub open spec fn exclusive(pairs: Seq<(usize, usize)>) -> bool {
    forall|m: int, n: int|
        0 <= m < n < pairs.len() ==> !touches(#[trigger] pairs[m], (#[trigger] pairs[n]).0 as int)
            && !touches(pairs[m], pairs[n].1 as int)
}

/// The pairs stand in the order in which the scan comes to them.
pub open spec fn in_scan_order(pairs: Seq<(usize, usize)>) -> bool {
    forall|m: int, n: int|
        0 <= m < n < pairs.len() ==> scanned_before(
            #[trigger] pairs[m],
            (#[trigger] pairs[n]).0 as int,
            pairs[n].1 as int,
        )
}

/// Whether `pairs` is what the pairing scan finds among `pandas`:
/// every pair is a match; the pairs stand in scan order; no panda is in two
/// pairs; and every match is either listed or lost one of its pandas to a
/// pair that the scan came to before.
pub open spec fn is_pairing(pandas: Seq<Panda>, range: u32, pairs: Seq<(usize, usize)>) -> bool {
    &&& forall|m: int|
        0 <= m < pairs.len() ==> is_match(
            pandas,
            (#[trigger] pairs[m]).0 as int,
            pairs[m].1 as int,
            range,
        )
    &&& in_scan_order(pairs)
    &&& exclusive(pairs)
    &&& forall|i: int, j: int| #[trigger]
        is_match(pandas, i, j, range) ==> lists(pairs, i, j) || claimed(pairs, i, j)
}

/// What the scan has established when it has dealt with the pandas before
/// `row`.
spec fn scanned(
    pandas: Seq<Panda>,
    range: u32,
    pairs: Seq<(usize, usize)>,
    taken: Seq<bool>,
    row: int,
) -> bool {
    &&& taken.len() == pandas.len()
    &&& forall|k: int| 0 <= k < taken.len() ==> #[trigger] taken[k] == occurs(pairs, k)
    &&& forall|m: int|
        0 <= m < pairs.len() ==> is_match(
            pandas,
            (#[trigger] pairs[m]).0 as int,
            pairs[m].1 as int,
            range,
        ) && pairs[m].0 < row
    &&& in_scan_order(pairs)
    &&& exclusive(pairs)
    &&& forall|i: int, j: int|
        i < row && #[trigger] is_match(pandas, i, j, range) ==> lists(pairs, i, j) || claimed(
            pairs,
            i,
            j,
        )
}

/// Adding a pair keeps what was listed and claimed, and lets the new pair's
/// pandas occur.
proof fn lemma_push_keeps(pairs: Seq<(usize, usize)>, pair: (usize, usize))
    ensures
        forall|k: int| occurs(pairs, k) ==> occurs(pairs.push(pair), k),
        forall|k: int| touches(pair, k) ==> occurs(pairs.push(pair), k),
        forall|k: int| occurs(pairs.push(pair), k) ==> occurs(pairs, k) || touches(pair, k),
        forall|i: int, j: int| lists(pairs, i, j) ==> lists(pairs.push(pair), i, j),
        forall|i: int, j: int| claimed(pairs, i, j) ==> claimed(pairs.push(pair), i, j),
        lists(pairs.push(pair), pair.0 as int, pair.1 as int),
        forall|j: int| pair.1 < j ==> claimed(pairs.push(pair), pair.0 as int, j),
{
    let longer = pairs.push(pair);
    assert forall|k: int| occurs(pairs, k) implies occurs(longer, k) by {
        let m = choose|m: int| 0 <= m < pairs.len() && touches(#[trigger] pairs[m], k);
        assert(touches(longer[m], k));
    }
    assert forall|k: int| touches(pair, k) implies occurs(longer, k) by {
        assert(touches(longer[pairs.len() as int], k));
    }
    assert forall|k: int| occurs(longer, k) implies occurs(pairs, k) || touches(pair, k) by {
        let m = choose|m: int| 0 <= m < longer.len() && touches(#[trigger] longer[m], k);
        if m < pairs.len() {
            assert(touches(pairs[m], k));
        }
    }
    assert forall|i: int, j: int| lists(pairs, i, j) implies lists(longer, i, j) by {
        let m = choose|m: int|
            0 <= m < pairs.len() && (#[trigger] pairs[m]).0 == i && pairs[m].1 == j;
        assert(longer[m].0 == i && longer[m].1 == j);
    }
    assert forall|i: int, j: int| claimed(pairs, i, j) implies claimed(longer, i, j) by {
        let m = choose|m: int|
            0 <= m < pairs.len() && scanned_before(#[trigger] pairs[m], i, j) && (touches(
                pairs[m],
                i,
            ) || touches(pairs[m], j));
        assert(scanned_before(longer[m], i, j) && (touches(longer[m], i) || touches(longer[m], j)));
    }
    let last = pairs.len() as int;
    assert(longer[last].0 == pair.0 && longer[last].1 == pair.1);
    assert forall|j: int| pair.1 < j implies claimed(longer, pair.0 as int, j) by {
        assert(scanned_before(longer[last], pair.0 as int, j) && touches(
            longer[last],
            pair.0 as int,
        ));
    }
}

/// A panda that occurs in a pair found in an earlier row is claimed for
/// every pair of the current row.
proof fn lemma_taken_is_claimed(pairs: Seq<(usize, usize)>, row: int, k: int, i: int, j: int)
    requires
        occurs(pairs, k),
        forall|m: int| 0 <= m < pairs.len() ==> (#[trigger] pairs[m]).0 < row,
        row <= i,
        k == i || k == j,
    ensures
        claimed(pairs, i, j),
{
    let m = choose|m: int| 0 <= m < pairs.len() && touches(#[trigger] pairs[m], k);
    assert(scanned_before(pairs[m], i, j) && (touches(pairs[m], i) || touches(pairs[m], j)));
}

/// Where a list is in scan order and exclusive, and another list in scan
/// order agrees with it before place `m` and has settled the pair at place
/// `m` without having a pair of its own at `m` that the scan comes to
/// first, the other list has the same pair at place `m`.
proof fn lemma_next_pair_agrees(p: Seq<(usize, usize)>, q: Seq<(usize, usize)>, m: int)
    requires
        in_scan_order(p),
        exclusive(p),
        in_scan_order(q),
        0 <= m < p.len(),
        m <= q.len(),
        forall|k: int| 0 <= k < m ==> p[k] == q[k],
        lists(q, p[m].0 as int, p[m].1 as int) || claimed(q, p[m].0 as int, p[m].1 as int),
        m < q.len() ==> !scanned_before(q[m], p[m].0 as int, p[m].1 as int),
    ensures
        m < q.len(),
        q[m] == p[m],
{
    let i = p[m].0 as int;
    let j = p[m].1 as int;
    if lists(q, i, j) {
        let n = choose|n: int| 0 <= n < q.len() && (#[trigger] q[n]).0 == i && q[n].1 == j;
        if n < m {
            assert(p[n] == q[n]);
            assert(scanned_before(p[n], p[m].0 as int, p[m].1 as int));
        } else if n > m {
            assert(scanned_before(q[m], q[n].0 as int, q[n].1 as int));
        }
    } else {
        let n = choose|n: int|
            0 <= n < q.len() && scanned_before(#[trigger] q[n], i, j) && (touches(q[n], i)
                || touches(q[n], j));
        if n < m {
            assert(p[n] == q[n]);
            assert(!touches(p[n], p[m].0 as int) && !touches(p[n], p[m].1 as int));
        } else if n > m {
            assert(scanned_before(q[m], q[n].0 as int, q[n].1 as int));
        }
    }
}

/// Two outcomes of the pairing scan among the same pandas agree on their
/// first `m` pairs.
proof fn lemma_pairings_agree_upto(
    pandas: Seq<Panda>,
    range: u32,
    p: Seq<(usize, usize)>,
    q: Seq<(usize, usize)>,
    m: nat,
)
    requires
        is_pairing(pandas, range, p),
        is_pairing(pandas, range, q),
        m <= p.len(),
    ensures
        m <= q.len(),
        forall|k: int| 0 <= k < m ==> p[k] == q[k],
    decreases m,
{
    if m > 0 {
        let at = (m - 1) as int;
        lemma_pairings_agree_upto(pandas, range, p, q, (m - 1) as nat);
        assert(is_match(pandas, p[at].0 as int, p[at].1 as int, range));
        if at < q.len() && scanned_before(q[at], p[at].0 as int, p[at].1 as int) {
            assert(is_match(pandas, q[at].0 as int, q[at].1 as int, range));
            lemma_next_pair_agrees(q, p, at);
        } else {
            lemma_next_pair_agrees(p, q, at);
        }
    }
}

/// The pairing scan has one outcome: two lists that both are what the scan
/// finds among the same pandas are the same list.
pub proof fn lemma_pairing_is_unique(
    pandas: Seq<Panda>,
    range: u32,
    p: Seq<(usize, usize)>,
    q: Seq<(usize, usize)>,
)
    requires
        is_pairing(pandas, range, p),
        is_pairing(pandas, range, q),
    ensures
        p == q,
{
    lemma_pairings_agree_upto(pandas, range, p, q, p.len());
    lemma_pairings_agree_upto(pandas, range, q, p, q.len());
    assert(p =~= q);
}

/// No panda falls in love twice in one frame: in what the pairing scan
/// finds, a panda that is in one pair is in no other, and every pair is of
/// two different pandas.
pub proof fn lemma_pairing_is_exclusive(
    pandas: Seq<Panda>,
    range: u32,
    pairs: Seq<(usize, usize)>,
    m: int,
    n: int,
)
    requires
        is_pairing(pandas, range, pairs),
        0 <= m < pairs.len(),
        0 <= n < pairs.len(),
        m != n,
    ensures
        pairs[m].0 != pairs[m].1,
        pairs[m].0 != pairs[n].0,
        pairs[m].0 != pairs[n].1,
        pairs[m].1 != pairs[n].0,
        pairs[m].1 != pairs[n].1,
{
    assert(is_match(pandas, pairs[m].0 as int, pairs[m].1 as int, range));
    if m < n {
        assert(!touches(pairs[m], pairs[n].0 as int) && !touches(pairs[m], pairs[n].1 as int));
    } else {
        assert(!touches(pairs[n], pairs[m].0 as int) && !touches(pairs[n], pairs[m].1 as int));
    }
}

/// Whether a panda is free to pair.
pub fn is_eligible(panda: &Panda) -> (b: bool)
    ensures
        b == eligible(*panda),
{
    panda.state == PandaState::Normal && panda.loving_cooldown == 0
}

/// The pairing scan. Goes through all pairs of pandas `(i, j)`, `i` before
/// `j`, in order, and lists each pair of pandas that are free to pair,
/// within `range` of each other on both axes, and not claimed by a pair
/// listed before. Changes nobody.
pub fn find_pairs(pandas: &Vec<Panda>, range: u32) -> (pairs: Vec<(usize, usize)>)
    ensures
        is_pairing(pandas@, range, pairs@),
{
    let n = pandas.len();
    let mut taken: Vec<bool> = Vec::new();
    while taken.len() < n
        invariant
            taken.len() <= n,
            forall|k: int| 0 <= k < taken.len() ==> !(#[trigger] taken[k]),
        decreases n - taken.len(),
    {
        taken.push(false);
    }
    let mut pairs: Vec<(usize, usize)> = Vec::new();
    let mut i: usize = 0;
    while i < n
        invariant
            n == pandas.len(),
            i <= n,
            scanned(pandas@, range, pairs@, taken@, i as int),
        decreases n - i,
    {
        if is_eligible(&pandas[i]) && !taken[i] {
            let mut j: usize = i + 1;
            let mut found = false;
            while j < n && !found
                invariant
                    n == pandas.len(),
                    i < j <= n,
                    found ==> scanned(pandas@, range, pairs@, taken@, i + 1),
                    !found ==> scanned(pandas@, range, pairs@, taken@, i as int),
                    !found ==> !taken[i as int] && eligible(pandas[i as int]),
                    !found ==> forall|b: int|
                        i < b < j && #[trigger] is_match(pandas@, i as int, b, range) ==> claimed(
                            pairs@,
                            i as int,
                            b,
                        ),
                decreases n - j + if found { 0int } else { 1int },
            {
                if !taken[j] && is_eligible(&pandas[j]) && pandas[i].pos.is_near(
                    pandas[j].pos,
                    range,
                ) {
                    proof {
                        let before = pairs@;
                        let after = before.push((i, j));
                        lemma_push_keeps(before, (i, j));
                        assert(is_match(pandas@, i as int, j as int, range));
                        assert(!occurs(before, i as int) && !occurs(before, j as int));
                        assert forall|m: int, n: int| 0 <= m < n < after.len() implies !touches(
                            #[trigger] after[m],
                            (#[trigger] after[n]).0 as int,
                        ) && !touches(after[m], after[n].1 as int) by {
                            if n == before.len() {
                                assert(touches(before[m], i as int) ==> occurs(before, i as int));
                                assert(touches(before[m], j as int) ==> occurs(before, j as int));
                            } else {
                                assert(after[m] == before[m] && after[n] == before[n]);
                            }
                        }
                        assert forall|m: int, n: int|
                            0 <= m < n < after.len() implies scanned_before(
                            #[trigger] after[m],
                            (#[trigger] after[n]).0 as int,
                            after[n].1 as int,
                        ) by {
                            if n == before.len() {
                                assert(after[m] == before[m]);
                            } else {
                                assert(after[m] == before[m] && after[n] == before[n]);
                            }
                        }
                        assert forall|a: int, b: int|
                            a < i + 1 && #[trigger] is_match(
                                pandas@,
                                a,
                                b,
                                range,
                            ) implies lists(after, a, b) || claimed(after, a, b) by {
                            if a == i {
                                if b < j {
                                    assert(claimed(before, a, b));
                                } else if b == j {
                                } else {
                                }
                            }
                        }
                        assert forall|m: int| 0 <= m < after.len() implies is_match(
                            pandas@,
                            (#[trigger] after[m]).0 as int,
                            after[m].1 as int,
                            range,
                        ) && after[m].0 < i + 1 by {
                            if m < before.len() {
                                assert(after[m] == before[m]);
                            }
                        }
                    }
                    let ghost taken_before = taken@;
                    let ghost pairs_before = pairs@;
                    pairs.push((i, j));
                    taken.set(i, true);
                    taken.set(j, true);
                    found = true;
                    proof {
                        assert forall|k: int| 0 <= k < taken@.len() implies #[trigger] taken@[k]
                            == occurs(pairs@, k) by {
                            assert(taken_before[k] == occurs(pairs_before, k));
                            assert(pairs@ == pairs_before.push((i, j)));
                            assert(touches((i, j), k) <==> k == i || k == j);
                        }
                    }
                } else {
                    proof {
                        if is_match(pandas@, i as int, j as int, range) {
                            lemma_taken_is_claimed(pairs@, i as int, j as int, i as int, j as int);
                        }
                    }
                }
                j = j + 1;
            }
        } else {
            proof {
                assert forall|b: int| #[trigger]
                    is_match(pandas@, i as int, b, range) implies claimed(pairs@, i as int, b) by {
                    lemma_taken_is_claimed(pairs@, i as int, i as int, i as int, b);
                }
            }
        }
        i = i + 1;
    }
    pairs
}

/// Whether the player grabs `panda` in this frame: the action was pressed
/// in this frame, the player has its hands free, and the panda wanders
/// within grab range of the player on both axes.
pub open spec fn grabbable(panda: Panda, player: Player, pressed: bool, tuning: Tuning) -> bool {
    &&& pressed
    &&& player.state == PlayerState::Normal
    &&& panda.state == PandaState::Normal
    &&& panda.pos.near(player.pos, tuning.grab_range)
}

/// The panda in the player's hand: grabbed, and held at the player's
/// position plus the grab offset.
pub open spec fn held(panda: Panda, player: Player, tuning: Tuning) -> Panda {
    Panda { state: PandaState::Grabbed, pos: player.pos.shifted(tuning.grab_offset), ..panda }
}

/// The panda in love since `now`: it stands by a love mover.
pub open spec fn enamoured(panda: Panda, now: u64) -> Panda {
    Panda {
        state: PandaState::FoundLove,
        mover: ActiveMover::Love(LoveMover { init_time: now, complete: false }),
        ..panda
    }
}

/// The score after `pairs` pairings of `bonus` each; it stops at the
/// largest number a score can hold.
pub open spec fn rewarded(score: u64, bonus: u64, pairs: nat) -> u64 {
    if score + bonus * pairs > u64::MAX {
        u64::MAX
    } else {
        (score + bonus * pairs) as u64
    }
}

/// The storks sent out for the first `count` of `pairs`: one for each pair,
/// in order, to where the first panda of the pair stands.
pub open spec fn dispatches(
    pandas: Seq<Panda>,
    pairs: Seq<(usize, usize)>,
    screen_width: u32,
    count: nat,
) -> Seq<Stork>
    decreases count,
{
    if count == 0 {
        Seq::empty()
    } else {
        dispatches(pandas, pairs, screen_width, (count - 1) as nat).push(
            Stork::dispatched(pandas[pairs[count - 1].0 as int].pos, screen_width),
        )
    }
}

/// The grab pass. If the action was pressed in this frame and the player
/// had its hands free when the pass began, every wandering panda within
/// grab range is grabbed, in the order of the collection, and put where the
/// player holds it; the player is then grabbing. Returns the numbers of the
/// pandas grabbed, in ascending order.
pub fn grab_pass(player: &mut Player, pandas: &mut Vec<Panda>, pressed: bool, tuning: &Tuning) -> (grabs:
    Vec<usize>)
    ensures
        final(pandas)@.len() == old(pandas)@.len(),
        forall|i: int|
            0 <= i < old(pandas)@.len() ==> #[trigger] final(pandas)@[i] == if grabbable(
                old(pandas)@[i],
                *old(player),
                pressed,
                *tuning,
            ) {
                held(old(pandas)@[i], *old(player), *tuning)
            } else {
                old(pandas)@[i]
            },
        forall|i: int|
            0 <= i < old(pandas)@.len() && (#[trigger] old(pandas)@[i]).well_formed() ==> final(pandas)@[i].well_formed(),
        *final(player) == (Player {
            state: if grabs@.len() > 0 {
                PlayerState::Grabbing
            } else {
                old(player).state
            },
            ..*old(player)
        }),
        forall|m: int, n: int| 0 <= m < n < grabs@.len() ==> grabs@[m] < grabs@[n],
        forall|m: int| 0 <= m < grabs@.len() ==> (#[trigger] grabs@[m]) < old(pandas)@.len(),
        forall|k: int|
            0 <= k < old(pandas)@.len() ==> (grabs@.contains(k as usize) <==> #[trigger] grabbable(
                old(pandas)@[k],
                *old(player),
                pressed,
                *tuning,
            )),
{
    let fires = pressed && player.state == PlayerState::Normal;
    let at = player.pos;
    let n = pandas.len();
    let mut grabs: Vec<usize> = Vec::new();
    let mut i: usize = 0;
    while i < n
        invariant
            n == pandas@.len() == old(pandas)@.len(),
            i <= n,
            fires == (pressed && old(player).state == PlayerState::Normal),
            at == old(player).pos,
            *player == *old(player),
            forall|k: int|
                0 <= k < i ==> #[trigger] pandas@[k] == if grabbable(
                    old(pandas)@[k],
                    *old(player),
                    pressed,
                    *tuning,
                ) {
                    held(old(pandas)@[k], *old(player), *tuning)
                } else {
                    old(pandas)@[k]
                },
            forall|k: int| i <= k < n ==> #[trigger] pandas@[k] == old(pandas)@[k],
            forall|m: int, n: int| 0 <= m < n < grabs@.len() ==> grabs@[m] < grabs@[n],
            forall|m: int| 0 <= m < grabs@.len() ==> (#[trigger] grabs@[m]) < i,
            forall|k: int|
                0 <= k < i ==> (grabs@.contains(k as usize) <==> #[trigger] grabbable(
                    old(pandas)@[k],
                    *old(player),
                    pressed,
                    *tuning,
                )),
        decreases n - i,
    {
        let panda = pandas[i];
        if fires && panda.state == PandaState::Normal && panda.pos.is_near(at, tuning.grab_range) {
            let mut grabbed = panda;
            grabbed.state = PandaState::Grabbed;
            grabbed.pos = at.offset(tuning.grab_offset);
            pandas.set(i, grabbed);
            let ghost before = grabs@;
            grabs.push(i);
            proof {
                assert(grabs@[before.len() as int] == i);
                assert forall|k: int| 0 <= k < i + 1 implies (grabs@.contains(k as usize)
                    <==> #[trigger] grabbable(old(pandas)@[k], *old(player), pressed, *tuning)) by {
                    if k < i {
                        if before.contains(k as usize) {
                            let m = choose|m: int| 0 <= m < before.len() && before[m] == k as usize;
                            assert(grabs@[m] == k as usize);
                        }
                        if grabs@.contains(k as usize) {
                            let m = choose|m: int| 0 <= m < grabs@.len() && grabs@[m] == k as usize;
                            assert(before[m] == k as usize);
                        }
                    }
                }
            }
        } else {
            proof {
                if grabs@.contains(i) {
                    let m = choose|m: int| 0 <= m < grabs@.len() && grabs@[m] == i;
                    assert(grabs@[m] < i);
                }
            }
        }
        i = i + 1;
    }
    if grabs.len() > 0 {
        player.state = PlayerState::Grabbing;
    }
    grabs
}

/// Lets every panda that `pairs` names fall in love at `now`.
pub fn fall_in_love(pandas: &mut Vec<Panda>, pairs: &Vec<(usize, usize)>, now: u64)
    requires
        forall|m: int|
            0 <= m < pairs@.len() ==> (#[trigger] pairs@[m]).0 < old(pandas)@.len() && pairs@[m].1
                < old(pandas)@.len(),
    ensures
        final(pandas)@.len() == old(pandas)@.len(),
        forall|k: int|
            0 <= k < old(pandas)@.len() ==> #[trigger] final(pandas)@[k] == if occurs(pairs@, k) {
                enamoured(old(pandas)@[k], now)
            } else {
                old(pandas)@[k]
            },
        forall|k: int|
            0 <= k < old(pandas)@.len() && (#[trigger] old(pandas)@[k]).well_formed() ==> final(pandas)@[k].well_formed(),
{
    let mut m: usize = 0;
    while m < pairs.len()
        invariant
            m <= pairs@.len(),
            pandas@.len() == old(pandas)@.len(),
            forall|m: int|
                0 <= m < pairs@.len() ==> (#[trigger] pairs@[m]).0 < old(pandas)@.len()
                    && pairs@[m].1 < old(pandas)@.len(),
            forall|k: int|
                0 <= k < old(pandas)@.len() ==> #[trigger] pandas@[k] == if occurs(
                    pairs@.take(m as int),
                    k,
                ) {
                    enamoured(old(pandas)@[k], now)
                } else {
                    old(pandas)@[k]
                },
        decreases pairs@.len() - m,
    {
        let (first, second) = pairs[m];
        let ghost before = pandas@;
        let mut lover = pandas[first];
        lover.state = PandaState::FoundLove;
        lover.mover = ActiveMover::Love(LoveMover::new(now));
        pandas.set(first, lover);
        let mut beloved = pandas[second];
        beloved.state = PandaState::FoundLove;
        beloved.mover = ActiveMover::Love(LoveMover::new(now));
        pandas.set(second, beloved);
        proof {
            let done = pairs@.take(m as int);
            assert(pairs@.take(m + 1) == done.push(pairs@[m as int]));
            lemma_push_keeps(done, pairs@[m as int]);
            assert forall|k: int| 0 <= k < old(pandas)@.len() implies #[trigger] pandas@[k]
                == if occurs(pairs@.take(m + 1), k) {
                enamoured(old(pandas)@[k], now)
            } else {
                old(pandas)@[k]
            } by {
                assert(before[k] == if occurs(done, k) {
                    enamoured(old(pandas)@[k], now)
                } else {
                    old(pandas)@[k]
                });
                assert(touches(pairs@[m as int], k) <==> k == first || k == second);
                assert(enamoured(enamoured(old(pandas)@[k], now), now) == enamoured(
                    old(pandas)@[k],
                    now,
                ));
            }
        }
        m = m + 1;
    }
    proof {
        assert(pairs@.take(pairs@.len() as int) == pairs@);
    }
}

/// The pairing pass. Scans for pairs as [`find_pairs`] does; then, for each
/// pair found, sends a stork to where the first panda of the pair stands
/// and adds the pairing bonus to the score; then lets all the paired pandas
/// fall in love. Returns the pairs.
pub fn pairing_pass(
    pandas: &mut Vec<Panda>,
    storks: &mut Vec<Stork>,
    score: &mut u64,
    now: u64,
    screen_width: u32,
    tuning: &Tuning,
) -> (pairs: Vec<(usize, usize)>)
    ensures
        is_pairing(old(pandas)@, tuning.pairing_range, pairs@),
        final(pandas)@.len() == old(pandas)@.len(),
        forall|k: int|
            0 <= k < old(pandas)@.len() ==> #[trigger] final(pandas)@[k] == if occurs(pairs@, k) {
                enamoured(old(pandas)@[k], now)
            } else {
                old(pandas)@[k]
            },
        forall|k: int|
            0 <= k < old(pandas)@.len() && (#[trigger] old(pandas)@[k]).well_formed() ==> final(pandas)@[k].well_formed(),
        final(storks)@ == old(storks)@ + dispatches(
            old(pandas)@,
            pairs@,
            screen_width,
            pairs@.len(),
        ),
        forall|s: int|
            0 <= s < old(storks)@.len() && (#[trigger] old(storks)@[s]).well_formed() ==> final(storks)@[s].well_formed(),
        forall|s: int|
            old(storks)@.len() <= s < final(storks)@.len() ==> (#[trigger] final(storks)@[s]).well_formed(),
        *final(score) == rewarded(*old(score), tuning.pairing_bonus, pairs@.len()),
{
    let pairs = find_pairs(pandas, tuning.pairing_range);
    let mut m: usize = 0;
    while m < pairs.len()
        invariant
            m <= pairs@.len(),
            *pandas == *old(pandas),
            is_pairing(pandas@, tuning.pairing_range, pairs@),
            storks@ == old(storks)@ + dispatches(pandas@, pairs@, screen_width, m as nat),
            forall|s: int|
                old(storks)@.len() <= s < storks@.len() ==> (#[trigger] storks@[s]).well_formed(),
            *score == rewarded(*old(score), tuning.pairing_bonus, m as nat),
        decreases pairs@.len() - m,
    {
        let (first, second) = pairs[m];
        assert(is_match(pandas@, pairs@[m as int].0 as int, pairs@[m as int].1 as int,
            tuning.pairing_range));
        let stork = StorkFactory::create_stork(pandas[first].pos, screen_width);
        storks.push(stork);
        proof {
            let bonus = tuning.pairing_bonus;
            assert(bonus * (m + 1) == bonus * m + bonus) by (nonlinear_arith);
            assert(bonus * m >= 0) by (nonlinear_arith)
                requires
                    bonus >= 0,
                    m >= 0,
            ;
        }
        *score = score.saturating_add(tuning.pairing_bonus);
        m = m + 1;
    }
    fall_in_love(pandas, &pairs, now);
    pairs
}

} // verus!
