//! The transposition tuner: a brute-force search over semitone offsets in
//! [-21, 21] for the one that makes the most notes land in the fixed
//! playable range. Hit rates share the event count as denominator, so
//! comparing rates is comparing hit counts, and no division is needed.

use vstd::prelude::*;

use crate::events::Event;

verus! {

/// The fixed playable set: the 42 keys 24..=95 whose pitch class is one
/// of the seven of the C major scale (0, 2, 4, 5, 7, 9, 11).
pub open spec fn playable(p: int) -> bool {
    &&& 24 <= p <= 95
    &&& (p % 12 == 0 || p % 12 == 2 || p % 12 == 4 || p % 12 == 5 || p % 12 == 7 || p % 12 == 9
        || p % 12 == 11)
}

/// Is the key directly playable, that is, a member of the fixed 42-entry
/// supported set?
pub fn is_playable(p: i64) -> (r: bool)
    ensures
        r == playable(p as int),
{
    if p < 24 || p > 95 {
        return false;
    }
    let c: i64 = p % 12;
    c == 0 || c == 2 || c == 4 || c == 5 || c == 7 || c == 9 || c == 11
}

/// How many of the first `i` events have a playable key once shifted by
/// `offset` semitones.
pub open spec fn hits_upto(events: Seq<Event>, offset: int, i: int) -> nat
    decreases i,
{
    if i <= 0 {
        0
    } else {
        hits_upto(events, offset, i - 1) + if playable(events[i - 1].press + offset) {
            1nat
        } else {
            0nat
        }
    }
}

/// The hit count of an offset over a whole event sequence.
pub open spec fn hits(events: Seq<Event>, offset: int) -> nat {
    hits_upto(events, offset, events.len() as int)
}

/// Count the events whose shifted key is playable.
pub fn count_hits(events: &Vec<Event>, offset: i32) -> (n: usize)
    ensures
        n == hits(events@, offset as int),
{
    let mut n: usize = 0;
    let mut i: usize = 0;
    while i < events.len()
        invariant
            0 <= i <= events@.len(),
            n <= i,
            n == hits_upto(events@, offset as int, i as int),
        decreases events@.len() - i,
    {
        if is_playable(events[i].press as i64 + offset as i64) {
            n = n + 1;
        }
        i = i + 1;
    }
    n
}

/// Pick the best offset in [-21, 21] for the given note sequence.
///
/// Each scan direction keeps the first offset reaching its maximum hit
/// count, so smaller magnitudes win ties within a scan; between the two
/// directions the upward winner is kept unless the downward winner's
/// count is strictly greater. On an empty sequence every count is zero
/// and the result is offset 0.
pub fn tune(events: &Vec<Event>) -> (shift: i32)
    ensures
        -21 <= shift <= 21,
        events@.len() == 0 ==> shift == 0,
        forall|o: int| -21 <= o <= 21 ==> hits(events@, o) <= hits(events@, shift as int),
        shift >= 0 ==> forall|o: int| 0 <= o < shift ==> hits(events@, o) < hits(
            events@,
            shift as int,
        ),
        shift < 0 ==> forall|o: int| shift < o <= 21 ==> hits(events@, o) < hits(
            events@,
            shift as int,
        ),
{
    let mut up_shift: i32 = 0;
    let mut up_max: usize = count_hits(events, 0);
    let mut o: i32 = 1;
    while o <= 21
        invariant
            1 <= o <= 22,
            0 <= up_shift < o,
            up_max == hits(events@, up_shift as int),
            forall|k: int| 0 <= k < o ==> hits(events@, k) <= up_max,
            forall|k: int| 0 <= k < up_shift ==> hits(events@, k) < up_max,
        decreases 22 - o,
    {
        let c = count_hits(events, o);
        if c > up_max {
            up_max = c;
            up_shift = o;
        }
        o = o + 1;
    }

    let mut down_shift: i32 = 0;
    let mut down_max: usize = count_hits(events, 0);
    let mut d: i32 = 1;
    while d <= 21
        invariant
            1 <= d <= 22,
            -d < down_shift <= 0,
            down_max == hits(events@, down_shift as int),
            forall|k: int| -d < k <= 0 ==> hits(events@, k) <= down_max,
            forall|k: int| down_shift < k <= 0 ==> hits(events@, k) < down_max,
        decreases 22 - d,
    {
        let c = count_hits(events, -d);
        if c > down_max {
            down_max = c;
            down_shift = -d;
        }
        d = d + 1;
    }

    proof {
        if events@.len() == 0 {
            assert forall|k: int| -21 <= k <= 21 implies hits(events@, k) == 0 by {
                assert(hits_upto(events@, k, 0) == 0);
            }
        }
    }
    if down_max > up_max {
        down_shift
    } else {
        up_shift
    }
}

} // verus!
