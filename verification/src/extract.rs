//! The event extractor: tags every track event with its absolute tick,
//! merges all tracks into one tick-ordered stream (stable: ties keep the
//! earlier track's events first, so a tempo change at a tick is seen before
//! a later track's note at the same tick), and walks the merged stream
//! resolving tempo changes into per-note wall-clock delays.

use vstd::prelude::*;

use crate::events::{Event, EventKind, RawTrackEvent};
use crate::parse::ParsedMidi;

verus! {

/// A track event tagged with its absolute tick position.
#[derive(Clone, Copy, PartialEq, Eq, Structural, Debug)]
pub struct TimedEvent {
    pub tick: u64,
    pub kind: EventKind,
}

/// Addition on u64 that clamps at the top instead of wrapping.
pub open spec fn sat_add_u64(a: u64, b: u64) -> u64 {
    if a + b > u64::MAX {
        u64::MAX
    } else {
        (a + b) as u64
    }
}

/// The absolute tick of event `i` of a track: the running sum of delta
/// times up to and including `i` (clamped at `u64::MAX`).
pub open spec fn tick_at(track: Seq<RawTrackEvent>, i: int) -> u64
    decreases i + 1,
{
    if i < 0 {
        0u64
    } else {
        sat_add_u64(tick_at(track, i - 1), track[i].delta as u64)
    }
}

/// A whole track tagged with absolute ticks.
pub open spec fn timed_track(track: Seq<RawTrackEvent>) -> Seq<TimedEvent> {
    Seq::new(track.len(), |i: int| TimedEvent { tick: tick_at(track, i), kind: track[i].kind })
}

/// Tick order, allowing equal neighbours.
pub open spec fn sorted_by_tick(s: Seq<TimedEvent>) -> bool {
    forall|i: int, j: int| 0 <= i <= j < s.len() ==> s[i].tick <= s[j].tick
}

proof fn lemma_tick_at_monotone(track: Seq<RawTrackEvent>, i: int, j: int)
    requires
        i <= j,
    ensures
        tick_at(track, i) <= tick_at(track, j),
    decreases j - i,
{
    if i < j {
        lemma_tick_at_monotone(track, i, j - 1);
    }
}

pub proof fn lemma_timed_track_sorted(track: Seq<RawTrackEvent>)
    ensures
        sorted_by_tick(timed_track(track)),
{
    assert forall|i: int, j: int|
        0 <= i <= j < timed_track(track).len() implies timed_track(track)[i].tick
        <= timed_track(track)[j].tick by {
        lemma_tick_at_monotone(track, i, j);
    }
}

/// Tag each event of one track with its absolute tick.
pub fn tag_track(track: &Vec<RawTrackEvent>) -> (r: Vec<TimedEvent>)
    ensures
        r@ == timed_track(track@),
{
    let mut r: Vec<TimedEvent> = Vec::new();
    let mut tick: u64 = 0;
    let mut i: usize = 0;
    while i < track.len()
        invariant
            0 <= i <= track@.len(),
            tick == tick_at(track@, i - 1),
            r@.len() == i,
            forall|k: int| 0 <= k < i ==> r@[k] == timed_track(track@)[k],
        decreases track@.len() - i,
    {
        tick = tick.saturating_add(track[i].delta as u64);
        r.push(TimedEvent { tick, kind: track[i].kind });
        i = i + 1;
    }
    assert(r@ =~= timed_track(track@));
    r
}

/// Stable merge of two tick-ordered streams: on a tie the left stream's
/// event comes first, which is what keeps a tempo change from an earlier
/// track ahead of a note at the same tick.
pub open spec fn merge2(a: Seq<TimedEvent>, b: Seq<TimedEvent>) -> Seq<TimedEvent>
    decreases a.len() + b.len(),
{
    if a.len() == 0 {
        b
    } else if b.len() == 0 {
        a
    } else if a[0].tick <= b[0].tick {
        seq![a[0]] + merge2(a.skip(1), b)
    } else {
        seq![b[0]] + merge2(a, b.skip(1))
    }
}

proof fn lemma_merge2_lower(a: Seq<TimedEvent>, b: Seq<TimedEvent>, t: u64)
    requires
        forall|i: int| 0 <= i < a.len() ==> t <= a[i].tick,
        forall|i: int| 0 <= i < b.len() ==> t <= b[i].tick,
    ensures
        forall|i: int| 0 <= i < merge2(a, b).len() ==> t <= merge2(a, b)[i].tick,
    decreases a.len() + b.len(),
{
    if a.len() != 0 && b.len() != 0 {
        if a[0].tick <= b[0].tick {
            lemma_merge2_lower(a.skip(1), b, t);
        } else {
            lemma_merge2_lower(a, b.skip(1), t);
        }
    }
}

pub proof fn lemma_merge2_sorted(a: Seq<TimedEvent>, b: Seq<TimedEvent>)
    requires
        sorted_by_tick(a),
        sorted_by_tick(b),
    ensures
        sorted_by_tick(merge2(a, b)),
    decreases a.len() + b.len(),
{
    if a.len() != 0 && b.len() != 0 {
        if a[0].tick <= b[0].tick {
            assert(sorted_by_tick(a.skip(1)));
            lemma_merge2_sorted(a.skip(1), b);
            lemma_merge2_lower(a.skip(1), b, a[0].tick);
        } else {
            assert(sorted_by_tick(b.skip(1)));
            lemma_merge2_sorted(a, b.skip(1));
            lemma_merge2_lower(a, b.skip(1), b[0].tick);
        }
    }
}

/// Merge two tick-ordered streams, left-biased on ties.
pub fn merge_pair(a: &Vec<TimedEvent>, b: &Vec<TimedEvent>) -> (r: Vec<TimedEvent>)
    ensures
        r@ == merge2(a@, b@),
{
    let mut r: Vec<TimedEvent> = Vec::new();
    let mut i: usize = 0;
    let mut j: usize = 0;
    assert(a@.skip(0) =~= a@);
    assert(b@.skip(0) =~= b@);
    assert(r@ + merge2(a@, b@) =~= merge2(a@, b@));
    while i < a.len() || j < b.len()
        invariant
            0 <= i <= a@.len(),
            0 <= j <= b@.len(),
            merge2(a@, b@) == r@ + merge2(a@.skip(i as int), b@.skip(j as int)),
        decreases a@.len() - i + b@.len() - j,
    {
        let take_a = if i < a.len() && j < b.len() {
            a[i].tick <= b[j].tick
        } else {
            i < a.len()
        };
        if take_a {
            assert(a@.skip(i as int)[0] == a@[i as int]);
            assert(a@.skip(i as int).skip(1) =~= a@.skip(i + 1));
            r.push(a[i]);
            i = i + 1;
        } else {
            assert(b@.skip(j as int)[0] == b@[j as int]);
            assert(b@.skip(j as int).skip(1) =~= b@.skip(j + 1));
            r.push(b[j]);
            j = j + 1;
        }
    }
    assert(a@.skip(i as int) =~= Seq::<TimedEvent>::empty());
    assert(b@.skip(j as int) =~= Seq::<TimedEvent>::empty());
    assert(r@ =~= merge2(a@, b@));
    r
}

/// All tracks merged into one tick-ordered stream, folding left so that an
/// earlier track's events win ties against every later track.
pub open spec fn merge_all(tracks: Seq<Seq<TimedEvent>>) -> Seq<TimedEvent>
    decreases tracks.len(),
{
    if tracks.len() == 0 {
        Seq::empty()
    } else {
        merge2(merge_all(tracks.drop_last()), tracks.last())
    }
}

pub proof fn lemma_merge_all_sorted(tracks: Seq<Seq<TimedEvent>>)
    requires
        forall|k: int| 0 <= k < tracks.len() ==> sorted_by_tick(#[trigger] tracks[k]),
    ensures
        sorted_by_tick(merge_all(tracks)),
    decreases tracks.len(),
{
    if tracks.len() != 0 {
        lemma_merge_all_sorted(tracks.drop_last());
        lemma_merge2_sorted(merge_all(tracks.drop_last()), tracks.last());
    }
}

/// The default tempo, in microseconds per quarter note, used until the
/// first tempo meta-event.
pub const DEFAULT_TEMPO: u32 = 500000;

/// The fallback ticks-per-quarter-note, used when the header carries no
/// usable tick division.
pub const DEFAULT_DIVISION: u16 = 480;

/// Tick difference, clamped at zero (the merged stream is tick-ordered, so
/// on real input the clamp never engages).
pub open spec fn tick_gap(tick: u64, last: u64) -> u64 {
    if tick >= last {
        (tick - last) as u64
    } else {
        0u64
    }
}

/// The wall-clock delay, in microseconds, of a gap of `dtick` ticks at
/// `tempo` microseconds per quarter note and `tpq` ticks per quarter note,
/// clamped at `u64::MAX`.
pub open spec fn scaled_delay(dtick: u64, tempo: u32, tpq: u16) -> u64
    recommends
        tpq > 0,
{
    let d = (dtick * tempo) / (tpq as int);
    if d > u64::MAX {
        u64::MAX
    } else {
        d as u64
    }
}

/// The extractor's walk over a merged stream: a tempo meta-event updates
/// the running tempo and emits nothing; a note-on with positive velocity
/// emits a note whose delay covers the tick gap since the last emitted
/// note; everything else is ignored.
pub open spec fn walk(m: Seq<TimedEvent>, tpq: u16, tempo: u32, last: u64) -> Seq<Event>
    decreases m.len(),
{
    if m.len() == 0 {
        Seq::empty()
    } else {
        match m[0].kind {
            EventKind::Tempo(t) => walk(m.skip(1), tpq, t, last),
            EventKind::NoteOn { key, vel } => if vel > 0 {
                seq![
                    Event {
                        press: key as i32,
                        delay_us: scaled_delay(tick_gap(m[0].tick, last), tempo, tpq),
                    },
                ] + walk(m.skip(1), tpq, tempo, m[0].tick)
            } else {
                walk(m.skip(1), tpq, tempo, last)
            },
            EventKind::Other => walk(m.skip(1), tpq, tempo, last),
        }
    }
}

/// Walk a merged, tick-ordered stream and emit the timed note sequence.
pub fn walk_merged(m: &Vec<TimedEvent>, tpq: u16) -> (r: Vec<Event>)
    requires
        tpq > 0,
    ensures
        r@ == walk(m@, tpq, DEFAULT_TEMPO, 0),
{
    let mut r: Vec<Event> = Vec::new();
    let mut tempo: u32 = DEFAULT_TEMPO;
    let mut last: u64 = 0;
    let mut i: usize = 0;
    assert(m@.skip(0) =~= m@);
    assert(r@ + walk(m@, tpq, DEFAULT_TEMPO, 0) =~= walk(m@, tpq, DEFAULT_TEMPO, 0));
    while i < m.len()
        invariant
            0 <= i <= m@.len(),
            tpq > 0,
            walk(m@, tpq, DEFAULT_TEMPO, 0) == r@ + walk(m@.skip(i as int), tpq, tempo, last),
        decreases m@.len() - i,
    {
        assert(m@.skip(i as int)[0] == m@[i as int]);
        assert(m@.skip(i as int).skip(1) =~= m@.skip(i + 1));
        match m[i].kind {
            EventKind::Tempo(t) => {
                tempo = t;
            },
            EventKind::NoteOn { key, vel } => {
                if vel > 0 {
                    let dtick: u64 = if m[i].tick >= last {
                        m[i].tick - last
                    } else {
                        0
                    };
                    proof {
                        vstd::arithmetic::mul::lemma_mul_upper_bound(
                            dtick as int,
                            u64::MAX as int,
                            tempo as int,
                            u32::MAX as int,
                        );
                    }
                    let wide: u128 = (dtick as u128) * (tempo as u128) / (tpq as u128);
                    let delay_us: u64 = if wide > u64::MAX as u128 {
                        u64::MAX
                    } else {
                        wide as u64
                    };
                    assert(delay_us == scaled_delay(tick_gap(m@[i as int].tick, last), tempo, tpq));
                    r.push(Event { press: key as i32, delay_us });
                    last = m[i].tick;
                }
            },
            EventKind::Other => {},
        }
        i = i + 1;
    }
    assert(m@.skip(i as int) =~= Seq::<TimedEvent>::empty());
    assert(r@ =~= walk(m@, tpq, DEFAULT_TEMPO, 0));
    r
}

/// The tick division used by extraction: the header's metrical division
/// when it is usable, else the fallback.
pub open spec fn tpq_of(metrical: Option<u16>) -> u16 {
    match metrical {
        Some(d) => if d == 0 {
            DEFAULT_DIVISION
        } else {
            d
        },
        None => DEFAULT_DIVISION,
    }
}

/// The whole extraction, as one formula: tag every track with absolute
/// ticks, merge, and walk with the default tempo.
pub open spec fn extract_spec(tracks: Seq<Seq<RawTrackEvent>>, metrical: Option<u16>) -> Seq<
    Event,
> {
    walk(
        merge_all(tracks.map_values(|t: Seq<RawTrackEvent>| timed_track(t))),
        tpq_of(metrical),
        DEFAULT_TEMPO,
        0,
    )
}

/// Merge the given tracks (already tagged with absolute ticks) in order.
fn merge_tagged(tagged: Vec<Vec<TimedEvent>>) -> (r: Vec<TimedEvent>)
    ensures
        r@ == merge_all(tagged@.map_values(|t: Vec<TimedEvent>| t@)),
{
    let ghost all = tagged@.map_values(|t: Vec<TimedEvent>| t@);
    let mut acc: Vec<TimedEvent> = Vec::new();
    let mut k: usize = 0;
    assert(all.take(0) =~= Seq::<Seq<TimedEvent>>::empty());
    while k < tagged.len()
        invariant
            0 <= k <= tagged@.len(),
            all == tagged@.map_values(|t: Vec<TimedEvent>| t@),
            acc@ == merge_all(all.take(k as int)),
        decreases tagged@.len() - k,
    {
        acc = merge_pair(&acc, &tagged[k]);
        assert(all.take(k + 1).drop_last() =~= all.take(k as int));
        assert(all.take(k + 1).last() == tagged@[k as int]@);
        k = k + 1;
    }
    assert(all.take(k as int) =~= all);
    acc
}

/// Tag each listed track with absolute ticks, in the order given.
fn tag_tracks(tracks: &Vec<Vec<RawTrackEvent>>, sel: &Vec<usize>) -> (r: Vec<Vec<TimedEvent>>)
    requires
        forall|k: int| 0 <= k < sel@.len() ==> sel@[k] < tracks@.len(),
    ensures
        r@.map_values(|t: Vec<TimedEvent>| t@) =~= sel@.map_values(
            |i: usize| timed_track(tracks@[i as int]@),
        ),
{
    let mut r: Vec<Vec<TimedEvent>> = Vec::new();
    let mut k: usize = 0;
    while k < sel.len()
        invariant
            0 <= k <= sel@.len(),
            forall|j: int| 0 <= j < sel@.len() ==> sel@[j] < tracks@.len(),
            r@.len() == k,
            forall|j: int| 0 <= j < k ==> #[trigger] r@[j]@ == timed_track(
                tracks@[sel@[j] as int]@,
            ),
        decreases sel@.len() - k,
    {
        let t = tag_track(&tracks[sel[k]]);
        r.push(t);
        k = k + 1;
    }
    r
}

/// The tracks picked out by a list of track indices, in the order given.
pub open spec fn select_tracks(tracks: Seq<Seq<RawTrackEvent>>, sel: Seq<usize>) -> Seq<
    Seq<RawTrackEvent>,
> {
    sel.map_values(|i: usize| tracks[i as int])
}

/// Extract the timed note sequence from the tracks listed in `sel`,
/// re-running the same merge-and-walk formula over just those tracks.
/// Restricting the track set changes only which raw events are merged,
/// never the per-event delay formula.
pub fn extract_selected(midi: &ParsedMidi, sel: &Vec<usize>) -> (r: Vec<Event>)
    requires
        forall|k: int| 0 <= k < sel@.len() ==> sel@[k] < midi.tracks@.len(),
    ensures
        r@ == extract_spec(select_tracks(midi@.tracks, sel@), midi@.metrical),
{
    let tagged = tag_tracks(&midi.tracks, sel);
    let merged = merge_tagged(tagged);
    let tpq: u16 = match midi.metrical {
        Some(d) => if d == 0 {
            DEFAULT_DIVISION
        } else {
            d
        },
        None => DEFAULT_DIVISION,
    };
    assert(select_tracks(midi@.tracks, sel@).map_values(
        |t: Seq<RawTrackEvent>| timed_track(t),
    ) =~= sel@.map_values(|i: usize| timed_track(midi.tracks@[i as int]@)));
    walk_merged(&merged, tpq)
}

/// Extract the timed note sequence from every track of a parsed file.
pub fn extract_events(midi: &ParsedMidi) -> (r: Vec<Event>)
    ensures
        r@ == extract_spec(midi@.tracks, midi@.metrical),
{
    let mut sel: Vec<usize> = Vec::new();
    let mut k: usize = 0;
    while k < midi.tracks.len()
        invariant
            0 <= k <= midi.tracks@.len(),
            sel@.len() == k,
            forall|j: int| 0 <= j < k ==> sel@[j] == j,
        decreases midi.tracks@.len() - k,
    {
        sel.push(k);
        k = k + 1;
    }
    let r = extract_selected(midi, &sel);
    assert(select_tracks(midi@.tracks, sel@) =~= midi@.tracks);
    r
}

/// The stream extraction walks is tick-ordered: every track is tagged
/// with non-decreasing absolute ticks, and the merge keeps the order, so
/// delays are computed from true (non-negative) tick gaps.
pub proof fn lemma_extraction_stream_sorted(tracks: Seq<Seq<RawTrackEvent>>)
    ensures
        sorted_by_tick(merge_all(tracks.map_values(|t: Seq<RawTrackEvent>| timed_track(t)))),
{
    let tagged = tracks.map_values(|t: Seq<RawTrackEvent>| timed_track(t));
    assert forall|k: int| 0 <= k < tagged.len() implies sorted_by_tick(#[trigger] tagged[k]) by {
        lemma_timed_track_sorted(tracks[k]);
    }
    lemma_merge_all_sorted(tagged);
}

/// The cumulative wall-clock time, in microseconds, of the first `i`
/// events of a note sequence.
pub open spec fn total_delay(events: Seq<Event>, i: int) -> int
    decreases i,
{
    if i <= 0 {
        0
    } else {
        total_delay(events, i - 1) + events[i - 1].delay_us
    }
}

/// Every delay of a note sequence is non-negative, and the cumulative
/// time is non-decreasing along the sequence.
pub proof fn lemma_delays_nonneg_time_monotone(events: Seq<Event>)
    ensures
        forall|i: int| 0 <= i < events.len() ==> events[i].delay_us >= 0,
        forall|i: int, j: int| 0 <= i <= j ==> total_delay(events, i) <= total_delay(events, j),
{
    assert forall|i: int, j: int| 0 <= i <= j implies total_delay(events, i) <= total_delay(
        events,
        j,
    ) by {
        lemma_total_delay_monotone(events, i, j);
    }
}

proof fn lemma_total_delay_monotone(events: Seq<Event>, i: int, j: int)
    requires
        0 <= i <= j,
    ensures
        total_delay(events, i) <= total_delay(events, j),
    decreases j - i,
{
    if i < j {
        lemma_total_delay_monotone(events, i, j - 1);
    }
}

/// The keys of the positive-velocity note-ons of a merged stream, in
/// order.
pub open spec fn noteon_keys(m: Seq<TimedEvent>) -> Seq<i32>
    decreases m.len(),
{
    if m.len() == 0 {
        Seq::empty()
    } else {
        match m[0].kind {
            EventKind::NoteOn { key, vel } => if vel > 0 {
                seq![key as i32] + noteon_keys(m.skip(1))
            } else {
                noteon_keys(m.skip(1))
            },
            _ => noteon_keys(m.skip(1)),
        }
    }
}

/// The presses of a note sequence, in order.
pub open spec fn presses(events: Seq<Event>) -> Seq<i32> {
    events.map_values(|e: Event| e.press)
}

/// The walk emits exactly the positive-velocity note-ons, in order: a
/// tempo meta-event never becomes a note, and neither does a note-on of
/// velocity zero.
pub proof fn lemma_walk_emits_positive_noteons(m: Seq<TimedEvent>, tpq: u16, tempo: u32, last: u64)
    ensures
        presses(walk(m, tpq, tempo, last)) == noteon_keys(m),
    decreases m.len(),
{
    if m.len() != 0 {
        match m[0].kind {
            EventKind::Tempo(t) => {
                lemma_walk_emits_positive_noteons(m.skip(1), tpq, t, last);
            },
            EventKind::NoteOn { key, vel } => {
                if vel > 0 {
                    lemma_walk_emits_positive_noteons(m.skip(1), tpq, tempo, m[0].tick);
                    assert(presses(walk(m, tpq, tempo, last)) =~= seq![key as i32] + presses(
                        walk(m.skip(1), tpq, tempo, m[0].tick),
                    ));
                } else {
                    lemma_walk_emits_positive_noteons(m.skip(1), tpq, tempo, last);
                }
            },
            EventKind::Other => {
                lemma_walk_emits_positive_noteons(m.skip(1), tpq, tempo, last);
            },
        }
    }
}

} // verus!
