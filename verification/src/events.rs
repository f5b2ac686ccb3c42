//! The data model: raw track events as plain values, and the extractor's
//! output unit `Event` (a note press together with the wall-clock delay,
//! in microseconds, since the previous emitted note).

use vstd::prelude::*;

verus! {

/// What a single MIDI track event contributes to extraction: a tempo change,
/// a note-on (pitch and velocity), or anything else (kept only for its
/// delta-time contribution to the running tick counter).
#[derive(Clone, Copy, PartialEq, Eq, Structural, Debug)]
pub enum EventKind {
    /// A tempo meta-event: the new tempo in microseconds per quarter note.
    Tempo(u32),
    /// A note-on channel message.
    NoteOn { key: u8, vel: u8 },
    /// Any other event: no effect beyond its delta time.
    Other,
}

/// A track-relative event: the delta time (in ticks) since the previous
/// event of the same track, and what the event is.
#[derive(Clone, Copy, PartialEq, Eq, Structural, Debug)]
pub struct RawTrackEvent {
    pub delta: u32,
    pub kind: EventKind,
}

/// The extractor's output unit: a note to press and the delay, in
/// microseconds, since the previously emitted note.
#[derive(Clone, Copy, PartialEq, Eq, Structural, Debug)]
pub struct Event {
    /// The MIDI key number of the note-on this event came from.
    pub press: i32,
    /// Wall-clock microseconds since the previous emitted note.
    pub delay_us: u64,
}

} // verus!
