//! Parsing raw Standard MIDI File bytes into plain track data. The file
//! grammar itself is read by the `midly` crate behind one trusted wrapper;
//! everything downstream works on plain values and is verified.

use vstd::prelude::*;

use midly::{MetaMessage, MidiMessage, Smf, Timing, TrackEvent, TrackEventKind};

use crate::events::{EventKind, RawTrackEvent};

verus! {

/// Malformed or unreadable MIDI bytes: the whole extraction fails and no
/// partial event sequence is produced.
#[derive(Clone, Copy, PartialEq, Eq, Structural, Debug)]
pub struct ParseError;

/// A parsed MIDI file reduced to what extraction reads: the header's
/// metrical tick division (if the file uses tick-based timing) and every
/// track's events as plain values.
#[derive(PartialEq, Eq, Debug)]
pub struct ParsedMidi {
    /// `Some(d)` when the header timing is metrical with `d` ticks per
    /// quarter note; `None` for timecode-based files.
    pub metrical: Option<u16>,
    pub tracks: Vec<Vec<RawTrackEvent>>,
}

/// The mathematical content of a parsed file.
pub ghost struct MidiFileView {
    pub metrical: Option<u16>,
    pub tracks: Seq<Seq<RawTrackEvent>>,
}

impl View for ParsedMidi {
    type V = MidiFileView;

    open spec fn view(&self) -> MidiFileView {
        MidiFileView {
            metrical: self.metrical,
            tracks: self.tracks@.map_values(|t: Vec<RawTrackEvent>| t@),
        }
    }
}

/// The bounds the MIDI wire format puts on one event: delta times are
/// 28-bit, tempi 24-bit, keys and velocities 7-bit.
pub open spec fn wf_raw_event(e: RawTrackEvent) -> bool {
    &&& e.delta <= 0x0FFFFFFF
    &&& match e.kind {
        EventKind::Tempo(t) => t <= 0xFFFFFF,
        EventKind::NoteOn { key, vel } => key <= 127 && vel <= 127,
        EventKind::Other => true,
    }
}

pub open spec fn wf_midi_file(m: MidiFileView) -> bool {
    &&& match m.metrical {
        Some(d) => d <= 0x7FFF,
        None => true,
    }
    &&& forall|k: int, i: int|
        0 <= k < m.tracks.len() && 0 <= i < m.tracks[k].len() ==> wf_raw_event(
            #[trigger] m.tracks[k][i],
        )
}

/// What `midly::Smf::parse` yields on given bytes, reduced to plain
/// values: `None` when parsing fails, otherwise the header's metrical
/// division and each track's delta times, tempo changes and note-ons.
pub uninterp spec fn parsed_midi(bytes: Seq<u8>) -> Option<MidiFileView>;

/// Relies on `midly::Smf::parse`: it reads a Standard MIDI File from raw
/// bytes, returning the header and every track's events, and fails on
/// malformed input; its result depends on the bytes alone. Delta times are
/// `u28`, tempi `u24`, keys and velocities `u7`, metrical divisions `u15`,
/// which gives the stated bounds.
#[verifier::external_body]
fn parse_smf(bytes: &[u8]) -> (r: Result<ParsedMidi, ParseError>)
    ensures
        match r {
            Ok(p) => parsed_midi(bytes@) == Some(p@) && wf_midi_file(p@),
            Err(_) => parsed_midi(bytes@) is None,
        },
{
    let Ok(smf) = Smf::parse(bytes) else { return Err(ParseError) };
    let metrical = match smf.header.timing { Timing::Metrical(t) => Some(t.as_int()), _ => None };
    let conv = |ev: &TrackEvent| RawTrackEvent {
        delta: ev.delta.as_int(),
        kind: match ev.kind {
            TrackEventKind::Meta(MetaMessage::Tempo(t)) => EventKind::Tempo(t.as_int()),
            TrackEventKind::Midi { message: MidiMessage::NoteOn { key, vel }, .. } =>
                EventKind::NoteOn { key: key.as_int(), vel: vel.as_int() },
            _ => EventKind::Other,
        },
    };
    Ok(ParsedMidi { metrical, tracks: smf.tracks.iter().map(|t| t.iter().map(conv).collect()).collect() })
}

/// Parse raw MIDI bytes into plain track data, or fail wholesale on
/// malformed input.
pub fn parse_midi(bytes: &[u8]) -> (r: Result<ParsedMidi, ParseError>)
    ensures
        match r {
            Ok(p) => parsed_midi(bytes@) == Some(p@) && wf_midi_file(p@),
            Err(_) => parsed_midi(bytes@) is None,
        },
{
    parse_smf(bytes)
}

} // verus!
