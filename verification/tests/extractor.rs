use midi_player::events::{Event, EventKind, RawTrackEvent};
use midi_player::extract::{extract_events, extract_selected};
use midi_player::parse::{parse_midi, ParsedMidi};

fn raw(delta: u32, kind: EventKind) -> RawTrackEvent {
    RawTrackEvent { delta, kind }
}

fn note_on(delta: u32, key: u8, vel: u8) -> RawTrackEvent {
    raw(delta, EventKind::NoteOn { key, vel })
}

/// A minimal format-0 file: tempo 500000 at tick 0, one note (key 60,
/// velocity 100) at tick 96, note-off, end of track; 480 ticks per
/// quarter note.
fn tiny_smf() -> Vec<u8> {
    let mut b: Vec<u8> = Vec::new();
    b.extend_from_slice(&[0x4D, 0x54, 0x68, 0x64, 0, 0, 0, 6, 0, 0, 0, 1, 0x01, 0xE0]);
    b.extend_from_slice(&[0x4D, 0x54, 0x72, 0x6B, 0, 0, 0, 0x13]);
    b.extend_from_slice(&[0x00, 0xFF, 0x51, 0x03, 0x07, 0xA1, 0x20]);
    b.extend_from_slice(&[0x60, 0x90, 0x3C, 0x64]);
    b.extend_from_slice(&[0x00, 0x80, 0x3C, 0x40]);
    b.extend_from_slice(&[0x00, 0xFF, 0x2F, 0x00]);
    b
}

#[test]
fn parse_and_extract_tiny_file() {
    let parsed = parse_midi(&tiny_smf()).unwrap();
    assert_eq!(parsed.metrical, Some(480));
    assert_eq!(parsed.tracks.len(), 1);
    let events = extract_events(&parsed);
    // 96 ticks at 500000 us per quarter over 480 ticks per quarter.
    assert_eq!(events, vec![Event { press: 60, delay_us: 100_000 }]);
}

#[test]
fn malformed_bytes_fail_wholesale() {
    assert!(parse_midi(&[1, 2, 3]).is_err());
    assert!(parse_midi(&[]).is_err());
}

#[test]
fn tempo_change_rescales_later_delays() {
    let midi = ParsedMidi {
        metrical: Some(480),
        tracks: vec![vec![
            raw(0, EventKind::Tempo(600_000)),
            note_on(96, 60, 100),
            note_on(48, 62, 100),
            raw(0, EventKind::Tempo(300_000)),
            note_on(48, 64, 100),
        ]],
    };
    let events = extract_events(&midi);
    assert_eq!(
        events,
        vec![
            Event { press: 60, delay_us: 120_000 },
            Event { press: 62, delay_us: 60_000 },
            Event { press: 64, delay_us: 30_000 },
        ]
    );
}

#[test]
fn velocity_zero_and_offs_are_never_emitted() {
    let midi = ParsedMidi {
        metrical: Some(480),
        tracks: vec![vec![
            note_on(0, 60, 0),
            raw(10, EventKind::Other),
            note_on(86, 62, 100),
        ]],
    };
    let events = extract_events(&midi);
    // Only the positive-velocity note-on appears; the velocity-0 note-on
    // moved neither the tempo nor the last emitted tick.
    assert_eq!(events, vec![Event { press: 62, delay_us: 100_000 }]);
}

#[test]
fn tempo_at_same_tick_from_earlier_track_wins_tie() {
    // A tempo change and a note share tick 96; the tempo sits in the
    // earlier track, so the note's delay uses the new tempo.
    let midi = ParsedMidi {
        metrical: Some(480),
        tracks: vec![
            vec![raw(96, EventKind::Tempo(250_000))],
            vec![note_on(96, 60, 100)],
        ],
    };
    let events = extract_events(&midi);
    assert_eq!(events, vec![Event { press: 60, delay_us: 50_000 }]);
}

#[test]
fn track_selection_changes_only_the_merged_events() {
    let midi = ParsedMidi {
        metrical: Some(480),
        tracks: vec![
            vec![raw(0, EventKind::Tempo(600_000)), note_on(96, 60, 100)],
            vec![note_on(48, 64, 100)],
        ],
    };
    let all = extract_events(&midi);
    assert_eq!(
        all,
        vec![
            Event { press: 64, delay_us: 60_000 },
            Event { press: 60, delay_us: 60_000 },
        ]
    );
    let both = extract_selected(&midi, &vec![0, 1]);
    assert_eq!(both, all);
    let first_only = extract_selected(&midi, &vec![0]);
    assert_eq!(first_only, vec![Event { press: 60, delay_us: 120_000 }]);
}

#[test]
fn timecode_header_falls_back_to_default_division() {
    let midi = ParsedMidi {
        metrical: None,
        tracks: vec![vec![note_on(480, 60, 100)]],
    };
    let events = extract_events(&midi);
    assert_eq!(events, vec![Event { press: 60, delay_us: 500_000 }]);
}

#[test]
fn delays_are_cumulatively_nondecreasing() {
    let midi = ParsedMidi {
        metrical: Some(96),
        tracks: vec![vec![
            note_on(0, 60, 100),
            note_on(1, 61, 100),
            note_on(0, 62, 100),
            note_on(7, 63, 100),
        ]],
    };
    let events = extract_events(&midi);
    assert_eq!(events.len(), 4);
    let mut cumulative: u64 = 0;
    for e in &events {
        let next = cumulative + e.delay_us;
        assert!(next >= cumulative);
        cumulative = next;
    }
}
