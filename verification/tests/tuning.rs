use midi_player::events::Event;
use midi_player::tuner::{count_hits, is_playable, tune};

fn ev(press: i32) -> Event {
    Event { press, delay_us: 0 }
}

#[test]
fn playable_set_is_the_42_supported_keys() {
    let expected: Vec<i64> = vec![
        24, 26, 28, 29, 31, 33, 35, 36, 38, 40, 41, 43, 45, 47, 48, 50, 52, 53, 55, 57, 59, 60,
        62, 64, 65, 67, 69, 71, 72, 74, 76, 77, 79, 81, 83, 84, 86, 88, 89, 91, 93, 95,
    ];
    let mut members: Vec<i64> = Vec::new();
    for p in -30..130i64 {
        if is_playable(p) {
            members.push(p);
        }
    }
    assert_eq!(members, expected);
}

#[test]
fn tune_on_empty_input_returns_zero() {
    let events: Vec<Event> = Vec::new();
    assert_eq!(tune(&events), 0);
}

#[test]
fn tune_fully_unplayable_input_returns_zero() {
    // Key 200 stays outside the playable set for every offset in
    // [-21, 21]; every hit count is zero and the tie-breaks settle on 0.
    let events = vec![ev(200), ev(201), ev(202)];
    for o in -21..22 {
        assert_eq!(count_hits(&events, o), 0);
    }
    assert_eq!(tune(&events), 0);
}

#[test]
fn tune_example_keeps_offset_zero() {
    // 60 and 62 are playable as they stand; 200 is hopeless at every
    // offset, so no offset beats the 2-of-3 hit rate of offset 0.
    let events = vec![
        Event { press: 60, delay_us: 0 },
        Event { press: 62, delay_us: 500_000 },
        Event { press: 200, delay_us: 1_000_000 },
    ];
    assert_eq!(count_hits(&events, 0), 2);
    assert_eq!(tune(&events), 0);
}

#[test]
fn tune_shifts_up_when_it_earns_hits() {
    // 23 is one below the lowest supported key; +1 makes it land.
    let events = vec![ev(23), ev(23), ev(23)];
    assert_eq!(count_hits(&events, 0), 0);
    assert_eq!(count_hits(&events, 1), 3);
    assert_eq!(tune(&events), 1);
}

#[test]
fn tune_shifts_down_only_when_strictly_better() {
    // 96 is one above the highest supported key; -1 makes it land and
    // nothing upward does.
    let events = vec![ev(96)];
    assert_eq!(tune(&events), -1);
    // 25 hits both one up (26) and one down (24); the upward winner is
    // kept when the two directions' scores tie.
    let events2 = vec![ev(25)];
    assert_eq!(count_hits(&events2, 1), 1);
    assert_eq!(count_hits(&events2, -1), 1);
    assert_eq!(tune(&events2), 1);
}

#[test]
fn tune_prefers_smaller_magnitude_on_ties_within_a_scan() {
    // 60 is playable at offset 0 and at many others; the first maximum
    // of the upward scan is offset 0.
    let events = vec![ev(60)];
    assert_eq!(tune(&events), 0);
}
