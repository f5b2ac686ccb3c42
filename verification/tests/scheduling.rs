use midi_player::events::Event;
use midi_player::sched::{sched_step, SchedAction, SchedState};

fn ev(press: i32, delay_us: u64) -> Event {
    Event { press, delay_us }
}

/// Drive the step function with a simulated clock that advances exactly
/// by the requested sleeps. Pauses are requested by index: before
/// emitting event `i`, hold the pause flag up for `pause_ticks` polls.
/// Cancellation is raised once `cancel_after` events have been emitted.
struct Harness {
    events: Vec<Event>,
    offset: i32,
    speed_permille: u32,
    pause_before: Option<usize>,
    pause_ticks: u32,
    cancel_after: Option<usize>,
}

struct Outcome {
    emitted: Vec<i64>,
    final_action: SchedAction,
    now_ms: i64,
    slept_ms: u64,
    paused_ms: i64,
}

fn drive(h: &Harness) -> Outcome {
    let mut st = SchedState::start(0);
    let mut now_ms: i64 = 0;
    let mut emitted: Vec<i64> = Vec::new();
    let mut slept_ms: u64 = 0;
    let mut paused_ms: i64 = 0;
    let mut pauses_left: u32 = h.pause_ticks;
    loop {
        let paused = match h.pause_before {
            Some(i) => emitted.len() == i && pauses_left > 0,
            None => false,
        };
        let cancel = match h.cancel_after {
            Some(n) => emitted.len() >= n,
            None => false,
        };
        let (st2, act) = sched_step(&h.events, st, h.offset, now_ms, h.speed_permille, paused, cancel);
        st = st2;
        match act {
            SchedAction::Sleep(d) => {
                now_ms += d as i64;
                slept_ms += d;
            }
            SchedAction::Emit(k) => emitted.push(k),
            SchedAction::Wait => {
                // While paused the wall clock keeps running.
                pauses_left -= 1;
                now_ms += 10;
                paused_ms += 10;
            }
            SchedAction::Done | SchedAction::Stopped => {
                return Outcome { emitted, final_action: act, now_ms, slept_ms, paused_ms };
            }
        }
    }
}

#[test]
fn double_speed_halves_total_time() {
    let h = Harness {
        events: vec![ev(60, 100_000), ev(62, 200_000), ev(64, 300_000)],
        offset: 0,
        speed_permille: 2000,
        pause_before: None,
        pause_ticks: 0,
        cancel_after: None,
    };
    let out = drive(&h);
    assert!(matches!(out.final_action, SchedAction::Done));
    assert_eq!(out.emitted, vec![60, 62, 64]);
    // 600 ms of delays at speed 2.0 play in 300 ms of simulated time.
    assert_eq!(out.now_ms, 300);
}

#[test]
fn normal_speed_keeps_total_time() {
    let h = Harness {
        events: vec![ev(60, 100_000), ev(62, 200_000)],
        offset: 0,
        speed_permille: 1000,
        pause_before: None,
        pause_ticks: 0,
        cancel_after: None,
    };
    let out = drive(&h);
    assert_eq!(out.emitted, vec![60, 62]);
    assert_eq!(out.now_ms, 300);
}

#[test]
fn offset_is_applied_to_every_emission() {
    let h = Harness {
        events: vec![ev(60, 0), ev(62, 0)],
        offset: 2,
        speed_permille: 1000,
        pause_before: None,
        pause_ticks: 0,
        cancel_after: None,
    };
    let out = drive(&h);
    assert_eq!(out.emitted, vec![62, 64]);
}

#[test]
fn pause_and_resume_changes_neither_count_nor_order() {
    let no_pause = Harness {
        events: vec![ev(60, 50_000), ev(62, 50_000), ev(64, 50_000)],
        offset: 0,
        speed_permille: 1000,
        pause_before: None,
        pause_ticks: 0,
        cancel_after: None,
    };
    let paused = Harness { pause_before: Some(1), pause_ticks: 7, ..no_pause_clone(&no_pause) };
    let a = drive(&no_pause);
    let b = drive(&paused);
    assert_eq!(a.emitted, b.emitted);
    assert_eq!(b.emitted, vec![60, 62, 64]);
    // The paused wall-clock time never counts against the schedule: the
    // sleeps requested after the resume cover the remaining events in
    // full, so total sleep does not shrink because of the pause.
    assert!(b.paused_ms > 0);
    assert!(b.slept_ms >= a.slept_ms);
}

fn no_pause_clone(h: &Harness) -> Harness {
    Harness {
        events: h.events.clone(),
        offset: h.offset,
        speed_permille: h.speed_permille,
        pause_before: h.pause_before,
        pause_ticks: h.pause_ticks,
        cancel_after: h.cancel_after,
    }
}

#[test]
fn cancellation_stops_before_the_next_emission() {
    let h = Harness {
        events: vec![ev(60, 10_000), ev(62, 10_000), ev(64, 10_000)],
        offset: 0,
        speed_permille: 1000,
        pause_before: None,
        pause_ticks: 0,
        cancel_after: Some(1),
    };
    let out = drive(&h);
    assert!(matches!(out.final_action, SchedAction::Stopped));
    assert_eq!(out.emitted, vec![60]);
}

#[test]
fn stopped_session_stays_stopped() {
    let events = vec![ev(60, 0)];
    let st = SchedState::start(0);
    // Arm the first event, then observe cancellation after the sleep.
    let (st1, act1) = sched_step(&events, st, 0, 0, 1000, false, false);
    assert!(matches!(act1, SchedAction::Sleep(_)));
    let (st2, act2) = sched_step(&events, st1, 0, 0, 1000, false, true);
    assert!(matches!(act2, SchedAction::Stopped));
    // Whatever the host observes afterwards, nothing is ever emitted.
    let (st3, act3) = sched_step(&events, st2, 0, 99, 1000, false, false);
    assert!(matches!(act3, SchedAction::Stopped));
    let (_st4, act4) = sched_step(&events, st3, 0, 999, 1000, true, false);
    assert!(matches!(act4, SchedAction::Stopped));
}

#[test]
fn drift_correction_skips_sleep_when_behind() {
    // The host shows up 1 s late for a 100 ms event: no sleep is asked.
    let events = vec![ev(60, 100_000)];
    let st = SchedState::start(0);
    let (st1, act1) = sched_step(&events, st, 0, 1000, 1000, false, false);
    assert!(matches!(act1, SchedAction::Sleep(0)));
    let (_st2, act2) = sched_step(&events, st1, 0, 1000, 1000, false, false);
    assert!(matches!(act2, SchedAction::Emit(60)));
}
