//! The drift-corrected playback scheduler, as a pure step function. The
//! host owns the clock, the sleeps, the shared flags and the output sink;
//! it polls them and feeds each step one observation (now, speed, paused,
//! cancelled). The step answers with the next action: wait while paused,
//! sleep off the scheduling lead, emit the next note, or stop. Every
//! decision the playback loop makes is here and verified; the loop around
//! it only performs the actions.
//!
//! Speed is a positive multiplier in permille (1000 is real time), so a
//! live speed of 2.0 is 2000 and halves every scheduled delay.

use vstd::prelude::*;

use crate::events::Event;
use crate::extract::sat_add_u64;

verus! {

/// The state of one playback run.
#[derive(Clone, Copy, PartialEq, Eq, Structural, Debug)]
pub struct SchedState {
    /// Index of the next event to emit.
    pub next: usize,
    /// A sleep for event `next` has been issued; the cancellation check
    /// and the emit are still owed.
    pub pending: bool,
    /// A pause was observed; the next unpaused step starts a fresh run
    /// segment.
    pub was_paused: bool,
    /// Cancellation was observed; terminal.
    pub stopped: bool,
    /// Wall-clock milliseconds at which the current run segment began.
    pub clock_start_ms: i64,
    /// Speed-scaled scheduled time, in microseconds, since the current
    /// run segment began.
    pub cumulative_us: u64,
}

/// What the host must do next.
#[derive(Clone, Copy, PartialEq, Eq, Structural, Debug)]
pub enum SchedAction {
    /// The event sequence is exhausted: clear the playing state.
    Done,
    /// Cancellation was observed: stop without touching the sink again.
    Stopped,
    /// Paused: poll again.
    Wait,
    /// Sleep this many milliseconds, then step again.
    Sleep(u64),
    /// Invoke the output sink once with this shifted key, then step
    /// again.
    Emit(i64),
}

impl SchedState {
    /// A fresh session, started at the given wall-clock time.
    pub fn start(now_ms: i64) -> (st: SchedState)
        ensures
            st == (SchedState {
                next: 0,
                pending: false,
                was_paused: false,
                stopped: false,
                clock_start_ms: now_ms,
                cumulative_us: 0,
            }),
    {
        SchedState {
            next: 0,
            pending: false,
            was_paused: false,
            stopped: false,
            clock_start_ms: now_ms,
            cumulative_us: 0,
        }
    }

    /// The state is consistent with the event sequence it runs over.
    pub open spec fn wf(self, events: Seq<Event>) -> bool {
        &&& self.next <= events.len()
        &&& (self.pending ==> self.next < events.len())
    }
}

/// One event's scheduled share, in microseconds: its delay divided by the
/// speed multiplier, clamped at `u64::MAX`.
pub open spec fn scaled_delay_us(delay_us: u64, speed_permille: u32) -> u64
    recommends
        speed_permille > 0,
{
    let s = (delay_us * 1000) / (speed_permille as int);
    if s > u64::MAX {
        u64::MAX
    } else {
        s as u64
    }
}

/// Wall-clock microseconds elapsed since the segment began (zero if the
/// host's clock runs backwards).
pub open spec fn elapsed_us(now_ms: i64, start_ms: i64) -> int {
    if now_ms >= start_ms {
        (now_ms - start_ms) * 1000
    } else {
        0
    }
}

/// The drift-correcting sleep: how far the schedule is ahead of the
/// clock, in whole milliseconds.
pub open spec fn lead_ms(cum_us: u64, now_ms: i64, start_ms: i64) -> u64 {
    let e = elapsed_us(now_ms, start_ms);
    if cum_us > e {
        ((cum_us - e) / 1000) as u64
    } else {
        0
    }
}

/// The scheduler's whole decision rule, as one function of the state and
/// of what the host observed.
pub open spec fn sched_step_spec(
    events: Seq<Event>,
    st: SchedState,
    offset: i32,
    now_ms: i64,
    speed_permille: u32,
    paused: bool,
    cancel: bool,
) -> (SchedState, SchedAction)
    recommends
        st.wf(events),
        speed_permille > 0,
{
    if st.stopped {
        (st, SchedAction::Stopped)
    } else if st.pending {
        if cancel {
            (SchedState { pending: false, stopped: true, ..st }, SchedAction::Stopped)
        } else {
            (
                SchedState { pending: false, next: (st.next + 1) as usize, ..st },
                SchedAction::Emit((events[st.next as int].press as i64 + offset as i64) as i64),
            )
        }
    } else if st.next >= events.len() {
        (st, SchedAction::Done)
    } else if paused {
        (SchedState { was_paused: true, ..st }, SchedAction::Wait)
    } else {
        let start_ms = if st.was_paused {
            now_ms
        } else {
            st.clock_start_ms
        };
        let base_us = if st.was_paused {
            events[st.next as int].delay_us
        } else {
            st.cumulative_us
        };
        let cum = sat_add_u64(
            base_us,
            scaled_delay_us(events[st.next as int].delay_us, speed_permille),
        );
        (
            SchedState {
                pending: true,
                was_paused: false,
                clock_start_ms: start_ms,
                cumulative_us: cum,
                ..st
            },
            SchedAction::Sleep(lead_ms(cum, now_ms, start_ms)),
        )
    }
}

/// Advance the playback session by one decision.
///
/// The host calls this in a loop: on `Sleep(d)` it sleeps `d` ms and
/// calls again; on `Emit(k)` it sends `k` to the output sink exactly once
/// and calls again; on `Wait` it polls again; on `Done` or `Stopped` it
/// clears the playing state and stops. Cancellation is observed after any
/// sleep and before the sink is invoked, and once observed no further
/// `Emit` is ever produced.
pub fn sched_step(
    events: &Vec<Event>,
    st: SchedState,
    offset: i32,
    now_ms: i64,
    speed_permille: u32,
    paused: bool,
    cancel: bool,
) -> (r: (SchedState, SchedAction))
    requires
        st.wf(events@),
        speed_permille > 0,
    ensures
        r == sched_step_spec(events@, st, offset, now_ms, speed_permille, paused, cancel),
        r.0.wf(events@),
        r.1 is Emit ==> !st.stopped && !cancel && st.pending && r.1 == SchedAction::Emit(
            (events@[st.next as int].press as i64 + offset as i64) as i64,
        ) && r.0.next == st.next + 1,
        !(r.1 is Emit) ==> r.0.next == st.next,
        (st.stopped || (st.pending && cancel)) ==> r.1 is Stopped && r.0.stopped,
{
    let n = events.len();
    if st.stopped {
        (st, SchedAction::Stopped)
    } else if st.pending {
        if cancel {
            (SchedState { pending: false, stopped: true, ..st }, SchedAction::Stopped)
        } else {
            (
                SchedState { pending: false, next: st.next + 1, ..st },
                SchedAction::Emit(events[st.next].press as i64 + offset as i64),
            )
        }
    } else if st.next >= n {
        (st, SchedAction::Done)
    } else if paused {
        (SchedState { was_paused: true, ..st }, SchedAction::Wait)
    } else {
        let start_ms: i64 = if st.was_paused {
            now_ms
        } else {
            st.clock_start_ms
        };
        let base_us: u64 = if st.was_paused {
            events[st.next].delay_us
        } else {
            st.cumulative_us
        };
        proof {
            vstd::arithmetic::mul::lemma_mul_upper_bound(
                events@[st.next as int].delay_us as int,
                u64::MAX as int,
                1000,
                1000,
            );
        }
        let wide: u128 = (events[st.next].delay_us as u128) * 1000 / (speed_permille as u128);
        let scaled: u64 = if wide > u64::MAX as u128 {
            u64::MAX
        } else {
            wide as u64
        };
        let cum: u64 = base_us.saturating_add(scaled);
        let elapsed: i128 = if now_ms >= start_ms {
            (now_ms as i128 - start_ms as i128) * 1000
        } else {
            0
        };
        let sleep_ms: u64 = if (cum as i128) > elapsed {
            ((cum as i128 - elapsed) / 1000) as u64
        } else {
            0
        };
        assert(sleep_ms == lead_ms(cum, now_ms, start_ms));
        (
            SchedState {
                pending: true,
                was_paused: false,
                clock_start_ms: start_ms,
                cumulative_us: cum,
                ..st
            },
            SchedAction::Sleep(sleep_ms),
        )
    }
}

/// One observation the host feeds a step: the clock, the live speed, and
/// the shared pause and cancellation flags.
pub ghost struct SchedInput {
    pub now_ms: i64,
    pub speed_permille: u32,
    pub paused: bool,
    pub cancel: bool,
}

/// A whole playback run: the step function folded over a sequence of
/// host observations, together with everything it emitted, in order.
pub open spec fn sched_run(
    events: Seq<Event>,
    offset: i32,
    st: SchedState,
    inputs: Seq<SchedInput>,
) -> (SchedState, Seq<i64>)
    decreases inputs.len(),
{
    if inputs.len() == 0 {
        (st, Seq::empty())
    } else {
        let (st1, act) = sched_step_spec(
            events,
            st,
            offset,
            inputs[0].now_ms,
            inputs[0].speed_permille,
            inputs[0].paused,
            inputs[0].cancel,
        );
        let rest = sched_run(events, offset, st1, inputs.skip(1));
        match act {
            SchedAction::Emit(k) => (rest.0, seq![k] + rest.1),
            _ => rest,
        }
    }
}

/// The keys of the events in `[lo, hi)`, shifted by the offset.
pub open spec fn shifted_presses(events: Seq<Event>, offset: i32, lo: int, hi: int) -> Seq<i64> {
    Seq::new((hi - lo) as nat, |i: int| (events[lo + i].press as i64 + offset as i64) as i64)
}

/// Pausing and resuming never alters what is played: over any host
/// observations without cancellation, a run emits exactly the events'
/// shifted keys from where it stood, in order, without gaps or repeats;
/// pauses and sleeps add no emission and drop none.
pub proof fn lemma_run_emits_in_order(
    events: Seq<Event>,
    offset: i32,
    st: SchedState,
    inputs: Seq<SchedInput>,
)
    requires
        events.len() <= usize::MAX,
        st.wf(events),
        !st.stopped,
        forall|k: int| 0 <= k < inputs.len() ==> !(#[trigger] inputs[k]).cancel,
    ensures
        ({
            let (stf, em) = sched_run(events, offset, st, inputs);
            &&& stf.wf(events)
            &&& !stf.stopped
            &&& st.next <= stf.next <= events.len()
            &&& em == shifted_presses(events, offset, st.next as int, stf.next as int)
        }),
    decreases inputs.len(),
{
    if inputs.len() == 0 {
        let (stf, em) = sched_run(events, offset, st, inputs);
        assert(em =~= shifted_presses(events, offset, st.next as int, stf.next as int));
    } else {
        let (st1, act) = sched_step_spec(
            events,
            st,
            offset,
            inputs[0].now_ms,
            inputs[0].speed_permille,
            inputs[0].paused,
            inputs[0].cancel,
        );
        assert(forall|k: int|
            0 <= k < inputs.skip(1).len() ==> !(#[trigger] inputs.skip(1)[k]).cancel);
        lemma_run_emits_in_order(events, offset, st1, inputs.skip(1));
        let (stf, em1) = sched_run(events, offset, st1, inputs.skip(1));
        let (stf0, em) = sched_run(events, offset, st, inputs);
        assert(stf0 == stf);
        match act {
            SchedAction::Emit(k) => {
                assert(em == seq![k] + em1);
                assert(st1.next == st.next + 1);
                assert(k == (events[st.next as int].press as i64 + offset as i64) as i64);
                assert(em =~= shifted_presses(events, offset, st.next as int, stf.next as int));
            },
            _ => {
                assert(st1.next == st.next);
            },
        }
    }
}

/// Once cancellation has been observed the session is stopped for good:
/// whatever the host observes afterwards, nothing changes and nothing is
/// emitted.
pub proof fn lemma_stopped_stays_stopped(
    events: Seq<Event>,
    offset: i32,
    st: SchedState,
    inputs: Seq<SchedInput>,
)
    requires
        st.stopped,
    ensures
        sched_run(events, offset, st, inputs).0 == st,
        sched_run(events, offset, st, inputs).1 == Seq::<i64>::empty(),
    decreases inputs.len(),
{
    if inputs.len() > 0 {
        lemma_stopped_stays_stopped(events, offset, st, inputs.skip(1));
    }
}

/// Cancellation mid-sequence: from the moment the cancellation flag is
/// up and stays up, not a single further sink invocation happens —
/// whether a sleep was in flight or not.
pub proof fn lemma_cancel_no_further_emits(
    events: Seq<Event>,
    offset: i32,
    st: SchedState,
    inputs: Seq<SchedInput>,
)
    requires
        st.wf(events),
        forall|k: int| 0 <= k < inputs.len() ==> (#[trigger] inputs[k]).cancel,
    ensures
        sched_run(events, offset, st, inputs).1 == Seq::<i64>::empty(),
    decreases inputs.len(),
{
    if inputs.len() > 0 {
        let (st1, act) = sched_step_spec(
            events,
            st,
            offset,
            inputs[0].now_ms,
            inputs[0].speed_permille,
            inputs[0].paused,
            inputs[0].cancel,
        );
        assert(!(act is Emit));
        lemma_cancel_no_further_emits(events, offset, st1, inputs.skip(1));
    }
}

/// A paused step only marks the pause: nothing is emitted, nothing is
/// scheduled, and the position does not move. The step that resumes
/// restarts the segment clock at the present instant and puts only the
/// next event's delay back on the books — wall-clock time spent paused
/// never counts against the schedule.
pub proof fn lemma_pause_excludes_wall_time(
    events: Seq<Event>,
    st: SchedState,
    offset: i32,
    pause_now_ms: i64,
    resume_now_ms: i64,
    speed_permille: u32,
)
    requires
        st.wf(events),
        !st.stopped,
        !st.pending,
        st.next < events.len(),
    ensures
        ({
            let (stp, actp) = sched_step_spec(
                events,
                st,
                offset,
                pause_now_ms,
                speed_permille,
                true,
                false,
            );
            let (str, actr) = sched_step_spec(
                events,
                stp,
                offset,
                resume_now_ms,
                speed_permille,
                false,
                false,
            );
            &&& actp == SchedAction::Wait
            &&& stp == (SchedState { was_paused: true, ..st })
            &&& str.clock_start_ms == resume_now_ms
            &&& str.cumulative_us == sat_add_u64(
                events[st.next as int].delay_us,
                scaled_delay_us(events[st.next as int].delay_us, speed_permille),
            )
        }),
{
}

/// The schedule built for the first `n` events: the sum of their
/// speed-scaled delays, in microseconds.
pub open spec fn scaled_sum(events: Seq<Event>, n: int, speed_permille: u32) -> int
    decreases n,
{
    if n <= 0 {
        0
    } else {
        scaled_sum(events, n - 1, speed_permille) + scaled_delay_us(
            events[n - 1].delay_us,
            speed_permille,
        )
    }
}

/// How many events the schedule already covers: every emitted one, plus
/// the one whose sleep is in flight.
pub open spec fn armed(st: SchedState) -> int {
    st.next + if st.pending {
        1int
    } else {
        0int
    }
}

proof fn lemma_scaled_sum_monotone(events: Seq<Event>, i: int, j: int, speed_permille: u32)
    requires
        i <= j,
    ensures
        scaled_sum(events, i, speed_permille) <= scaled_sum(events, j, speed_permille),
    decreases j - i,
{
    if i < j {
        lemma_scaled_sum_monotone(events, i, j - 1, speed_permille);
    }
}

/// At a steady speed, with no pause and no cancellation, the schedule the
/// scheduler accumulates is exactly the sum of the per-event scaled
/// delays — so the whole sequence is scheduled over `scaled_sum` of it,
/// and at speed 2.0 (2000 permille) over half the events' delays.
pub proof fn lemma_run_schedule_total(
    events: Seq<Event>,
    offset: i32,
    st: SchedState,
    inputs: Seq<SchedInput>,
    speed_permille: u32,
)
    requires
        speed_permille > 0,
        events.len() <= usize::MAX,
        st.wf(events),
        !st.stopped,
        !st.was_paused,
        st.cumulative_us == scaled_sum(events, armed(st), speed_permille),
        scaled_sum(events, events.len() as int, speed_permille) <= u64::MAX,
        forall|k: int| 0 <= k < inputs.len() ==> (#[trigger] inputs[k]).speed_permille
            == speed_permille && !inputs[k].paused && !inputs[k].cancel,
    ensures
        ({
            let (stf, em) = sched_run(events, offset, st, inputs);
            &&& stf.cumulative_us == scaled_sum(events, armed(stf), speed_permille)
            &&& !stf.stopped
            &&& !stf.was_paused
            &&& stf.wf(events)
        }),
    decreases inputs.len(),
{
    if inputs.len() > 0 {
        let (st1, act) = sched_step_spec(
            events,
            st,
            offset,
            inputs[0].now_ms,
            inputs[0].speed_permille,
            inputs[0].paused,
            inputs[0].cancel,
        );
        if st.pending {
            assert(st1 == SchedState { pending: false, next: (st.next + 1) as usize, ..st });
            assert(armed(st1) == armed(st));
        } else if st.next >= events.len() {
            assert(st1 == st);
        } else {
            assert(armed(st1) == st.next + 1);
            lemma_scaled_sum_monotone(events, armed(st1), events.len() as int, speed_permille);
            assert(scaled_sum(events, armed(st1), speed_permille) == st.cumulative_us
                + scaled_delay_us(events[st.next as int].delay_us, speed_permille));
            assert(st1.cumulative_us == sat_add_u64(
                st.cumulative_us,
                scaled_delay_us(events[st.next as int].delay_us, speed_permille),
            ));
        }
        lemma_run_schedule_total(events, offset, st1, inputs.skip(1), speed_permille);
    }
}

/// At speed 2.0 every scheduled share is exactly half the event's delay.
pub proof fn lemma_double_speed_halves_delay(delay_us: u64)
    ensures
        scaled_delay_us(delay_us, 2000) == delay_us / 2,
{
    let d = delay_us as int;
    vstd::arithmetic::div_mod::lemma_div_denominator(d * 1000, 1000, 2);
    vstd::arithmetic::div_mod::lemma_div_by_multiple(d, 1000);
}

} // verus!
