//! The polling schedule: which PIDs are due at each tick of the base
//! period, and the decision taken on each answer (publish the reading, skip
//! it, count `STOPPED` answers and ask for a reconnection).
//!
//! The loop itself (timer, adapter I/O, broadcasting and storing readings)
//! runs outside; it hands each answer to [`PollState::on_response`] and acts
//! on the [`PollOutcome`].

use crate::obd::parser::{decoded, parse_response, parse_response_spec, Measure};
use crate::obd::{ObdError, ObdFault};
use crate::subaru::{decoder_den, decoder_min, decoder_num, PidDef, Priority};
use crate::transport::MODE21_HEADER_CMD;
use vstd::prelude::*;

verus! {

/// Consecutive `STOPPED` answers that trigger a full reconnection of the
/// ELM327.
pub const STOPPED_RECONNECT_THRESHOLD: u32 = 3;

/// A PID of priority `p` is polled at the ticks that are multiples of this.
pub open spec fn divisor(p: Priority) -> u64 {
    match p {
        Priority::Critical => 1,
        Priority::High => 3,
        Priority::Normal => 5,
        Priority::Low => 10,
    }
}

pub open spec fn is_due(p: Priority, tick: u64) -> bool {
    tick % divisor(p) == 0
}

/// Polling divisor of a priority.
pub fn poll_divisor(p: Priority) -> (d: u64)
    ensures
        d == divisor(p),
{
    match p {
        Priority::Critical => 1,
        Priority::High => 3,
        Priority::Normal => 5,
        Priority::Low => 10,
    }
}

/// Whether a PID of priority `p` is polled at `tick`.
pub fn due(p: Priority, tick: u64) -> (b: bool)
    ensures
        b == is_due(p, tick),
{
    tick % poll_divisor(p) == 0
}

/// Indices of the first `n` PIDs of `pids` that are due at `tick`, in order.
pub open spec fn due_indices(pids: Seq<PidDef>, tick: u64, n: nat) -> Seq<usize>
    decreases n,
{
    if n == 0 {
        Seq::empty()
    } else if is_due(pids[n - 1].priority, tick) {
        due_indices(pids, tick, (n - 1) as nat).push((n - 1) as usize)
    } else {
        due_indices(pids, tick, (n - 1) as nat)
    }
}

/// What the polling loop does with an answer.
#[derive(Debug)]
pub enum PollOutcome {
    /// The value was decoded: publish it and store it.
    Publish(Measure),
    /// The answer parsed but could not be decoded (log and go on).
    DecodeFailed(ObdError),
    /// `NO DATA`: skip the PID.
    NoData,
    /// `STOPPED`, the given number of times in a row, below the threshold.
    Stopped(u32),
    /// Another error answer (log and go on).
    ParseFailed(ObdError),
    /// `STOPPED` reached the threshold: reconnect the adapter and start the
    /// cycle over.
    StoppedReconnect,
    /// The link to the adapter failed: pause, reconnect and start the cycle
    /// over.
    LinkReconnect,
}

/// The counters of the polling loop: the tick number and the count of
/// consecutive `STOPPED` answers (always below the threshold).
pub struct PollState {
    tick: u64,
    stopped_count: u32,
}

impl View for PollState {
    type V = (u64, u32);

    closed spec fn view(&self) -> (u64, u32) {
        (self.tick, self.stopped_count)
    }
}

/// The counters after an answer whose parse result is `parsed`.
pub open spec fn after_response(st: (u64, u32), parsed: Result<Seq<u8>, ObdFault>) -> (u64, u32) {
    match parsed {
        Ok(_) => (st.0, 0),
        Err(ObdFault::Stopped) => if st.1 + 1 >= STOPPED_RECONNECT_THRESHOLD {
            (0, 0)
        } else {
            (st.0, (st.1 + 1) as u32)
        },
        Err(_) => st,
    }
}

/// Whether an answer whose parse result is `parsed` makes the loop reconnect.
pub open spec fn reconnects(st: (u64, u32), parsed: Result<Seq<u8>, ObdFault>) -> bool {
    parsed == Err::<Seq<u8>, ObdFault>(ObdFault::Stopped) && st.1 + 1 >= STOPPED_RECONNECT_THRESHOLD
}

/// The outcome `r` is what the loop does for `pid` when the counters were
/// `st` and the answer parsed to `parsed`.
pub open spec fn outcome_matches(
    r: PollOutcome,
    st: (u64, u32),
    pid: PidDef,
    parsed: Result<Seq<u8>, ObdFault>,
) -> bool {
    match parsed {
        Ok(b) => match r {
            PollOutcome::Publish(m) => decoded(
                Ok(m),
                b,
                decoder_min(pid.decode),
                decoder_num(pid.decode, b),
                decoder_den(pid.decode),
            ),
            PollOutcome::DecodeFailed(e) => decoded(
                Err(e),
                b,
                decoder_min(pid.decode),
                decoder_num(pid.decode, b),
                decoder_den(pid.decode),
            ),
            _ => false,
        },
        Err(ObdFault::NoData) => r is NoData,
        Err(ObdFault::Stopped) => if reconnects(st, parsed) {
            r is StoppedReconnect
        } else {
            r == PollOutcome::Stopped((st.1 + 1) as u32)
        },
        Err(f) => r matches PollOutcome::ParseFailed(e) && e@ == f,
    }
}

/// Pause before a reconnection, in milliseconds.
pub const RECONNECT_PAUSE_MS: u64 = 1000;

/// Extra pause after a failure of the link itself, before the reconnection
/// pause, in milliseconds.
pub const LINK_ERROR_PAUSE_MS: u64 = 500;

/// The adapter work an outcome asks for before the loop goes on.
#[derive(Debug, Clone, Copy, PartialEq, Eq, Structural)]
pub enum Recovery {
    /// Go on with the next due PID.
    Continue,
    /// Skip the rest of the period, pause `pause_ms` milliseconds and
    /// reconnect the adapter (then see [`header_after_reconnect`]).
    Reconnect { pause_ms: u64 },
}

pub open spec fn recovery_spec(o: PollOutcome) -> Recovery {
    match o {
        PollOutcome::StoppedReconnect => Recovery::Reconnect { pause_ms: RECONNECT_PAUSE_MS },
        PollOutcome::LinkReconnect => Recovery::Reconnect {
            pause_ms: (LINK_ERROR_PAUSE_MS + RECONNECT_PAUSE_MS) as u64,
        },
        _ => Recovery::Continue,
    }
}

/// What the loop does after the outcome `o`: the `STOPPED` threshold leads
/// to a one-second pause and a reconnection, a failed link to a pause of
/// half a second more and a reconnection, anything else to the next PID.
pub fn recovery(o: &PollOutcome) -> (r: Recovery)
    ensures
        r == recovery_spec(*o),
{
    match o {
        PollOutcome::StoppedReconnect => Recovery::Reconnect { pause_ms: RECONNECT_PAUSE_MS },
        PollOutcome::LinkReconnect => Recovery::Reconnect {
            pause_ms: LINK_ERROR_PAUSE_MS + RECONNECT_PAUSE_MS,
        },
        _ => Recovery::Continue,
    }
}

/// The command sent after a reconnection attempt: the mode 21 header when
/// the adapter came back, none when the attempt failed. The same header is
/// sent once before the first period.
pub fn header_after_reconnect(reconnected: bool) -> (r: Option<&'static str>)
    ensures
        reconnected ==> r == Some(MODE21_HEADER_CMD),
        !reconnected ==> r is None,
{
    if reconnected {
        Some(MODE21_HEADER_CMD)
    } else {
        None
    }
}

impl PollState {
    #[verifier::type_invariant]
    spec fn counts_below_threshold(self) -> bool {
        self.stopped_count < STOPPED_RECONNECT_THRESHOLD
    }

    /// Counters of a loop that has not polled yet.
    pub fn new() -> (s: Self)
        ensures
            s@ == (0u64, 0u32),
    {
        PollState { tick: 0, stopped_count: 0 }
    }

    /// The current tick.
    pub fn tick(&self) -> (t: u64)
        ensures
            t == self@.0,
    {
        self.tick
    }

    /// The number of consecutive `STOPPED` answers.
    pub fn stopped_count(&self) -> (c: u32)
        ensures
            c == self@.1,
            c < STOPPED_RECONNECT_THRESHOLD,
    {
        proof {
            use_type_invariant(self);
        }
        self.stopped_count
    }

    /// Indices of the PIDs of `pids` to poll at the current tick, in order.
    pub fn due_pids(&self, pids: &Vec<PidDef>) -> (r: Vec<usize>)
        ensures
            r@ == due_indices(pids@, self@.0, pids@.len()),
    {
        let mut r: Vec<usize> = Vec::new();
        let mut i: usize = 0;
        while i < pids.len()
            invariant
                i <= pids@.len(),
                r@ == due_indices(pids@, self@.0, i as nat),
            decreases pids@.len() - i,
        {
            if due(pids[i].priority, self.tick) {
                r.push(i);
            }
            i += 1;
        }
        r
    }

    /// Decides what to do with the adapter's answer `raw` to `pid`.
    pub fn on_response(&mut self, pid: &PidDef, raw: &str) -> (r: PollOutcome)
        ensures
            final(self)@ == after_response(old(self)@, parse_response_spec(raw@)),
            outcome_matches(r, old(self)@, *pid, parse_response_spec(raw@)),
    {
        proof {
            use_type_invariant(&*self);
        }
        match parse_response(raw) {
            Ok(bytes) => {
                self.stopped_count = 0;
                match pid.decode.apply(bytes.as_slice()) {
                    Ok(m) => PollOutcome::Publish(m),
                    Err(e) => PollOutcome::DecodeFailed(e),
                }
            },
            Err(ObdError::NoData) => PollOutcome::NoData,
            Err(ObdError::Stopped) => {
                if self.stopped_count + 1 >= STOPPED_RECONNECT_THRESHOLD {
                    self.stopped_count = 0;
                    self.tick = 0;
                    PollOutcome::StoppedReconnect
                } else {
                    self.stopped_count = self.stopped_count + 1;
                    PollOutcome::Stopped(self.stopped_count)
                }
            },
            Err(e) => PollOutcome::ParseFailed(e),
        }
    }

    /// Decides what to do when the adapter could not be reached: reconnect
    /// and start the cycle over (the `STOPPED` count is kept).
    pub fn on_link_error(&mut self) -> (r: PollOutcome)
        ensures
            final(self)@ == (0u64, old(self)@.1),
            r is LinkReconnect,
    {
        proof {
            use_type_invariant(&*self);
        }
        self.tick = 0;
        PollOutcome::LinkReconnect
    }

    /// Ends the current period: the tick advances by one (wrapping).
    pub fn finish_tick(&mut self)
        ensures
            final(self)@ == (vstd::wrapping::u64_specs::wrapping_add(old(self)@.0, 1), old(
                self,
            )@.1),
    {
        proof {
            use_type_invariant(&*self);
        }
        self.tick = self.tick.wrapping_add(1);
    }
}

// ---------------------------------------------------------------------------
// Laws of the schedule
// ---------------------------------------------------------------------------

/// Critical PIDs are polled at every tick.
pub proof fn law_critical_every_tick(tick: u64)
    ensures
        is_due(Priority::Critical, tick),
{
}

/// Every priority is polled at tick 0 and then at least once in any run of
/// `divisor(p)` consecutive ticks (100 ms, 300 ms, 500 ms and 1 s at the
/// default period).
pub proof fn law_polled_within_period(p: Priority, tick: u64)
    requires
        tick + divisor(p) <= u64::MAX,
    ensures
        is_due(p, 0),
        exists|k: int| 0 <= k < divisor(p) && #[trigger] is_due(p, (tick + k) as u64),
{
    let d = divisor(p) as int;
    let k = (d - (tick as int) % d) % d;
    assert(((tick + k) as u64) % divisor(p) == 0) by {
        if (tick as int) % d == 0 {
            assert(k == 0);
        } else {
            assert(k == d - (tick as int) % d);
            assert(tick as int == d * ((tick as int) / d) + (tick as int) % d);
            assert(tick + k == d * ((tick as int) / d) + d);
            assert((d * ((tick as int) / d + 1)) % d == 0) by (nonlinear_arith)
                requires
                    d > 0,
            ;
        }
    }
    assert(is_due(p, (tick + k) as u64));
}

/// Three `STOPPED` answers in a row, counted from zero, make the loop
/// reconnect on the third and not before; the counters then start over.
pub proof fn law_third_stopped_reconnects(st: (u64, u32))
    requires
        st.1 == 0,
    ensures
        ({
            let s = Err::<Seq<u8>, ObdFault>(ObdFault::Stopped);
            let s1 = after_response(st, s);
            let s2 = after_response(s1, s);
            &&& !reconnects(st, s)
            &&& s1 == (st.0, 1u32)
            &&& !reconnects(s1, s)
            &&& s2 == (st.0, 2u32)
            &&& reconnects(s2, s)
            &&& after_response(s2, s) == (0u64, 0u32)
        }),
{
}

/// An answer that parses resets the `STOPPED` count and keeps the tick.
pub proof fn law_data_resets_stopped(st: (u64, u32), b: Seq<u8>)
    ensures
        after_response(st, Ok::<Seq<u8>, ObdFault>(b)) == (st.0, 0u32),
        !reconnects(st, Ok::<Seq<u8>, ObdFault>(b)),
{
}

/// Error answers other than `STOPPED` (`NO DATA`, `BUS INIT`, ...) leave the
/// counters as they were and never trigger a reconnection.
pub proof fn law_other_errors_keep_counters(st: (u64, u32), f: ObdFault)
    requires
        f != ObdFault::Stopped,
    ensures
        after_response(st, Err::<Seq<u8>, ObdFault>(f)) == st,
        !reconnects(st, Err::<Seq<u8>, ObdFault>(f)),
{
}

/// The `STOPPED` count stays below the threshold whatever the answer.
pub proof fn law_stopped_count_bounded(st: (u64, u32), parsed: Result<Seq<u8>, ObdFault>)
    requires
        st.1 < STOPPED_RECONNECT_THRESHOLD,
    ensures
        after_response(st, parsed).1 < STOPPED_RECONNECT_THRESHOLD,
{
}

/// An answer makes the loop reconnect, after a one-second pause, exactly
/// when it is the `STOPPED` that reaches the threshold; every other answer
/// lets the loop go on with the next PID.
pub proof fn law_answer_recovery(
    r: PollOutcome,
    st: (u64, u32),
    pid: PidDef,
    parsed: Result<Seq<u8>, ObdFault>,
)
    requires
        outcome_matches(r, st, pid, parsed),
    ensures
        reconnects(st, parsed) ==> recovery_spec(r) == (Recovery::Reconnect {
            pause_ms: RECONNECT_PAUSE_MS,
        }),
        !reconnects(st, parsed) ==> recovery_spec(r) == Recovery::Continue,
{
}

proof fn lemma_due_indices(pids: Seq<PidDef>, tick: u64, n: nat)
    requires
        n <= pids.len(),
        pids.len() <= usize::MAX,
    ensures
        forall|i: int|
            #![trigger pids[i]]
            0 <= i < pids.len() ==> (due_indices(pids, tick, n).contains(i as usize) <==> (i < n
                && is_due(pids[i].priority, tick))),
        forall|j: int|
            0 <= j < due_indices(pids, tick, n).len() ==> #[trigger] due_indices(pids, tick, n)[j]
                < n,
        forall|j: int, k: int|
            0 <= j < k < due_indices(pids, tick, n).len() ==> #[trigger] due_indices(pids, tick, n)[j]
                < #[trigger] due_indices(pids, tick, n)[k],
    decreases n,
{
    if n > 0 {
        let m = (n - 1) as nat;
        lemma_due_indices(pids, tick, m);
        let prev = due_indices(pids, tick, m);
        let cur = due_indices(pids, tick, n);
        if is_due(pids[m as int].priority, tick) {
            assert(cur == prev.push(m as usize));
            assert forall|i: int| 0 <= i < pids.len() implies (cur.contains(i as usize) <==> (i < n
                && is_due(pids[i].priority, tick))) by {
                if cur.contains(i as usize) {
                    let j = choose|j: int| 0 <= j < cur.len() && cur[j] == i as usize;
                    if j < prev.len() {
                        assert(prev[j] == cur[j]);
                        assert(prev.contains(i as usize));
                    }
                }
                if i < n && is_due(pids[i].priority, tick) {
                    if i == m {
                        assert(cur[cur.len() - 1] == i as usize);
                    } else {
                        assert(prev.contains(i as usize));
                        let j = choose|j: int| 0 <= j < prev.len() && prev[j] == i as usize;
                        assert(cur[j] == prev[j]);
                    }
                }
            }
            assert forall|j: int| 0 <= j < cur.len() implies #[trigger] cur[j] < n by {
                if j < prev.len() {
                    assert(cur[j] == prev[j]);
                }
            }
            assert forall|j: int, k: int| 0 <= j < k < cur.len() implies #[trigger] cur[j]
                < #[trigger] cur[k] by {
                assert(cur[j] == prev[j]);
                if k < prev.len() {
                    assert(cur[k] == prev[k]);
                }
            }
        }
    }
}

/// The PIDs polled at a tick are, in table order, exactly those whose
/// priority calls for it at that tick: every Critical PID, the High ones when
/// the tick is a multiple of 3, the Normal ones at multiples of 5 and the Low
/// ones at multiples of 10.
pub proof fn law_due_pids_by_priority(pids: Seq<PidDef>, tick: u64)
    requires
        pids.len() <= usize::MAX,
    ensures
        forall|i: int|
            #![trigger pids[i]]
            0 <= i < pids.len() ==> (due_indices(pids, tick, pids.len()).contains(i as usize) <==> (
            match pids[i].priority {
                Priority::Critical => true,
                Priority::High => tick % 3 == 0,
                Priority::Normal => tick % 5 == 0,
                Priority::Low => tick % 10 == 0,
            })),
        forall|j: int|
            0 <= j < due_indices(pids, tick, pids.len()).len() ==> #[trigger] due_indices(
                pids,
                tick,
                pids.len(),
            )[j] < pids.len(),
        forall|j: int, k: int|
            0 <= j < k < due_indices(pids, tick, pids.len()).len() ==> #[trigger] due_indices(
                pids,
                tick,
                pids.len(),
            )[j] < #[trigger] due_indices(pids, tick, pids.len())[k],
{
    lemma_due_indices(pids, tick, pids.len());
}

/// At tick 0, the first period of the loop, every PID is due, in table
/// order.
pub proof fn law_all_due_at_tick_zero(pids: Seq<PidDef>, n: nat)
    requires
        n <= pids.len(),
    ensures
        due_indices(pids, 0, n) == Seq::new(n, |i: int| i as usize),
    decreases n,
{
    if n > 0 {
        law_all_due_at_tick_zero(pids, (n - 1) as nat);
        assert(is_due(pids[n - 1].priority, 0));
        assert(due_indices(pids, 0, n) =~= Seq::new(n, |i: int| i as usize));
    } else {
        assert(due_indices(pids, 0, n) =~= Seq::new(n, |i: int| i as usize));
    }
}

} // verus!
