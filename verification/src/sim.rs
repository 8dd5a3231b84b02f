//! Deterministic implementations of the engine's environment: a clock
//! that advances only when told to, and a simulated server with a fixed
//! clock offset and a preloaded queue of round-trip times.  These make
//! every protocol run reproducible, and they are what the engine's
//! contracts are discharged against.

use vstd::prelude::*;
use crate::errors::AppError;
use crate::profile::RTT_LIMIT;
use crate::sync_env::{server_stamp, ProgressObs, SyncEnv, OFFSET_LIMIT};
use crate::timing::{fraction_wait_target, wait_target, MICROS_PER_SEC, TIME_CEIL};

verus! {

use vstd::string::StringExecFns;

broadcast use vstd::string::to_string_from_display_ensures_for_str;

/// How far past [`TIME_CEIL`] a simulated clock may run: one probe or
/// wait beyond the ceiling at most.
pub const TIME_HARD: i64 = TIME_CEIL + RTT_LIMIT + 2 * MICROS_PER_SEC;

/// A deterministic clock that advances only when explicitly told to.
/// All waits are instantaneous advances of the internal counters.
pub struct SimulatedClock {
    wall: i64,
    mono: i64,
}

impl SimulatedClock {
    /// Wall-clock microseconds since the epoch.
    pub closed spec fn spec_wall(&self) -> int {
        self.wall as int
    }

    /// Monotonic microseconds since construction.
    pub closed spec fn spec_mono(&self) -> int {
        self.mono as int
    }

    /// Both counters stay in representable range.
    pub open spec fn wf(&self) -> bool {
        &&& 0 <= self.spec_wall() <= TIME_HARD
        &&& 0 <= self.spec_mono() <= TIME_HARD
    }

    /// A clock reading `initial_wall_micros`, with the monotonic counter
    /// at zero.
    pub fn new(initial_wall_micros: i64) -> (c: Self)
        requires
            0 <= initial_wall_micros <= TIME_CEIL,
        ensures
            c.spec_wall() == initial_wall_micros,
            c.spec_mono() == 0,
            c.wf(),
    {
        SimulatedClock { wall: initial_wall_micros, mono: 0 }
    }

    /// Reads the wall clock.
    pub fn system_time_micros(&self) -> (t: i64)
        ensures
            t == self.spec_wall(),
    {
        self.wall
    }

    /// Reads the monotonic counter.
    pub fn monotonic_micros(&self) -> (t: i64)
        ensures
            t == self.spec_mono(),
    {
        self.mono
    }

    /// Moves both counters forward by `micros`.
    pub fn advance(&mut self, micros: i64)
        requires
            old(self).wf(),
            0 <= micros,
            old(self).spec_wall() + micros <= TIME_HARD,
            old(self).spec_mono() + micros <= TIME_HARD,
        ensures
            final(self).wf(),
            final(self).spec_wall() == old(self).spec_wall() + micros,
            final(self).spec_mono() == old(self).spec_mono() + micros,
    {
        self.wall = self.wall + micros;
        self.mono = self.mono + micros;
    }

    /// Waits for `micros`; a zero or negative duration returns at once.
    pub fn wait(&mut self, micros: i64)
        requires
            old(self).wf(),
            micros <= MICROS_PER_SEC,
            old(self).spec_wall() <= TIME_CEIL,
            old(self).spec_mono() <= TIME_CEIL,
        ensures
            final(self).wf(),
            final(self).spec_wall() == old(self).spec_wall() + if micros > 0 { micros as int } else { 0 },
            final(self).spec_mono() == old(self).spec_mono() + if micros > 0 { micros as int } else { 0 },
    {
        if micros > 0 {
            self.advance(micros);
        }
    }

    /// Waits until the wall clock next shows the fractional-second
    /// position `fraction`, at least `min_wait` from now.
    pub fn wait_until_fraction(&mut self, fraction: i64, min_wait: i64)
        requires
            old(self).wf(),
            0 <= fraction < MICROS_PER_SEC,
            0 <= min_wait <= MICROS_PER_SEC,
            old(self).spec_wall() <= TIME_CEIL,
            old(self).spec_mono() <= TIME_CEIL,
        ensures
            final(self).wf(),
            final(self).spec_wall() == wait_target(old(self).spec_wall(), fraction as int, min_wait as int),
            final(self).spec_mono() == old(self).spec_mono() + (final(self).spec_wall() - old(self).spec_wall()),
    {
        let now = self.wall;
        let target = fraction_wait_target(now, fraction, min_wait);
        let duration = target - now;
        if duration > 0 {
            self.advance(duration);
        }
    }
}

/// A simulated synchronization environment: a [`SimulatedClock`] shared
/// with a simulated server that answers each probe after the next queued
/// round-trip time, stamping `floor(send_time + rtt/2 + server_offset)`
/// seconds.  Cancellation can be requested directly or scheduled to fire
/// after a number of progress observations, which is how a host's
/// progress callback would trip it mid-run.
pub struct SimulatedEnv {
    clock: SimulatedClock,
    server_offset: i64,
    rtt_queue: Vec<i64>,
    next_rtt: usize,
    cancel_flag: bool,
    cancel_after_events: i64,
    events_seen: i64,
    events: Vec<ProgressObs>,
}

impl SimulatedEnv {
    /// The observations emitted so far.
    pub closed spec fn spec_events(&self) -> Seq<ProgressObs> {
        self.events@
    }

    /// An environment at wall-clock time `initial_wall_micros`, against a
    /// server whose clock leads the client's by `server_offset_micros`,
    /// with `rtts` preloaded as the round-trip times of the probes to
    /// come.
    pub fn new(initial_wall_micros: i64, server_offset_micros: i64, rtts: Vec<i64>) -> (env: Self)
        requires
            0 <= initial_wall_micros <= TIME_CEIL,
            -OFFSET_LIMIT <= server_offset_micros <= OFFSET_LIMIT,
            initial_wall_micros + server_offset_micros >= 0,
            forall|i: int| 0 <= i < rtts@.len() ==> 0 <= #[trigger] rtts@[i] <= RTT_LIMIT,
        ensures
            env.inv(),
            env.wall() == initial_wall_micros,
            env.mono() == 0,
            env.server_offset() == server_offset_micros,
            env.rtts() == rtts@,
            !env.cancelled(),
            env.spec_events() == Seq::<ProgressObs>::empty(),
    {
        let env = SimulatedEnv {
            clock: SimulatedClock::new(initial_wall_micros),
            server_offset: server_offset_micros,
            rtt_queue: rtts,
            next_rtt: 0,
            cancel_flag: false,
            cancel_after_events: -1,
            events_seen: 0,
            events: Vec::new(),
        };
        proof {
            assert(env.rtts() =~= env.rtt_queue@);
        }
        env
    }

    /// Requests cancellation now.
    pub fn cancel(&mut self)
        requires
            old(self).inv(),
        ensures
            final(self).inv(),
            final(self).cancelled(),
            final(self).wall() == old(self).wall(),
            final(self).mono() == old(self).mono(),
            final(self).server_offset() == old(self).server_offset(),
            final(self).rtts() == old(self).rtts(),
    {
        self.cancel_flag = true;
        proof {
            assert(self.rtts() =~= old(self).rtts());
        }
    }

    /// Schedules cancellation to be requested by the progress sink once
    /// `n` observations have been emitted.
    pub fn cancel_after_events(&mut self, n: u32)
        requires
            old(self).inv(),
        ensures
            final(self).inv(),
            final(self).cancelled() == old(self).cancelled(),
            final(self).wall() == old(self).wall(),
            final(self).mono() == old(self).mono(),
            final(self).server_offset() == old(self).server_offset(),
            final(self).rtts() == old(self).rtts(),
    {
        self.cancel_after_events = n as i64;
        proof {
            assert(self.rtts() =~= old(self).rtts());
        }
    }

    /// How many observations have been emitted.
    pub fn events_len(&self) -> (n: usize)
        ensures
            n == self.spec_events().len(),
    {
        self.events.len()
    }

    /// The `i`th emitted observation.
    pub fn event_at(&self, i: usize) -> (obs: ProgressObs)
        requires
            i < self.spec_events().len(),
        ensures
            obs == self.spec_events()[i as int],
    {
        self.events[i]
    }

    /// How many preloaded round-trip times no probe has consumed yet.
    pub fn remaining_rtts(&self) -> (n: usize)
        requires
            self.inv(),
        ensures
            n == self.rtts().len(),
    {
        self.rtt_queue.len() - self.next_rtt
    }
}

impl SyncEnv for SimulatedEnv {
    closed spec fn wall(&self) -> int {
        self.clock.spec_wall()
    }

    closed spec fn mono(&self) -> int {
        self.clock.spec_mono()
    }

    closed spec fn server_offset(&self) -> int {
        self.server_offset as int
    }

    closed spec fn rtts(&self) -> Seq<i64> {
        self.rtt_queue@.subrange(self.next_rtt as int, self.rtt_queue@.len() as int)
    }

    closed spec fn cancelled(&self) -> bool {
        self.cancel_flag
    }

    closed spec fn obs(&self) -> Seq<ProgressObs> {
        self.events@
    }

    closed spec fn inv(&self) -> bool {
        &&& self.clock.wf()
        &&& self.next_rtt <= self.rtt_queue@.len()
        &&& -OFFSET_LIMIT <= self.server_offset <= OFFSET_LIMIT
        &&& self.wall() + self.server_offset >= 0
        &&& forall|i: int|
            0 <= i < self.rtt_queue@.len() ==> 0 <= #[trigger] self.rtt_queue@[i] <= RTT_LIMIT
    }

    fn system_time_micros(&self) -> (t: i64) {
        self.clock.system_time_micros()
    }

    fn monotonic_micros(&self) -> (t: i64) {
        self.clock.monotonic_micros()
    }

    fn is_cancelled(&self) -> (c: bool) {
        self.cancel_flag
    }

    fn wait(&mut self, micros: i64) {
        self.clock.advance(micros);
        proof {
            assert(self.rtts() =~= old(self).rtts());
        }
    }

    fn wait_until_fraction(&mut self, fraction: i64, min_wait: i64) {
        self.clock.wait_until_fraction(fraction, min_wait);
        proof {
            assert(self.rtts() =~= old(self).rtts());
        }
    }

    fn probe(&mut self) -> (r: Result<(i64, i64), AppError>) {
        if self.next_rtt >= self.rtt_queue.len() {
            return Err(AppError::Transport("simulated probe queue is empty".to_string()));
        }
        let rtt = self.rtt_queue[self.next_rtt];
        self.next_rtt = self.next_rtt + 1;
        let send_wall = self.clock.system_time_micros();
        let half: i64 = ((rtt as u64) / 2) as i64;
        let shifted: i64 = send_wall + half + self.server_offset;
        let stamp: i64 = ((shifted as u64) / (MICROS_PER_SEC as u64)) as i64;
        self.clock.advance(rtt);
        proof {
            let w = old(self).wall();
            let rt = rtt as int;
            let off = old(self).server_offset();
            vstd::arithmetic::div_mod::lemma_fundamental_div_mod(rt, 2);
            vstd::arithmetic::div_mod::lemma_fundamental_div_mod(w + rt / 2 + off, MICROS_PER_SEC as int);
            assert(half as int == rt / 2);
            assert(shifted as int == w + rt / 2 + off);
            assert(stamp as int == server_stamp(w, rt, off));
            assert(self.rtts() =~= old(self).rtts().drop_first());
            assert(old(self).rtts()[0] == rtt);
        }
        Ok((stamp, rtt))
    }

    fn emit_progress(&mut self, obs: ProgressObs)
        ensures
            final(self).spec_events() == old(self).spec_events().push(obs),
            final(self).cancelled() == (old(self).cancelled() || (0 <= old(self).spec_cancel_after()
                <= old(self).spec_events_seen())),
    {
        self.events.push(obs);
        if self.cancel_after_events >= 0 && self.events_seen >= self.cancel_after_events {
            self.cancel_flag = true;
        }
        if self.events_seen < i64::MAX {
            self.events_seen = self.events_seen + 1;
        }
        proof {
            assert(self.rtts() =~= old(self).rtts());
        }
    }
}

impl SimulatedEnv {
    /// The scheduled cancellation threshold; negative when none is set.
    pub closed spec fn spec_cancel_after(&self) -> int {
        self.cancel_after_events as int
    }

    /// How many observations the progress sink has seen.
    pub closed spec fn spec_events_seen(&self) -> int {
        self.events_seen as int
    }
}

} // verus!
