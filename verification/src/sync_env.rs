//! The capability surface the synchronization engine runs against: a
//! wall clock, a monotonic clock, precise waits, one probe operation, a
//! cancellation flag and a progress sink.
//!
//! The contract describes a deterministic network model: the environment
//! holds a queue of round-trip times and a fixed server clock offset; a
//! probe consumes the next round-trip time, advances both clocks by it,
//! and reports the timestamp a symmetric-latency server would stamp at
//! the midpoint of the exchange.  Everything the engine proves holds
//! relative to this model; the simulated environment implements it
//! exactly, and a production environment stands in for it at the
//! network edge.

use vstd::prelude::*;
use crate::errors::AppError;
use crate::models::SyncPhase;
use crate::timing::{wait_target, MICROS_PER_SEC, TIME_CEIL};
use crate::profile::RTT_LIMIT;

verus! {

/// A ceiling on the magnitude of a server clock offset, in microseconds
/// (about thirty-two years).
pub const OFFSET_LIMIT: i64 = 1_000_000_000_000_000;

/// The timestamp a symmetric-latency server stamps on a probe sent at
/// wall-clock time `wall` that takes `rtt` to travel there and back: the
/// whole second its own clock (shifted by `offset`) shows at the midpoint
/// of the exchange.
pub open spec fn server_stamp(wall: int, rtt: int, offset: int) -> int {
    (wall + rtt / 2 + offset) / (MICROS_PER_SEC as int)
}

/// One progress observation, emitted over the course of a run.  The
/// receiver must not block; observations are a side channel only.
#[derive(Debug, Clone, Copy, PartialEq, Eq, Structural)]
pub enum ProgressObs {
    /// Emitted after each profiling probe.
    LatencyProfiling {
        probe_index: usize,
        total_probes: usize,
        rtt_micros: i64,
        running_median_micros: i64,
    },
    /// Emitted when the whole-second offset has been fixed.
    WholeSecondOffset { attempt: u32, offset_seconds: i64, median_micros: i64 },
    /// Emitted after each binary-search iteration.
    BinarySearch {
        iteration: u32,
        left_micros: i64,
        right_micros: i64,
        width_micros: i64,
        median_micros: i64,
    },
    /// Emitted after each verification probe that passed the RTT filter.
    Verification {
        shift_micros: i64,
        predicted: i64,
        actual: i64,
        is_match: bool,
        median_micros: i64,
    },
    /// The terminal observation of a successful run.
    Complete { total_offset_micros: i64, verified: bool, duration_micros: i64 },
}

impl ProgressObs {
    /// The phase an observation belongs to.
    pub fn phase(&self) -> (p: SyncPhase)
        ensures
            p == self.spec_phase(),
    {
        match self {
            ProgressObs::LatencyProfiling { .. } => SyncPhase::LatencyProfiling,
            ProgressObs::WholeSecondOffset { .. } => SyncPhase::WholeSecondOffset,
            ProgressObs::BinarySearch { .. } => SyncPhase::BinarySearch,
            ProgressObs::Verification { .. } => SyncPhase::Verification,
            ProgressObs::Complete { .. } => SyncPhase::Complete,
        }
    }

    /// The phase an observation belongs to.
    pub open spec fn spec_phase(self) -> SyncPhase {
        match self {
            ProgressObs::LatencyProfiling { .. } => SyncPhase::LatencyProfiling,
            ProgressObs::WholeSecondOffset { .. } => SyncPhase::WholeSecondOffset,
            ProgressObs::BinarySearch { .. } => SyncPhase::BinarySearch,
            ProgressObs::Verification { .. } => SyncPhase::Verification,
            ProgressObs::Complete { .. } => SyncPhase::Complete,
        }
    }
}

/// The environment one synchronization runs in.  See the module
/// documentation for the network model the contract encodes.
pub trait SyncEnv: Sized {
    /// Wall-clock time, in microseconds since the Unix epoch.  The
    /// default leaves the value unspecified: an implementation that
    /// gives no model proves no theorems.
    open spec fn wall(&self) -> int {
        vstd::pervasive::arbitrary()
    }

    /// Monotonic time, in microseconds since an arbitrary origin.
    open spec fn mono(&self) -> int {
        vstd::pervasive::arbitrary()
    }

    /// The server's clock offset in the model (server minus client).
    open spec fn server_offset(&self) -> int {
        vstd::pervasive::arbitrary()
    }

    /// The round-trip times the remaining probes will take, in order.
    open spec fn rtts(&self) -> Seq<i64> {
        vstd::pervasive::arbitrary()
    }

    /// Whether cancellation has been requested.  The flag flips at most
    /// once, from false to true.
    open spec fn cancelled(&self) -> bool {
        vstd::pervasive::arbitrary()
    }

    /// The progress observations handed to the sink so far, oldest
    /// first.
    open spec fn obs(&self) -> Seq<ProgressObs> {
        vstd::pervasive::arbitrary()
    }

    /// The environment's invariant; established at construction and
    /// preserved by every operation.  An implementation that models
    /// nothing keeps the default, which never holds.
    open spec fn inv(&self) -> bool {
        false
    }

    /// Reads the wall clock.
    fn system_time_micros(&self) -> (t: i64)
        requires
            self.inv(),
        ensures
            t == self.wall(),
    ;

    /// Reads the monotonic clock.
    fn monotonic_micros(&self) -> (t: i64)
        requires
            self.inv(),
        ensures
            t == self.mono(),
    ;

    /// Reads the cancellation flag.
    fn is_cancelled(&self) -> (c: bool)
        requires
            self.inv(),
        ensures
            c == self.cancelled(),
    ;

    /// Blocks for `micros`; both clocks advance by exactly that much.
    fn wait(&mut self, micros: i64)
        requires
            old(self).inv(),
            0 <= micros <= MICROS_PER_SEC,
            old(self).wall() <= TIME_CEIL,
            old(self).mono() <= TIME_CEIL,
        ensures
            final(self).inv(),
            final(self).wall() == old(self).wall() + micros,
            final(self).mono() == old(self).mono() + micros,
            final(self).server_offset() == old(self).server_offset(),
            final(self).rtts() == old(self).rtts(),
            final(self).cancelled() == old(self).cancelled(),
            final(self).obs() == old(self).obs(),
    ;

    /// Blocks until the wall clock next shows the fractional-second
    /// position `fraction`, at least `min_wait` from now; the landing
    /// instant is exactly [`wait_target`].
    fn wait_until_fraction(&mut self, fraction: i64, min_wait: i64)
        requires
            old(self).inv(),
            0 <= fraction < MICROS_PER_SEC,
            0 <= min_wait <= MICROS_PER_SEC,
            old(self).wall() <= TIME_CEIL,
            old(self).mono() <= TIME_CEIL,
        ensures
            final(self).inv(),
            final(self).wall() == wait_target(old(self).wall(), fraction as int, min_wait as int),
            final(self).mono() == old(self).mono() + (final(self).wall() - old(self).wall()),
            final(self).server_offset() == old(self).server_offset(),
            final(self).rtts() == old(self).rtts(),
            final(self).cancelled() == old(self).cancelled(),
            final(self).obs() == old(self).obs(),
    ;

    /// Issues one probe.  In the model it consumes the head of the
    /// round-trip-time queue, advances both clocks by it, and returns the
    /// server's whole-second timestamp together with the measured
    /// round-trip time; an exhausted queue reports a transport failure
    /// and changes nothing.
    fn probe(&mut self) -> (r: Result<(i64, i64), AppError>)
        requires
            old(self).inv(),
            old(self).wall() <= TIME_CEIL,
            old(self).mono() <= TIME_CEIL,
        ensures
            final(self).inv(),
            final(self).server_offset() == old(self).server_offset(),
            final(self).cancelled() == old(self).cancelled(),
            final(self).obs() == old(self).obs(),
            old(self).rtts().len() == 0 ==> {
                &&& (r matches Err(e) && e matches AppError::Transport(_))
                &&& final(self).wall() == old(self).wall()
                &&& final(self).mono() == old(self).mono()
                &&& final(self).rtts() == old(self).rtts()
            },
            old(self).rtts().len() > 0 ==> {
                let rtt = old(self).rtts()[0];
                &&& r == Ok::<(i64, i64), AppError>(
                    (
                        server_stamp(old(self).wall(), rtt as int, old(self).server_offset()) as i64,
                        rtt,
                    ),
                )
                &&& final(self).wall() == old(self).wall() + rtt
                &&& final(self).mono() == old(self).mono() + rtt
                &&& final(self).rtts() == old(self).rtts().drop_first()
            },
    ;

    /// Hands one observation to the progress sink.  The sink may request
    /// cancellation, but can touch nothing else.
    fn emit_progress(&mut self, obs: ProgressObs)
        requires
            old(self).inv(),
        ensures
            final(self).inv(),
            final(self).wall() == old(self).wall(),
            final(self).mono() == old(self).mono(),
            final(self).server_offset() == old(self).server_offset(),
            final(self).rtts() == old(self).rtts(),
            final(self).obs() == old(self).obs().push(obs),
            old(self).cancelled() ==> final(self).cancelled(),
    ;
}

} // verus!
