//! The four-phase synchronization engine: latency profiling, whole-second
//! offset, binary search for the subsecond offset, and verification —
//! plus the orchestrator that runs them in order.
//!
//! Every function is generic over the [`SyncEnv`] capability trait and is
//! verified against its deterministic network model: a queue of
//! round-trip times and a fixed server offset.  Where a result can be
//! pinned down by a closed formula independent of absolute time (the
//! profile, the whole-second offset, the verification verdict), the
//! contract states it exactly.

use vstd::prelude::*;
use crate::errors::AppError;
use crate::models::SyncPhase;
use crate::profile::{
    from_rtts,
    profile_from,
    running_median,
    sorted_copy,
    sum_micros,
    LatencyProfile,
    RTT_LIMIT,
};
use crate::sync_env::{server_stamp, ProgressObs, SyncEnv, OFFSET_LIMIT};
use crate::timing::{euclid_mod_micros, wait_target, MICROS_PER_SEC, TIME_CEIL};

verus! {

use vstd::arithmetic::div_mod::{
    lemma_add_mod_noop,
    lemma_div_is_ordered,
    lemma_div_multiples_vanish,
    lemma_fundamental_div_mod,
    lemma_hoist_over_denominator,
    lemma_mod_division_less_than_divisor,
    lemma_mod_self_0,
};

/// How many consecutive out-of-band probes a retry loop tolerates.
pub const MAX_RETRIES: u32 = 10;

/// The least separation between consecutive probes.
pub const MIN_INTERVAL_MICROS: i64 = 500_000;

/// How many probes the latency profile is built from.
pub const DEFAULT_PROBE_COUNT: usize = 10;

/// The interquartile-range multiplier of the outlier filter, in tenths.
pub const IQR_MULTIPLIER_TENTHS: i64 = 15;

/// The binary search stops once its interval is narrower than this.
pub const CONVERGENCE_MICROS: i64 = 1_000;

/// A defensive ceiling on binary-search iterations; halving a one-second
/// interval reaches the convergence threshold in ten.
pub const MAX_SEARCH_ITERATIONS: u32 = 20;

/// An upper bound on how far one retry attempt can move the clocks:
/// one aligned wait, one probe, one pause.
pub const RETRY_STEP: i64 = RTT_LIMIT + 3 * MICROS_PER_SEC;

/// The wall-clock ceiling under which a whole run fits its time budget.
pub const ENGINE_TIME_LIMIT: i64 = 1_000_000_000_000_000_000;

/// The ceiling each phase requires on entry.
pub const PHASE_TIME_LIMIT: i64 = TIME_CEIL - 300 * RETRY_STEP;

// ── Cancellation ──

/// Reports `Cancelled` exactly when the environment's flag is set.
pub fn check_cancelled<E: SyncEnv>(env: &E) -> (r: Result<(), AppError>)
    requires
        env.inv(),
    ensures
        r == if env.cancelled() {
            Err::<(), AppError>(AppError::Cancelled)
        } else {
            Ok::<(), AppError>(())
        },
{
    if env.is_cancelled() {
        Err(AppError::Cancelled)
    } else {
        Ok(())
    }
}

// ── The outlier filter over the probe queue ──

/// The position of the first queued round-trip time that the profile's
/// acceptance band admits, looking at most `bound` probes ahead.
pub open spec fn first_in_band(rtts: Seq<i64>, p: LatencyProfile, bound: int) -> Option<int>
    decreases bound,
{
    if bound <= 0 || rtts.len() == 0 {
        None
    } else if p.spec_in_range(rtts[0] as int, IQR_MULTIPLIER_TENTHS as int) {
        Some(0)
    } else {
        match first_in_band(rtts.drop_first(), p, bound - 1) {
            Some(i) => Some(i + 1),
            None => None,
        }
    }
}

proof fn lemma_first_in_band_props(rtts: Seq<i64>, p: LatencyProfile, bound: int)
    ensures
        first_in_band(rtts, p, bound) matches Some(i) ==> {
            &&& 0 <= i < bound
            &&& i < rtts.len()
            &&& p.spec_in_range(rtts[i] as int, IQR_MULTIPLIER_TENTHS as int)
        },
    decreases bound,
{
    if bound > 0 && rtts.len() > 0 && !p.spec_in_range(
        rtts[0] as int,
        IQR_MULTIPLIER_TENTHS as int,
    ) {
        lemma_first_in_band_props(rtts.drop_first(), p, bound - 1);
    }
}

/// Whether the first `n` queued round-trip times (as far as the queue
/// reaches) all lie inside the profile's acceptance band.
pub open spec fn band_prefix(rtts: Seq<i64>, p: LatencyProfile, n: int) -> bool {
    forall|i: int|
        0 <= i < n && i < rtts.len() ==> p.spec_in_range(
            (#[trigger] rtts[i]) as int,
            IQR_MULTIPLIER_TENTHS as int,
        )
}

// ── Floor-division algebra for second stamps ──

/// Multiplying both sides of an inequality by a non-negative factor
/// keeps it.
proof fn lemma_mul_le(a: int, b: int, c: int)
    requires
        a <= b,
        c >= 0,
    ensures
        a * c <= b * c,
{
    assert(a * c <= b * c) by (nonlinear_arith)
        requires a <= b && c >= 0;
}

/// Shifting by a whole number of seconds moves a second stamp by exactly
/// that number: `(w + x) / s` splits into `w`'s whole seconds plus the
/// stamp of `x` against `w`'s fractional position.
proof fn lemma_floor_shift(w: int, x: int)
    requires
        w >= 0,
    ensures
        (w + x) / (MICROS_PER_SEC as int) == w / (MICROS_PER_SEC as int) + ((w % (
        MICROS_PER_SEC as int)) + x) / (MICROS_PER_SEC as int),
{
    let m = MICROS_PER_SEC as int;
    lemma_fundamental_div_mod(w, m);
    lemma_hoist_over_denominator(x + w % m, w / m, m as nat);
    assert(x + w % m + (w / m) * m == w + x);
}

/// With the probe's send instant aligned to the fractional position
/// `(s - half) mod s`, the server's stamp minus the prediction collapses
/// to a formula over the offset and the round-trip time alone.
pub open spec fn whole_offset_estimate(offset: int, rtt: int, half: int) -> int {
    (offset + rtt / 2 - half) / (MICROS_PER_SEC as int)
}

proof fn lemma_whole_offset_estimate(w: int, rtt: int, half: int, offset: int)
    requires
        w >= 0,
        0 <= half,
        half < OFFSET_LIMIT,
        0 <= rtt,
        w + offset >= 0,
        w % (MICROS_PER_SEC as int) == (MICROS_PER_SEC - half) % (MICROS_PER_SEC as int),
    ensures
        server_stamp(w, rtt, offset) - (w + half) / (MICROS_PER_SEC as int)
            == whole_offset_estimate(offset, rtt, half),
{
    let m = MICROS_PER_SEC as int;
    let f = w % m;
    lemma_floor_shift(w, rtt / 2 + offset);
    lemma_floor_shift(w, half);
    // f + half is a whole number of seconds
    lemma_add_mod_noop(m - half, half, m);
    lemma_mod_self_0(m);
    assert((f + half) % m == 0) by {
        assert(((m - half) % m + half % m) % m == (m - half + half) % m);
        assert((m - half + half) % m == m % m);
        assert((f + half % m) % m == 0);
        lemma_fundamental_div_mod(half, m);
        lemma_add_mod_noop(f, half, m);
        vstd::arithmetic::div_mod::lemma_mod_twice(f, m);
    }
    lemma_fundamental_div_mod(f + half, m);
    let k = (f + half) / m;
    assert(f + half == k * m);
    // (f + half) / m == k and (f + rtt/2 + offset) / m == k + estimate
    lemma_hoist_over_denominator(rtt / 2 + offset - half, k, m as nat);
    assert(rtt / 2 + offset - half + k * m == f + rtt / 2 + offset);
    lemma_fundamental_div_mod(rtt, 2);
}

// ── The shared aligned-probe retry loop ──

/// The state an aligned-probe retry loop ends in, in the deterministic
/// network model: an accepted probe, an exhausted queue, or ten
/// rejections.
pub enum AlignedModel {
    /// The first in-band probe: its send instant, the server's stamp,
    /// the accepted round-trip time, the attempt index, and the clock
    /// and queue afterwards.
    Hit { send_wall: int, stamp: int, rtt: i64, attempt: int, wall: int, rtts: Seq<i64> },
    /// The queue ran dry before an in-band probe appeared.
    Dry { wall: int, rtts: Seq<i64> },
    /// Ten consecutive probes fell outside the band.
    Spent { wall: int, rtts: Seq<i64> },
}

/// What one aligned-probe retry loop does to the model state: wait to
/// the fractional position, consume the next round-trip time, accept it
/// if the band admits it, otherwise pause and retry.
pub open spec fn aligned_model(
    wall: int,
    rtts: Seq<i64>,
    p: LatencyProfile,
    offset: int,
    fraction: int,
    bound: int,
    attempt: int,
) -> AlignedModel
    decreases bound,
{
    if bound <= 0 {
        AlignedModel::Spent { wall, rtts }
    } else {
        let w1 = wait_target(wall, fraction, MIN_INTERVAL_MICROS as int);
        if rtts.len() == 0 {
            AlignedModel::Dry { wall: w1, rtts }
        } else {
            let rtt = rtts[0];
            if p.spec_in_range(rtt as int, IQR_MULTIPLIER_TENTHS as int) {
                AlignedModel::Hit {
                    send_wall: w1,
                    stamp: server_stamp(w1, rtt as int, offset),
                    rtt,
                    attempt,
                    wall: w1 + rtt,
                    rtts: rtts.drop_first(),
                }
            } else {
                aligned_model(
                    w1 + rtt + MIN_INTERVAL_MICROS,
                    rtts.drop_first(),
                    p,
                    offset,
                    fraction,
                    bound - 1,
                    attempt + 1,
                )
            }
        }
    }
}

/// Waits to the fractional-second position `fraction`, probes, and
/// repeats on out-of-band round-trip times, up to [`MAX_RETRIES`] probes.
/// On success it returns the send instant, the server's stamp and the
/// accepted round-trip time: the first queued one inside the band.
fn aligned_probe<E: SyncEnv>(env: &mut E, profile: &LatencyProfile, fraction: i64) -> (r: Result<
    (i64, i64, i64, u32),
    AppError,
>)
    requires
        old(env).inv(),
        profile.wf(),
        0 <= fraction < MICROS_PER_SEC,
        0 <= old(env).wall() <= TIME_CEIL - 12 * RETRY_STEP,
        0 <= old(env).mono() <= TIME_CEIL - 12 * RETRY_STEP,
        -OFFSET_LIMIT <= old(env).server_offset() <= OFFSET_LIMIT,
        old(env).wall() + old(env).server_offset() >= 0,
        forall|i: int| 0 <= i < old(env).rtts().len() ==> 0 <= #[trigger] old(env).rtts()[i]
            <= RTT_LIMIT,
    ensures
        final(env).inv(),
        final(env).server_offset() == old(env).server_offset(),
        final(env).cancelled() == old(env).cancelled(),
        old(env).wall() <= final(env).wall() <= old(env).wall() + (MAX_RETRIES as int) * RETRY_STEP,
        final(env).mono() - final(env).wall() == old(env).mono() - old(env).wall(),
        forall|i: int| 0 <= i < final(env).rtts().len() ==> 0 <= #[trigger] final(env).rtts()[i]
            <= RTT_LIMIT,
        exists|k: int|
            0 <= k <= MAX_RETRIES as int && final(env).rtts() == old(env).rtts().skip(k),
        final(env).obs() == old(env).obs(),
        old(env).cancelled() ==> {
            &&& r == Err::<(i64, i64, i64, u32), AppError>(AppError::Cancelled)
            &&& final(env).wall() == old(env).wall()
            &&& final(env).mono() == old(env).mono()
            &&& final(env).rtts() == old(env).rtts()
        },
        (r matches Err(e) && e matches AppError::Transport(_)) ==> final(env).rtts().len() == 0,
        r == Err::<(i64, i64, i64, u32), AppError>(AppError::MaxRetriesExceeded(MAX_RETRIES))
            ==> final(env).rtts() == old(env).rtts().skip(MAX_RETRIES as int),
        !old(env).cancelled() ==> match aligned_model(
            old(env).wall(),
            old(env).rtts(),
            *profile,
            old(env).server_offset(),
            fraction as int,
            MAX_RETRIES as int,
            0,
        ) {
            AlignedModel::Hit { send_wall, stamp, rtt, attempt, wall, rtts } => {
                &&& (r matches Ok(t) && t.0 == send_wall && t.1 == stamp && t.2 == rtt && t.3
                    == attempt)
                &&& final(env).wall() == wall
                &&& final(env).rtts() == rtts
            },
            AlignedModel::Dry { wall, rtts } => {
                &&& (r matches Err(e) && e matches AppError::Transport(_))
                &&& final(env).wall() == wall
                &&& final(env).rtts() == rtts
            },
            AlignedModel::Spent { wall, rtts } => {
                &&& r == Err::<(i64, i64, i64, u32), AppError>(AppError::MaxRetriesExceeded(
                    MAX_RETRIES,
                ))
                &&& final(env).wall() == wall
                &&& final(env).rtts() == rtts
            },
        },
        r matches Ok(t) ==> {
            &&& first_in_band(old(env).rtts(), *profile, MAX_RETRIES as int) matches Some(i)
                && t.2 == old(env).rtts()[i]
                && t.3 as int == i
                && final(env).rtts() == old(env).rtts().skip(i + 1)
            &&& (t.0 as int) % (MICROS_PER_SEC as int) == fraction
            &&& old(env).wall() <= t.0 <= old(env).wall() + (MAX_RETRIES as int) * RETRY_STEP
            &&& t.1 == server_stamp(t.0 as int, t.2 as int, old(env).server_offset())
            &&& 0 <= t.2 <= RTT_LIMIT
            &&& final(env).wall() == t.0 + t.2
        },
        r matches Err(e) ==> {
            ||| (e == AppError::Cancelled && final(env).cancelled())
            ||| ((e matches AppError::Transport(_)) && old(env).rtts().len() < MAX_RETRIES
                && first_in_band(old(env).rtts(), *profile, MAX_RETRIES as int) is None)
            ||| (e == AppError::MaxRetriesExceeded(MAX_RETRIES) && first_in_band(
                old(env).rtts(),
                *profile,
                MAX_RETRIES as int,
            ) is None)
        },
{
    let ghost q0 = old(env).rtts();
    let ghost w0 = old(env).wall();
    let ghost m0 = old(env).mono();
    let ghost off0 = old(env).server_offset();
    proof {
        lemma_first_in_band_props(q0, *profile, MAX_RETRIES as int);
    }
    let mut attempt: u32 = 0;
    while attempt < MAX_RETRIES
        invariant
            q0 == old(env).rtts(),
            w0 == old(env).wall(),
            m0 == old(env).mono(),
            off0 == old(env).server_offset(),
            env.inv(),
            profile.wf(),
            0 <= fraction < MICROS_PER_SEC,
            attempt <= MAX_RETRIES,
            attempt as int <= q0.len(),
            env.server_offset() == off0,
            env.cancelled() == old(env).cancelled(),
            env.rtts() == q0.skip(attempt as int),
            env.mono() - env.wall() == m0 - w0,
            w0 <= env.wall() <= w0 + (attempt as int) * RETRY_STEP,
            0 <= w0 <= TIME_CEIL - 12 * RETRY_STEP,
            0 <= m0 <= TIME_CEIL - 12 * RETRY_STEP,
            w0 + off0 >= 0,
            -OFFSET_LIMIT <= off0 <= OFFSET_LIMIT,
            forall|i: int| 0 <= i < q0.len() ==> 0 <= #[trigger] q0[i] <= RTT_LIMIT,
            match first_in_band(q0, *profile, MAX_RETRIES as int) {
                Some(i) => attempt as int <= i && attempt as int <= q0.len() && first_in_band(
                    env.rtts(),
                    *profile,
                    MAX_RETRIES as int - attempt as int,
                ) == Some(i - attempt as int),
                None => first_in_band(
                    env.rtts(),
                    *profile,
                    MAX_RETRIES as int - attempt as int,
                ) is None,
            },
            old(env).cancelled() ==> attempt == 0,
            env.obs() == old(env).obs(),
            aligned_model(w0, q0, *profile, off0, fraction as int, MAX_RETRIES as int, 0)
                == aligned_model(
                env.wall(),
                env.rtts(),
                *profile,
                off0,
                fraction as int,
                MAX_RETRIES as int - attempt as int,
                attempt as int,
            ),
        decreases MAX_RETRIES - attempt,
    {
        proof {
            lemma_mul_le(attempt as int, MAX_RETRIES as int, RETRY_STEP as int);
            lemma_mul_le(attempt + 1, MAX_RETRIES as int, RETRY_STEP as int);
            assert((attempt as int + 1) * RETRY_STEP == (attempt as int) * RETRY_STEP + RETRY_STEP)
                by (nonlinear_arith);
            assert(RETRY_STEP >= 3 * MICROS_PER_SEC);
        }
        match check_cancelled(env) {
            Ok(_) => (),
            Err(e) => {
                proof {
                    assert(attempt == 0);
                    assert(q0.skip(0) =~= q0);
                }
                return Err(e);
            },
        }
        let ghost w_before = env.wall();
        env.wait_until_fraction(fraction, MIN_INTERVAL_MICROS);
        proof {
            crate::timing::lemma_wait_target_properties(
                w_before,
                fraction as int,
                MIN_INTERVAL_MICROS as int,
            );
        }
        let send_wall = env.system_time_micros();
        let ghost q_here = env.rtts();
        match env.probe() {
            Err(e) => {
                // the queue ran dry before an in-band probe appeared
                proof {
                    assert(q_here.len() == 0);
                    assert(attempt as int == q0.len());
                    assert(first_in_band(q0, *profile, MAX_RETRIES as int) is None);
                    assert(aligned_model(
                        w_before,
                        q_here,
                        *profile,
                        off0,
                        fraction as int,
                        MAX_RETRIES as int - attempt as int,
                        attempt as int,
                    ) == AlignedModel::Dry { wall: send_wall as int, rtts: q_here });
                }
                return Err(e);
            },
            Ok((date, rtt)) => {
                if profile.is_in_range(rtt, IQR_MULTIPLIER_TENTHS) {
                    proof {
                        assert(q_here[0] == rtt);
                        assert(q_here.len() > 0);
                        assert(MAX_RETRIES as int - attempt as int > 0);
                        assert(first_in_band(q_here, *profile, MAX_RETRIES as int - attempt as int)
                            == Some(0int));
                        assert(first_in_band(q0, *profile, MAX_RETRIES as int) == Some(
                            attempt as int,
                        ));
                        assert(q0.skip(attempt as int)[0] == q0[attempt as int]);
                        assert(env.rtts() =~= q0.skip(attempt + 1));
                        let num = send_wall as int + (rtt as int) / 2 + off0;
                        lemma_fundamental_div_mod(rtt as int, 2);
                        assert(0 <= num <= TIME_CEIL + RTT_LIMIT + OFFSET_LIMIT);
                        vstd::arithmetic::div_mod::lemma_div_pos_is_pos(num, MICROS_PER_SEC as int);
                        lemma_div_is_ordered(
                            num,
                            TIME_CEIL + RTT_LIMIT + OFFSET_LIMIT,
                            MICROS_PER_SEC as int,
                        );
                        assert(server_stamp(send_wall as int, rtt as int, off0)
                            == server_stamp(send_wall as int, rtt as int, off0) as i64 as int);
                        assert(aligned_model(
                            w_before,
                            q_here,
                            *profile,
                            off0,
                            fraction as int,
                            MAX_RETRIES as int - attempt as int,
                            attempt as int,
                        ) == AlignedModel::Hit {
                            send_wall: send_wall as int,
                            stamp: server_stamp(send_wall as int, rtt as int, off0),
                            rtt,
                            attempt: attempt as int,
                            wall: send_wall as int + rtt,
                            rtts: q_here.drop_first(),
                        });
                    }
                    return Ok((send_wall, date, rtt, attempt));
                }
                proof {
                    assert(q_here[0] == rtt);
                    assert(q_here.len() > 0);
                    assert(!profile.spec_in_range(rtt as int, IQR_MULTIPLIER_TENTHS as int));
                    assert(MAX_RETRIES as int - attempt as int > 0);
                    assert(first_in_band(q_here, *profile, MAX_RETRIES as int - attempt as int)
                        == match first_in_band(
                        q_here.drop_first(),
                        *profile,
                        MAX_RETRIES as int - attempt as int - 1,
                    ) {
                        Some(i) => Some(i + 1),
                        None => None,
                    });
                    lemma_first_in_band_props(
                        q_here.drop_first(),
                        *profile,
                        MAX_RETRIES as int - attempt as int - 1,
                    );
                    assert(q_here.drop_first() =~= q0.skip(attempt + 1));
                    assert(aligned_model(
                        w_before,
                        q_here,
                        *profile,
                        off0,
                        fraction as int,
                        MAX_RETRIES as int - attempt as int,
                        attempt as int,
                    ) == aligned_model(
                        send_wall as int + rtt + MIN_INTERVAL_MICROS,
                        q_here.drop_first(),
                        *profile,
                        off0,
                        fraction as int,
                        MAX_RETRIES as int - attempt as int - 1,
                        attempt as int + 1,
                    ));
                }
                env.wait(MIN_INTERVAL_MICROS);
            },
        }
        attempt = attempt + 1;
    }
    proof {
        assert(first_in_band(q0, *profile, MAX_RETRIES as int) is None);
        assert(aligned_model(
            env.wall(),
            env.rtts(),
            *profile,
            off0,
            fraction as int,
            0,
            MAX_RETRIES as int,
        ) == AlignedModel::Spent { wall: env.wall(), rtts: env.rtts() });
    }
    Err(AppError::MaxRetriesExceeded(MAX_RETRIES))
}

// ── Phase 1: latency profiling ──

/// Sends [`DEFAULT_PROBE_COUNT`] probes spaced by the minimum interval,
/// collects their round-trip times, and returns their five-number
/// summary.  The profile is a pure function of the first ten queued
/// round-trip times.
pub fn measure_latency<E: SyncEnv>(env: &mut E) -> (r: Result<LatencyProfile, AppError>)
    requires
        old(env).inv(),
        0 <= old(env).wall() <= PHASE_TIME_LIMIT,
        0 <= old(env).mono() <= PHASE_TIME_LIMIT,
        -OFFSET_LIMIT <= old(env).server_offset() <= OFFSET_LIMIT,
        old(env).wall() + old(env).server_offset() >= 0,
        forall|i: int| 0 <= i < old(env).rtts().len() ==> 0 <= #[trigger] old(env).rtts()[i]
            <= RTT_LIMIT,
    ensures
        final(env).inv(),
        final(env).server_offset() == old(env).server_offset(),
        old(env).cancelled() ==> final(env).cancelled(),
        old(env).wall() <= final(env).wall() <= old(env).wall() + 11 * RETRY_STEP,
        final(env).mono() - final(env).wall() == old(env).mono() - old(env).wall(),
        forall|i: int| 0 <= i < final(env).rtts().len() ==> 0 <= #[trigger] final(env).rtts()[i]
            <= RTT_LIMIT,
        r matches Ok(p) ==> {
            &&& old(env).rtts().len() >= DEFAULT_PROBE_COUNT
            &&& p == profile_from(old(env).rtts().take(DEFAULT_PROBE_COUNT as int))
            &&& p.wf()
            &&& final(env).rtts() == old(env).rtts().skip(DEFAULT_PROBE_COUNT as int)
            &&& final(env).wall() == old(env).wall() + sum_micros(
                old(env).rtts().take(DEFAULT_PROBE_COUNT as int),
            ) + 9 * (MIN_INTERVAL_MICROS as int)
            &&& final(env).obs().len() == old(env).obs().len() + DEFAULT_PROBE_COUNT
            &&& forall|j: int|
                0 <= j < DEFAULT_PROBE_COUNT ==> #[trigger] final(env).obs()[old(env).obs().len()
                    + j] == (ProgressObs::LatencyProfiling {
                    probe_index: j as usize,
                    total_probes: DEFAULT_PROBE_COUNT,
                    rtt_micros: old(env).rtts()[j],
                    running_median_micros: running_median(old(env).rtts().take(j + 1)),
                })
        },
        final(env).obs().len() >= old(env).obs().len(),
        final(env).obs().take(old(env).obs().len() as int) == old(env).obs(),
        r matches Err(e) ==> {
            ||| (e == AppError::Cancelled && final(env).cancelled())
            ||| ((e matches AppError::Transport(_)) && old(env).rtts().len() < DEFAULT_PROBE_COUNT)
        },
        exists|k: int|
            0 <= k <= DEFAULT_PROBE_COUNT as int && final(env).rtts() == old(env).rtts().skip(k),
        old(env).cancelled() ==> {
            &&& r == Err::<LatencyProfile, AppError>(AppError::Cancelled)
            &&& final(env).wall() == old(env).wall()
            &&& final(env).mono() == old(env).mono()
            &&& final(env).rtts() == old(env).rtts()
        },
{
    let ghost q0 = old(env).rtts();
    let ghost w0 = old(env).wall();
    let ghost m0 = old(env).mono();
    let ghost off0 = old(env).server_offset();
    let ghost obs0 = old(env).obs();
    let mut rtts: Vec<i64> = Vec::new();
    let mut i: usize = 0;
    while i < DEFAULT_PROBE_COUNT
        invariant
            q0 == old(env).rtts(),
            w0 == old(env).wall(),
            m0 == old(env).mono(),
            off0 == old(env).server_offset(),
            env.inv(),
            i <= DEFAULT_PROBE_COUNT,
            i as int <= q0.len(),
            env.rtts() == q0.skip(i as int),
            rtts@ == q0.take(i as int),
            env.server_offset() == off0,
            old(env).cancelled() ==> env.cancelled(),
            env.mono() - env.wall() == m0 - w0,
            w0 <= env.wall() <= w0 + (i as int) * RETRY_STEP,
            env.wall() == w0 + sum_micros(q0.take(i as int)) + (if i as int <= 9 {
                i as int
            } else {
                9
            }) * (MIN_INTERVAL_MICROS as int),
            0 <= w0 <= PHASE_TIME_LIMIT,
            0 <= m0 <= PHASE_TIME_LIMIT,
            old(env).cancelled() ==> i == 0,
            obs0 == old(env).obs(),
            env.obs().len() == obs0.len() + i,
            env.obs().take(obs0.len() as int) == obs0,
            forall|j: int|
                0 <= j < i ==> #[trigger] env.obs()[obs0.len() + j]
                    == (ProgressObs::LatencyProfiling {
                    probe_index: j as usize,
                    total_probes: DEFAULT_PROBE_COUNT,
                    rtt_micros: q0[j],
                    running_median_micros: running_median(q0.take(j + 1)),
                }),
            forall|k: int| 0 <= k < q0.len() ==> 0 <= #[trigger] q0[k] <= RTT_LIMIT,
        decreases DEFAULT_PROBE_COUNT - i,
    {
        proof {
            lemma_mul_le(i as int, DEFAULT_PROBE_COUNT as int, RETRY_STEP as int);
            assert((i as int + 1) * RETRY_STEP == (i as int) * RETRY_STEP + RETRY_STEP)
                by (nonlinear_arith);
        }
        match check_cancelled(env) {
            Ok(_) => (),
            Err(e) => {
                proof {
                    if old(env).cancelled() {
                        assert(i == 0);
                        assert(env.rtts() =~= q0.skip(0));
                        assert(q0.skip(0) =~= q0);
                    }
                }
                return Err(e);
            },
        }
        match env.probe() {
            Err(e) => {
                proof {
                    assert(q0.len() == i as int);
                }
                return Err(e);
            },
            Ok((_date, rtt)) => {
                proof {
                    assert(q0.skip(i as int)[0] == q0[i as int]);
                    assert(env.rtts() =~= q0.skip(i as int + 1));
                }
                rtts.push(rtt);
                proof {
                    assert(rtts@ =~= q0.take(i as int + 1));
                    assert(q0.take(i as int + 1).drop_last() =~= q0.take(i as int));
                    assert(sum_micros(q0.take(i as int + 1)) == sum_micros(q0.take(i as int))
                        + q0[i as int]);
                    assert((i as int + 1) * (MIN_INTERVAL_MICROS as int) == (i as int) * (
                    MIN_INTERVAL_MICROS as int) + MIN_INTERVAL_MICROS) by (nonlinear_arith);
                }
                let sorted = sorted_copy(&rtts);
                proof {
                    crate::profile::lemma_sort_micros_ensures(rtts@);
                    vstd::arithmetic::div_mod::lemma_div_is_strictly_smaller(
                        sorted@.len() as int,
                        2,
                    );
                }
                let probe_median = sorted[sorted.len() / 2];
                proof {
                    assert(probe_median == running_median(q0.take(i as int + 1)));
                }
                env.emit_progress(
                    ProgressObs::LatencyProfiling {
                        probe_index: i,
                        total_probes: DEFAULT_PROBE_COUNT,
                        rtt_micros: rtt,
                        running_median_micros: probe_median,
                    },
                );
                proof {
                    assert(env.obs().take(obs0.len() as int) =~= obs0);
                }
                if i < DEFAULT_PROBE_COUNT - 1 {
                    env.wait(MIN_INTERVAL_MICROS);
                }
            },
        }
        i = i + 1;
    }
    proof {
        lemma_mul_le(i as int, 11, RETRY_STEP as int);
        assert(rtts@ == q0.take(DEFAULT_PROBE_COUNT as int));
        assert(rtts@.len() == DEFAULT_PROBE_COUNT);
        assert forall|k: int| 0 <= k < rtts@.len() implies 0 <= #[trigger] rtts@[k] <= RTT_LIMIT by {
            assert(rtts@[k] == q0[k]);
        }
    }
    let profile = from_rtts(&rtts);
    Ok(profile)
}

// ── Phase 2: whole-second offset ──

/// A bound on any whole-second offset the engine can report: the offset
/// and round-trip ceilings together, in whole seconds.
pub const WHOLE_OFFSET_BOUND: i64 = 1_001_000_000;

/// What the whole-second phase returns against a given queue: the
/// estimate taken from the first in-band probe, or nothing when ten
/// probes in a row fall outside the band.
pub open spec fn phase2_outcome(rtts: Seq<i64>, p: LatencyProfile, offset: int) -> Option<int> {
    match first_in_band(rtts, p, MAX_RETRIES as int) {
        Some(i) => Some(whole_offset_estimate(offset, rtts[i] as int, (p.median as int) / 2)),
        None => None,
    }
}

/// Aligns a probe's midpoint with a whole client second and returns the
/// signed difference between the server's stamped second and the second
/// the client predicted: the whole-second part of the clock offset.
pub fn find_second_offset<E: SyncEnv>(env: &mut E, profile: &LatencyProfile) -> (r: Result<
    i64,
    AppError,
>)
    requires
        old(env).inv(),
        profile.wf(),
        0 <= old(env).wall() <= PHASE_TIME_LIMIT,
        0 <= old(env).mono() <= PHASE_TIME_LIMIT,
        -OFFSET_LIMIT <= old(env).server_offset() <= OFFSET_LIMIT,
        old(env).wall() + old(env).server_offset() >= 0,
        forall|i: int| 0 <= i < old(env).rtts().len() ==> 0 <= #[trigger] old(env).rtts()[i]
            <= RTT_LIMIT,
    ensures
        final(env).inv(),
        final(env).server_offset() == old(env).server_offset(),
        old(env).cancelled() ==> final(env).cancelled(),
        old(env).wall() <= final(env).wall() <= old(env).wall() + 11 * RETRY_STEP,
        final(env).mono() - final(env).wall() == old(env).mono() - old(env).wall(),
        forall|i: int| 0 <= i < final(env).rtts().len() ==> 0 <= #[trigger] final(env).rtts()[i]
            <= RTT_LIMIT,
        r matches Ok(v) ==> {
            &&& phase2_outcome(old(env).rtts(), *profile, old(env).server_offset()) == Some(
                v as int,
            )
            &&& first_in_band(old(env).rtts(), *profile, MAX_RETRIES as int) matches Some(i)
                && final(env).rtts() == old(env).rtts().skip(i + 1)
                && final(env).obs() == old(env).obs().push(
                ProgressObs::WholeSecondOffset {
                    attempt: i as u32,
                    offset_seconds: v,
                    median_micros: profile.median,
                },
            )
            &&& -WHOLE_OFFSET_BOUND <= v <= WHOLE_OFFSET_BOUND
        },
        r is Err ==> final(env).obs() == old(env).obs(),
        r matches Err(e) ==> {
            ||| (e == AppError::Cancelled && final(env).cancelled())
            ||| ((e matches AppError::Transport(_)) && old(env).rtts().len() < MAX_RETRIES
                && phase2_outcome(old(env).rtts(), *profile, old(env).server_offset()) is None)
            ||| (e == AppError::MaxRetriesExceeded(MAX_RETRIES) && phase2_outcome(
                old(env).rtts(),
                *profile,
                old(env).server_offset(),
            ) is None)
        },
        r == Err::<i64, AppError>(AppError::MaxRetriesExceeded(MAX_RETRIES))
            ==> final(env).rtts() == old(env).rtts().skip(MAX_RETRIES as int),
        old(env).cancelled() ==> {
            &&& r == Err::<i64, AppError>(AppError::Cancelled)
            &&& final(env).wall() == old(env).wall()
            &&& final(env).mono() == old(env).mono()
            &&& final(env).rtts() == old(env).rtts()
        },
        !old(env).cancelled() ==> match aligned_model(
            old(env).wall(),
            old(env).rtts(),
            *profile,
            old(env).server_offset(),
            (MICROS_PER_SEC - (profile.median as int) / 2) % (MICROS_PER_SEC as int),
            MAX_RETRIES as int,
            0,
        ) {
            AlignedModel::Hit { wall, rtts, .. } => {
                &&& r is Ok
                &&& final(env).wall() == wall
                &&& final(env).rtts() == rtts
            },
            AlignedModel::Dry { wall, rtts } => {
                &&& (r matches Err(e) && e matches AppError::Transport(_))
                &&& final(env).wall() == wall
                &&& final(env).rtts() == rtts
            },
            AlignedModel::Spent { wall, rtts } => {
                &&& r == Err::<i64, AppError>(AppError::MaxRetriesExceeded(MAX_RETRIES))
                &&& final(env).wall() == wall
                &&& final(env).rtts() == rtts
            },
        },
{
    let ghost q0 = old(env).rtts();
    let ghost off0 = old(env).server_offset();
    let half: i64 = ((profile.median as u64) / 2) as i64;
    proof {
        lemma_fundamental_div_mod(profile.median as int, 2);
        assert(half as int == (profile.median as int) / 2);
    }
    let fraction = euclid_mod_micros(MICROS_PER_SEC - half);
    match aligned_probe(env, profile, fraction) {
        Err(e) => Err(e),
        Ok((send_wall, date, rtt, attempt)) => {
            let predicted: i64 = (((send_wall + half) as u64) / (MICROS_PER_SEC as u64)) as i64;
            proof {
                let m = MICROS_PER_SEC as int;
                let w = send_wall as int;
                lemma_fundamental_div_mod(w + half, m);
                assert(predicted as int == (w + half) / m);
                lemma_whole_offset_estimate(w, rtt as int, half as int, off0);
                // the estimate, and with it the result, is bounded
                let num = off0 + (rtt as int) / 2 - half;
                lemma_fundamental_div_mod(rtt as int, 2);
                assert(-(OFFSET_LIMIT + RTT_LIMIT) <= num <= OFFSET_LIMIT + RTT_LIMIT);
                lemma_div_is_ordered(-(OFFSET_LIMIT + RTT_LIMIT), num, m);
                lemma_div_is_ordered(num, OFFSET_LIMIT + RTT_LIMIT, m);
                lemma_div_multiples_vanish(WHOLE_OFFSET_BOUND as int, m);
                lemma_div_multiples_vanish(-(WHOLE_OFFSET_BOUND as int), m);
                assert((OFFSET_LIMIT + RTT_LIMIT) == (WHOLE_OFFSET_BOUND as int) * m);
                assert((-(OFFSET_LIMIT + RTT_LIMIT)) == (-(WHOLE_OFFSET_BOUND as int)) * m);
            }
            let offset_seconds = date - predicted;
            env.emit_progress(
                ProgressObs::WholeSecondOffset {
                    attempt,
                    offset_seconds,
                    median_micros: profile.median,
                },
            );
            Ok(offset_seconds)
        },
    }
}

// ── Phase 3: binary search for the subsecond offset ──

/// A bound on any whole-second stamp the model server can produce.
pub const STAMP_BOUND: i64 = 2_000_000_000_000;

/// The clock budget of one binary-search iteration.
pub const SEARCH_STEP: i64 = 11 * RETRY_STEP;

proof fn lemma_stamp_bounds(w: int, rtt: int, off: int)
    requires
        0 <= w <= TIME_CEIL,
        0 <= rtt <= RTT_LIMIT,
        -OFFSET_LIMIT <= off <= OFFSET_LIMIT,
        w + off >= 0,
    ensures
        0 <= server_stamp(w, rtt, off) <= STAMP_BOUND,
{
    let m = MICROS_PER_SEC as int;
    lemma_fundamental_div_mod(rtt, 2);
    let num = w + rtt / 2 + off;
    vstd::arithmetic::div_mod::lemma_div_pos_is_pos(num, m);
    lemma_div_is_ordered(num, (STAMP_BOUND as int) * m, m);
    lemma_div_multiples_vanish(STAMP_BOUND as int, m);
}

/// The state a binary-search run ends in, in the deterministic network
/// model: a subsecond offset, an exhausted queue, or ten rejections in
/// one retry loop.
pub enum Phase3Model {
    /// The search finished; the subsecond offset and the clock and queue
    /// afterwards.
    Sub { subsecond: int, wall: int, rtts: Seq<i64> },
    /// Some retry loop drained the queue.
    Dry { wall: int, rtts: Seq<i64> },
    /// Some retry loop saw ten consecutive out-of-band probes.
    Spent { wall: int, rtts: Seq<i64> },
}

/// One bisection run over the model, from a bracketed interval: probe at
/// the midpoint fraction, compare the server's tick count against the
/// elapsed whole seconds, and narrow the bracket, until the interval is
/// under the convergence threshold (or the defensive iteration ceiling).
pub open spec fn phase3_search(
    wall: int,
    rtts: Seq<i64>,
    p: LatencyProfile,
    offset: int,
    half: int,
    prev_date: int,
    left: int,
    right: int,
    iter: int,
) -> Phase3Model
    decreases MAX_SEARCH_ITERATIONS - iter,
{
    if right - left < CONVERGENCE_MICROS || iter >= MAX_SEARCH_ITERATIONS {
        Phase3Model::Sub { subsecond: MICROS_PER_SEC - left, wall, rtts }
    } else {
        let mid = (left + right) / 2;
        let f = (mid - half) % (MICROS_PER_SEC as int);
        match aligned_model(wall, rtts, p, offset, f, MAX_RETRIES as int, 0) {
            AlignedModel::Dry { wall: w2, rtts: q2 } => Phase3Model::Dry { wall: w2, rtts: q2 },
            AlignedModel::Spent { wall: w2, rtts: q2 } => Phase3Model::Spent {
                wall: w2,
                rtts: q2,
            },
            AlignedModel::Hit { stamp, wall: w2, rtts: q2, .. } => {
                let elapsed = (w2 - wall) / (MICROS_PER_SEC as int);
                if stamp - prev_date == elapsed {
                    // no extra tick: the boundary lies at a later fraction
                    phase3_search(w2, q2, p, offset, half, stamp, mid, right, iter + 1)
                } else {
                    // an extra tick: the boundary lies earlier
                    phase3_search(w2, q2, p, offset, half, stamp, left, mid, iter + 1)
                }
            },
        }
    }
}

/// What the subsecond phase does to the model state: a baseline probe at
/// the fraction `(1s - half) mod 1s`, then the bisection from `[0, 1s]`.
pub open spec fn phase3_outcome(wall: int, rtts: Seq<i64>, p: LatencyProfile, offset: int)
    -> Phase3Model {
    let half = (p.median as int) / 2;
    let f0 = (MICROS_PER_SEC - half) % (MICROS_PER_SEC as int);
    match aligned_model(wall, rtts, p, offset, f0, MAX_RETRIES as int, 0) {
        AlignedModel::Dry { wall: w1, rtts: q1 } => Phase3Model::Dry { wall: w1, rtts: q1 },
        AlignedModel::Spent { wall: w1, rtts: q1 } => Phase3Model::Spent { wall: w1, rtts: q1 },
        AlignedModel::Hit { stamp, wall: w1, rtts: q1, .. } => phase3_search(
            w1,
            q1,
            p,
            offset,
            half,
            stamp,
            0,
            MICROS_PER_SEC as int,
            0,
        ),
    }
}

/// Narrows the position of the server's second boundary within the
/// client's second by binary search: each iteration samples the server's
/// clock at the midpoint fraction and asks whether the server's second
/// ticked over exactly as many times as whole client seconds elapsed.
/// Returns the subsecond offset, in `(0, 1]` seconds expressed in
/// microseconds.
pub fn find_millisecond_offset<E: SyncEnv>(env: &mut E, profile: &LatencyProfile) -> (r: Result<
    i64,
    AppError,
>)
    requires
        old(env).inv(),
        profile.wf(),
        0 <= old(env).wall() <= PHASE_TIME_LIMIT + 30 * RETRY_STEP,
        0 <= old(env).mono() <= PHASE_TIME_LIMIT + 30 * RETRY_STEP,
        -OFFSET_LIMIT <= old(env).server_offset() <= OFFSET_LIMIT,
        old(env).wall() + old(env).server_offset() >= 0,
        forall|i: int| 0 <= i < old(env).rtts().len() ==> 0 <= #[trigger] old(env).rtts()[i]
            <= RTT_LIMIT,
    ensures
        final(env).inv(),
        final(env).server_offset() == old(env).server_offset(),
        old(env).cancelled() ==> final(env).cancelled(),
        old(env).wall() <= final(env).wall() <= old(env).wall() + 22 * SEARCH_STEP,
        forall|i: int| 0 <= i < final(env).rtts().len() ==> 0 <= #[trigger] final(env).rtts()[i]
            <= RTT_LIMIT,
        final(env).mono() - final(env).wall() == old(env).mono() - old(env).wall(),
        r matches Ok(v) ==> 0 < v <= MICROS_PER_SEC,
        r matches Err(e) ==> {
            ||| (e == AppError::Cancelled && final(env).cancelled())
            ||| (e matches AppError::Transport(_))
            ||| (e == AppError::MaxRetriesExceeded(MAX_RETRIES))
        },
        (old(env).rtts().len() >= 21 && band_prefix(old(env).rtts(), *profile, 21))
            ==> exists|k: int| 0 <= k <= 21 && final(env).rtts() == old(env).rtts().skip(k),
        (!final(env).cancelled() && old(env).rtts().len() >= 21 && band_prefix(
            old(env).rtts(),
            *profile,
            21,
        )) ==> r matches Ok(_),
        old(env).cancelled() ==> {
            &&& r == Err::<i64, AppError>(AppError::Cancelled)
            &&& final(env).wall() == old(env).wall()
            &&& final(env).mono() == old(env).mono()
            &&& final(env).rtts() == old(env).rtts()
        },
        r matches Ok(v) ==> (!old(env).cancelled() ==> match phase3_outcome(
            old(env).wall(),
            old(env).rtts(),
            *profile,
            old(env).server_offset(),
        ) {
            Phase3Model::Sub { subsecond, wall, rtts } => {
                &&& v == subsecond
                &&& final(env).wall() == wall
                &&& final(env).rtts() == rtts
            },
            _ => false,
        }),
        final(env).obs().len() >= old(env).obs().len(),
        final(env).obs().take(old(env).obs().len() as int) == old(env).obs(),
        forall|j: int|
            old(env).obs().len() <= j < final(env).obs().len() ==> (#[trigger] final(env).obs()[j])
                is BinarySearch,
        r matches Err(e) ==> ((!old(env).cancelled() && e != AppError::Cancelled) ==> match
            phase3_outcome(
            old(env).wall(),
            old(env).rtts(),
            *profile,
            old(env).server_offset(),
        ) {
            Phase3Model::Dry { wall, rtts } => {
                &&& (e matches AppError::Transport(_))
                &&& final(env).wall() == wall
                &&& final(env).rtts() == rtts
            },
            Phase3Model::Spent { wall, rtts } => {
                &&& e == AppError::MaxRetriesExceeded(MAX_RETRIES)
                &&& final(env).wall() == wall
                &&& final(env).rtts() == rtts
            },
            Phase3Model::Sub { .. } => false,
        }),
{
    let ghost q0 = old(env).rtts();
    let ghost w0 = old(env).wall();
    let ghost m0 = old(env).mono();
    let ghost off0 = old(env).server_offset();
    let ghost all_in_band = q0.len() >= 21 && band_prefix(q0, *profile, 21);
    let half: i64 = ((profile.median as u64) / 2) as i64;
    proof {
        assert(half as int == (profile.median as int) / 2);
    }
    let base_fraction = euclid_mod_micros(MICROS_PER_SEC - half);

    // Baseline: fix the server's date at a known fractional position.
    let mut previous_date: i64;
    proof {
        if all_in_band {
            assert(profile.spec_in_range(q0[0] as int, IQR_MULTIPLIER_TENTHS as int));
            assert(first_in_band(q0, *profile, MAX_RETRIES as int) == Some(0int));
        }
    }
    match aligned_probe(env, profile, base_fraction) {
        Err(e) => {
            proof {
                assert(q0.skip(0) =~= q0);
            }
            return Err(e);
        },
        Ok((send_wall, date, rtt, _attempt)) => {
            proof {
                assert(!old(env).cancelled());
                lemma_stamp_bounds(send_wall as int, rtt as int, off0);
                if all_in_band {
                    assert(env.rtts() =~= q0.skip(1));
                }
            }
            previous_date = date;
        },
    }

    let mut left: i64 = 0;
    let mut right: i64 = MICROS_PER_SEC;
    let mut iteration: u32 = 0;
    while right - left >= CONVERGENCE_MICROS && iteration < MAX_SEARCH_ITERATIONS
        invariant
            q0 == old(env).rtts(),
            w0 == old(env).wall(),
            m0 == old(env).mono(),
            off0 == old(env).server_offset(),
            all_in_band == (q0.len() >= 21 && band_prefix(q0, *profile, 21)),
            all_in_band ==> env.rtts() == q0.skip(1 + iteration as int),
            env.inv(),
            profile.wf(),
            0 <= half <= RTT_LIMIT,
            0 <= left < right <= MICROS_PER_SEC,
            iteration <= MAX_SEARCH_ITERATIONS,
            env.server_offset() == off0,
            old(env).cancelled() ==> env.cancelled(),
            env.mono() - env.wall() == m0 - w0,
            w0 <= env.wall(),
            env.wall() <= w0 + SEARCH_STEP + (iteration as int) * SEARCH_STEP,
            0 <= w0 <= PHASE_TIME_LIMIT + 30 * RETRY_STEP,
            0 <= m0 <= PHASE_TIME_LIMIT + 30 * RETRY_STEP,
            -OFFSET_LIMIT <= off0 <= OFFSET_LIMIT,
            w0 + off0 >= 0,
            0 <= previous_date <= STAMP_BOUND,
            forall|i: int| 0 <= i < env.rtts().len() ==> 0 <= #[trigger] env.rtts()[i] <= RTT_LIMIT,
            !old(env).cancelled(),
            env.obs().len() >= old(env).obs().len(),
            env.obs().take(old(env).obs().len() as int) == old(env).obs(),
            forall|j: int|
                old(env).obs().len() <= j < env.obs().len() ==> (#[trigger] env.obs()[j])
                    is BinarySearch,
            half as int == (profile.median as int) / 2,
            phase3_outcome(w0, q0, *profile, off0) == phase3_search(
                env.wall(),
                env.rtts(),
                *profile,
                off0,
                half as int,
                previous_date as int,
                left as int,
                right as int,
                iteration as int,
            ),
        decreases MAX_SEARCH_ITERATIONS - iteration,
    {
        proof {
            lemma_mul_le(iteration as int, MAX_SEARCH_ITERATIONS as int, SEARCH_STEP as int);
            assert((iteration as int + 1) * SEARCH_STEP == (iteration as int) * SEARCH_STEP
                + SEARCH_STEP) by (nonlinear_arith);
        }
        match check_cancelled(env) {
            Ok(_) => (),
            Err(e) => {
                proof {
                    if all_in_band {
                        assert(env.rtts() == q0.skip(1 + iteration as int));
                    }
                }
                return Err(e);
            },
        }
        let mid: i64 = (((left + right) as u64) / 2) as i64;
        proof {
            lemma_fundamental_div_mod((left + right) as int, 2);
        }
        let wall_start = env.monotonic_micros();
        let fraction_mid = euclid_mod_micros(mid - half);
        let ghost q_here = env.rtts();
        let ghost wall_top = env.wall();
        let ghost l_top = left as int;
        let ghost r_top = right as int;
        let ghost date_top = previous_date as int;
        proof {
            assert(mid as int == (l_top + r_top) / 2);
            if all_in_band {
                assert(q_here[0] == q0[1 + iteration as int]);
                assert(profile.spec_in_range(q_here[0] as int, IQR_MULTIPLIER_TENTHS as int));
                assert(first_in_band(q_here, *profile, MAX_RETRIES as int) == Some(0int));
            }
        }
        match aligned_probe(env, profile, fraction_mid) {
            Err(e) => {
                proof {
                    assert(e != AppError::Cancelled);
                    // the model takes the same dead end the run took
                    assert(phase3_search(
                        wall_top,
                        q_here,
                        *profile,
                        off0,
                        half as int,
                        date_top,
                        l_top,
                        r_top,
                        iteration as int,
                    ) == match aligned_model(
                        wall_top,
                        q_here,
                        *profile,
                        off0,
                        fraction_mid as int,
                        MAX_RETRIES as int,
                        0,
                    ) {
                        AlignedModel::Dry { wall: w2, rtts: q2 } => Phase3Model::Dry {
                            wall: w2,
                            rtts: q2,
                        },
                        AlignedModel::Spent { wall: w2, rtts: q2 } => Phase3Model::Spent {
                            wall: w2,
                            rtts: q2,
                        },
                        AlignedModel::Hit { .. } => phase3_search(
                            wall_top,
                            q_here,
                            *profile,
                            off0,
                            half as int,
                            date_top,
                            l_top,
                            r_top,
                            iteration as int,
                        ),
                    });
                }
                return Err(e);
            },
            Ok((send_wall, current_date, rtt, _attempt)) => {
                proof {
                    lemma_stamp_bounds(send_wall as int, rtt as int, off0);
                    if all_in_band {
                        assert(env.rtts() =~= q0.skip(1 + (iteration as int + 1)));
                    }
                }
                let now = env.monotonic_micros();
                // Truncation toward zero of the elapsed interval is
                // load-bearing: rounding half up would shift the decision
                // boundary by about half a second, and differencing the
                // floors of the two endpoints would overcount when the
                // probes straddle a second boundary.
                let elapsed_seconds: i64 = (((now - wall_start) as u64) / (
                MICROS_PER_SEC as u64)) as i64;
                let date_change = current_date - previous_date;
                if date_change == elapsed_seconds {
                    // no extra tick: the boundary lies at a later fraction
                    left = mid;
                } else {
                    // an extra tick: the boundary lies earlier
                    right = mid;
                }
                proof {
                    assert((now - wall_start) as int == env.wall() - wall_top);
                    assert(elapsed_seconds as int == (env.wall() - wall_top) / (
                    MICROS_PER_SEC as int));
                    assert(phase3_search(
                        wall_top,
                        q_here,
                        *profile,
                        off0,
                        half as int,
                        date_top,
                        l_top,
                        r_top,
                        iteration as int,
                    ) == phase3_search(
                        env.wall(),
                        env.rtts(),
                        *profile,
                        off0,
                        half as int,
                        current_date as int,
                        left as int,
                        right as int,
                        iteration as int + 1,
                    ));
                }
                env.emit_progress(
                    ProgressObs::BinarySearch {
                        iteration,
                        left_micros: left,
                        right_micros: right,
                        width_micros: right - left,
                        median_micros: profile.median,
                    },
                );
                proof {
                    assert(env.obs().take(old(env).obs().len() as int) =~= old(env).obs());
                }
                previous_date = current_date;
                iteration = iteration + 1;
            },
        }
    }
    proof {
        lemma_mul_le(iteration as int, MAX_SEARCH_ITERATIONS as int, SEARCH_STEP as int);
        assert(phase3_search(
            env.wall(),
            env.rtts(),
            *profile,
            off0,
            half as int,
            previous_date as int,
            left as int,
            right as int,
            iteration as int,
        ) == Phase3Model::Sub {
            subsecond: MICROS_PER_SEC - left,
            wall: env.wall(),
            rtts: env.rtts(),
        });
    }
    // The boundary sits just past `left`; the distance from there to the
    // next whole second is the subsecond adjustment.
    Ok(MICROS_PER_SEC - left)
}

// ── Phase 4: verification ──

/// Half a second, the probe shift used to verify on both sides of a
/// predicted server second boundary.
pub const HALF_SECOND_MICROS: i64 = 500_000;

/// Whether a verification probe shifted by `shift` confirms the estimate
/// `est` of the true offset `off`: sent at the fractional position
/// `(-est - half + shift) mod s`, the predicted and stamped server
/// seconds agree.
pub open spec fn shift_match(est: int, off: int, half: int, rtt: int, shift: int) -> bool {
    let m = MICROS_PER_SEC as int;
    let f = (0 - est - half + shift) % m;
    (f + half + est) / m == (f + rtt / 2 + off) / m
}

/// Sends one verification probe, shifted by `shift` from the predicted
/// server second boundary, and reports whether the prediction matched.
fn verify_one_shift<E: SyncEnv>(
    env: &mut E,
    profile: &LatencyProfile,
    total_offset: i64,
    shift: i64,
) -> (r: Result<bool, AppError>)
    requires
        old(env).inv(),
        profile.wf(),
        0 <= old(env).wall() <= TIME_CEIL - 15 * RETRY_STEP,
        0 <= old(env).mono() <= TIME_CEIL - 15 * RETRY_STEP,
        -4 * OFFSET_LIMIT <= total_offset <= 4 * OFFSET_LIMIT,
        old(env).wall() + total_offset >= 0,
        shift == -HALF_SECOND_MICROS || shift == HALF_SECOND_MICROS,
        -OFFSET_LIMIT <= old(env).server_offset() <= OFFSET_LIMIT,
        old(env).wall() + old(env).server_offset() >= 0,
        forall|i: int| 0 <= i < old(env).rtts().len() ==> 0 <= #[trigger] old(env).rtts()[i]
            <= RTT_LIMIT,
    ensures
        final(env).inv(),
        final(env).server_offset() == old(env).server_offset(),
        old(env).cancelled() ==> final(env).cancelled(),
        old(env).wall() <= final(env).wall() <= old(env).wall() + 11 * RETRY_STEP,
        final(env).mono() - final(env).wall() == old(env).mono() - old(env).wall(),
        forall|i: int| 0 <= i < final(env).rtts().len() ==> 0 <= #[trigger] final(env).rtts()[i]
            <= RTT_LIMIT,
        r matches Ok(b) ==> {
            &&& first_in_band(old(env).rtts(), *profile, MAX_RETRIES as int) matches Some(i)
                && b == shift_match(
                total_offset as int,
                old(env).server_offset(),
                (profile.median as int) / 2,
                old(env).rtts()[i] as int,
                shift as int,
            )
                && final(env).rtts() == old(env).rtts().skip(i + 1)
            &&& final(env).obs().len() == old(env).obs().len() + 1
            &&& final(env).obs().take(old(env).obs().len() as int) == old(env).obs()
            &&& (final(env).obs().last() matches ProgressObs::Verification {
                shift_micros,
                is_match,
                median_micros,
                ..
            } && shift_micros == shift && is_match == b && median_micros == profile.median)
        },
        r is Err ==> final(env).obs() == old(env).obs(),
        r matches Err(e) ==> {
            ||| (e == AppError::Cancelled && final(env).cancelled())
            ||| ((e matches AppError::Transport(_)) && first_in_band(
                old(env).rtts(),
                *profile,
                MAX_RETRIES as int,
            ) is None)
            ||| (e == AppError::MaxRetriesExceeded(MAX_RETRIES) && first_in_band(
                old(env).rtts(),
                *profile,
                MAX_RETRIES as int,
            ) is None)
        },
        old(env).cancelled() ==> {
            &&& r == Err::<bool, AppError>(AppError::Cancelled)
            &&& final(env).wall() == old(env).wall()
            &&& final(env).mono() == old(env).mono()
            &&& final(env).rtts() == old(env).rtts()
        },
{
    let ghost off0 = old(env).server_offset();
    let ghost w0 = old(env).wall();
    let half: i64 = ((profile.median as u64) / 2) as i64;
    proof {
        lemma_fundamental_div_mod(profile.median as int, 2);
    }
    let fraction = euclid_mod_micros(0 - total_offset - half + shift);
    match aligned_probe(env, profile, fraction) {
        Err(e) => Err(e),
        Ok((send_wall, actual, rtt, _attempt)) => {
            let predicted: i64 = (((send_wall + half + total_offset) as u64) / (
            MICROS_PER_SEC as u64)) as i64;
            let is_match = predicted == actual;
            proof {
                let m = MICROS_PER_SEC as int;
                let w = send_wall as int;
                let est = total_offset as int;
                lemma_fundamental_div_mod(w + half + est, m);
                assert(predicted as int == (w + half + est) / m);
                lemma_floor_shift(w, half as int + est);
                lemma_floor_shift(w, (rtt as int) / 2 + off0);
                lemma_fundamental_div_mod(rtt as int, 2);
            }
            env.emit_progress(
                ProgressObs::Verification {
                    shift_micros: shift,
                    predicted,
                    actual,
                    is_match,
                    median_micros: profile.median,
                },
            );
            proof {
                assert(env.obs().take(old(env).obs().len() as int) =~= old(env).obs());
            }
            Ok(is_match)
        },
    }
}

/// What the verification phase concludes against a given queue: probes
/// half a second before and after the predicted boundary; any mismatch
/// refutes the estimate, both matches confirm it.
pub open spec fn phase4_outcome(rtts: Seq<i64>, p: LatencyProfile, est: int, off: int) -> Option<
    bool,
> {
    let half = (p.median as int) / 2;
    match first_in_band(rtts, p, MAX_RETRIES as int) {
        None => None,
        Some(i) => if !shift_match(est, off, half, rtts[i] as int, -HALF_SECOND_MICROS as int) {
            Some(false)
        } else {
            let rest = rtts.skip(i + 1);
            match first_in_band(rest, p, MAX_RETRIES as int) {
                None => None,
                Some(j) => Some(
                    shift_match(est, off, half, rest[j] as int, HALF_SECOND_MICROS as int),
                ),
            }
        },
    }
}

/// Verifies the estimated total offset by probing half a second before
/// and after a predicted server second boundary; the verdict is exactly
/// [`phase4_outcome`] over the remaining probe queue.
pub fn verify_offset<E: SyncEnv>(env: &mut E, profile: &LatencyProfile, total_offset: i64) -> (r:
    Result<bool, AppError>)
    requires
        old(env).inv(),
        profile.wf(),
        0 <= old(env).wall() <= TIME_CEIL - 40 * RETRY_STEP,
        0 <= old(env).mono() <= TIME_CEIL - 40 * RETRY_STEP,
        -4 * OFFSET_LIMIT <= total_offset <= 4 * OFFSET_LIMIT,
        old(env).wall() + total_offset >= 0,
        -OFFSET_LIMIT <= old(env).server_offset() <= OFFSET_LIMIT,
        old(env).wall() + old(env).server_offset() >= 0,
        forall|i: int| 0 <= i < old(env).rtts().len() ==> 0 <= #[trigger] old(env).rtts()[i]
            <= RTT_LIMIT,
    ensures
        final(env).inv(),
        final(env).server_offset() == old(env).server_offset(),
        old(env).cancelled() ==> final(env).cancelled(),
        old(env).wall() <= final(env).wall() <= old(env).wall() + 22 * RETRY_STEP,
        final(env).mono() - final(env).wall() == old(env).mono() - old(env).wall(),
        forall|i: int| 0 <= i < final(env).rtts().len() ==> 0 <= #[trigger] final(env).rtts()[i]
            <= RTT_LIMIT,
        r matches Ok(b) ==> phase4_outcome(
            old(env).rtts(),
            *profile,
            total_offset as int,
            old(env).server_offset(),
        ) == Some(b),
        r matches Err(e) ==> {
            ||| (e == AppError::Cancelled && final(env).cancelled())
            ||| (e matches AppError::Transport(_))
            ||| (e == AppError::MaxRetriesExceeded(MAX_RETRIES))
        },
        (!final(env).cancelled() && (phase4_outcome(
            old(env).rtts(),
            *profile,
            total_offset as int,
            old(env).server_offset(),
        ) matches Some(_))) ==> r matches Ok(_),
        old(env).cancelled() ==> {
            &&& r == Err::<bool, AppError>(AppError::Cancelled)
            &&& final(env).wall() == old(env).wall()
            &&& final(env).mono() == old(env).mono()
            &&& final(env).rtts() == old(env).rtts()
        },
        r matches Err(e) ==> (e != AppError::Cancelled ==> phase4_outcome(
            old(env).rtts(),
            *profile,
            total_offset as int,
            old(env).server_offset(),
        ) is None),
        old(env).obs().len() <= final(env).obs().len() <= old(env).obs().len() + 2,
        final(env).obs().take(old(env).obs().len() as int) == old(env).obs(),
        forall|j: int|
            old(env).obs().len() <= j < final(env).obs().len() ==> (#[trigger] final(env).obs()[j])
                is Verification,
{
    let ghost obs0 = old(env).obs();
    let first = verify_one_shift(env, profile, total_offset, 0 - HALF_SECOND_MICROS);
    match first {
        Err(e) => Err(e),
        Ok(false) => Ok(false),
        Ok(true) => {
            let ghost obs1 = env.obs();
            let second = verify_one_shift(env, profile, total_offset, HALF_SECOND_MICROS);
            proof {
                assert(env.obs().take(obs0.len() as int) =~= obs0);
                if env.obs().len() > obs1.len() {
                    assert(env.obs()[obs1.len() as int - 1] == obs1.last());
                }
            }
            match second {
                Err(e) => Err(e),
                Ok(b) => Ok(b),
            }
        },
    }
}

// ── The aggregate result and the orchestrator ──

/// The outcome of one synchronization run.  All offsets are in
/// microseconds; `total_offset_micros` is exactly the whole-second part
/// times one second plus the subsecond part.
#[derive(Debug, Clone, Copy, PartialEq, Eq, Structural)]
pub struct SyncResult {
    pub server_id: i64,
    pub whole_second_offset: i64,
    pub subsecond_offset_micros: i64,
    pub total_offset_micros: i64,
    pub latency_profile: LatencyProfile,
    pub verified: bool,
    pub synced_at_micros: i64,
    pub duration_micros: u64,
    pub phase_reached: SyncPhase,
}

impl SyncResult {
    /// The invariants every emitted result satisfies: the subsecond part
    /// lies in `[0, 1)` seconds, the total offset is the exact sum of its
    /// two components, the profile is well-formed, and the phase reached
    /// is `Complete` exactly when the run verified (else `Verification`).
    pub open spec fn wf(self) -> bool {
        &&& 0 <= self.subsecond_offset_micros < MICROS_PER_SEC
        &&& self.total_offset_micros == self.whole_second_offset * (MICROS_PER_SEC as int)
            + self.subsecond_offset_micros
        &&& self.latency_profile.wf()
        &&& self.phase_reached == if self.verified {
            SyncPhase::Complete
        } else {
            SyncPhase::Verification
        }
    }
}

/// Runs the four phases in order against one environment, checking
/// cancellation between them, and aggregates the result.  On success the
/// profile is pinned to the first ten queued round-trip times and the
/// whole-second offset to [`phase2_outcome`] over the rest of the queue;
/// any phase failure propagates unchanged.
#[verifier::rlimit(100)]
#[verifier::spinoff_prover]
pub fn synchronize_with<E: SyncEnv>(env: &mut E, server_id: i64) -> (r: Result<
    SyncResult,
    AppError,
>)
    requires
        old(env).inv(),
        0 <= old(env).wall() <= ENGINE_TIME_LIMIT,
        0 <= old(env).mono() <= ENGINE_TIME_LIMIT,
        // overflow guard: keeps every predicted server second non-negative
        // throughout the run; it excludes only server clocks within about
        // twelve days of the Unix epoch
        old(env).wall() + old(env).server_offset() >= RTT_LIMIT + 2 * MICROS_PER_SEC,
        -OFFSET_LIMIT <= old(env).server_offset() <= OFFSET_LIMIT,
        forall|i: int| 0 <= i < old(env).rtts().len() ==> 0 <= #[trigger] old(env).rtts()[i]
            <= RTT_LIMIT,
    ensures
        final(env).inv(),
        final(env).server_offset() == old(env).server_offset(),
        old(env).cancelled() ==> final(env).cancelled(),
        r matches Ok(res) ==> {
            &&& res.wf()
            &&& res.server_id == server_id
            &&& old(env).rtts().len() >= DEFAULT_PROBE_COUNT
            &&& res.latency_profile == profile_from(
                old(env).rtts().take(DEFAULT_PROBE_COUNT as int),
            )
            &&& res.synced_at_micros == final(env).wall()
            &&& res.duration_micros as int == final(env).mono() - old(env).mono()
            &&& final(env).obs().len() > old(env).obs().len()
            &&& (final(env).obs().last() matches ProgressObs::Complete {
                total_offset_micros,
                verified,
                ..
            } && total_offset_micros == res.total_offset_micros && verified == res.verified)
        },
        r matches Ok(res) ==> ({
            let p = profile_from(old(env).rtts().take(DEFAULT_PROBE_COUNT as int));
            let q1 = old(env).rtts().skip(DEFAULT_PROBE_COUNT as int);
            let w1 = old(env).wall() + sum_micros(
                old(env).rtts().take(DEFAULT_PROBE_COUNT as int),
            ) + 9 * (MIN_INTERVAL_MICROS as int);
            let f2 = (MICROS_PER_SEC - (p.median as int) / 2) % (MICROS_PER_SEC as int);
            match phase2_outcome(q1, p, old(env).server_offset()) {
                None => false,
                Some(whole) => match aligned_model(
                    w1,
                    q1,
                    p,
                    old(env).server_offset(),
                    f2,
                    MAX_RETRIES as int,
                    0,
                ) {
                    AlignedModel::Hit { wall: w2, rtts: q2, .. } => match phase3_outcome(
                        w2,
                        q2,
                        p,
                        old(env).server_offset(),
                    ) {
                        Phase3Model::Sub { subsecond, rtts: q3, .. } => {
                            &&& res.total_offset_micros == whole * (MICROS_PER_SEC as int)
                                + subsecond
                            &&& res.subsecond_offset_micros as int == (if subsecond
                                == MICROS_PER_SEC {
                                0int
                            } else {
                                subsecond
                            })
                            &&& res.whole_second_offset as int == whole + (if subsecond
                                == MICROS_PER_SEC {
                                1int
                            } else {
                                0int
                            })
                            &&& phase4_outcome(
                                q3,
                                p,
                                res.total_offset_micros as int,
                                old(env).server_offset(),
                            ) == Some(res.verified)
                        },
                        _ => false,
                    },
                    _ => false,
                },
            }
        }),
        old(env).cancelled() ==> {
            &&& r == Err::<SyncResult, AppError>(AppError::Cancelled)
            &&& final(env).wall() == old(env).wall()
            &&& final(env).mono() == old(env).mono()
            &&& final(env).rtts() == old(env).rtts()
        },
        r matches Err(e) ==> {
            ||| (e == AppError::Cancelled && final(env).cancelled())
            ||| (e matches AppError::Transport(_))
            ||| (e == AppError::MaxRetriesExceeded(MAX_RETRIES))
        },
        ({
            &&& !final(env).cancelled()
            &&& old(env).rtts().len() >= 34
            &&& band_prefix(
                old(env).rtts().skip(DEFAULT_PROBE_COUNT as int),
                profile_from(old(env).rtts().take(DEFAULT_PROBE_COUNT as int)),
                24,
            )
        }) ==> r matches Ok(_),
{
    let ghost q0 = old(env).rtts();
    let ghost w0 = old(env).wall();
    let ghost off0 = old(env).server_offset();
    let ghost p_spec = profile_from(q0.take(DEFAULT_PROBE_COUNT as int));
    let ghost good = q0.len() >= 34 && band_prefix(
        q0.skip(DEFAULT_PROBE_COUNT as int),
        p_spec,
        24,
    );
    let start_mono = env.monotonic_micros();

    // Phase 1: latency profiling
    match check_cancelled(env) {
        Ok(_) => (),
        Err(e) => {
            return Err(e);
        },
    }
    let latency = match measure_latency(env) {
        Ok(p) => p,
        Err(e) => {
            return Err(e);
        },
    };
    let ghost w_p1 = env.wall();
    let ghost q1 = env.rtts();
    proof {
        assert(q1 == q0.skip(DEFAULT_PROBE_COUNT as int));
        assert(w_p1 == w0 + sum_micros(q0.take(DEFAULT_PROBE_COUNT as int)) + 9 * (
        MIN_INTERVAL_MICROS as int));
        if good {
            assert(q1.len() >= 24);
            assert(latency.spec_in_range(q1[0] as int, IQR_MULTIPLIER_TENTHS as int));
            assert(first_in_band(q1, latency, MAX_RETRIES as int) == Some(0int));
        }
    }

    // Phase 2: whole-second offset
    match check_cancelled(env) {
        Ok(_) => (),
        Err(e) => {
            return Err(e);
        },
    }
    let second_offset = match find_second_offset(env, &latency) {
        Ok(v) => v,
        Err(e) => {
            return Err(e);
        },
    };
    let ghost w_p2 = env.wall();
    let ghost q2 = env.rtts();
    let ghost f2 = (MICROS_PER_SEC - (latency.median as int) / 2) % (MICROS_PER_SEC as int);
    let ghost m2 = aligned_model(w_p1, q1, latency, off0, f2, MAX_RETRIES as int, 0);
    proof {
        assert(match m2 {
            AlignedModel::Hit { wall, rtts, .. } => wall == w_p2 && rtts == q2,
            _ => false,
        });
        if good {
            assert(q2 == q1.skip(1));
            assert(q2.len() >= 23);
            assert forall|i: int| 0 <= i < 21 && i < q2.len() implies latency.spec_in_range(
                (#[trigger] q2[i]) as int,
                IQR_MULTIPLIER_TENTHS as int,
            ) by {
                assert(q2[i] == q1[i + 1]);
            }
            assert(band_prefix(q2, latency, 21));
        }
    }

    // Phase 3: binary search for the subsecond offset
    match check_cancelled(env) {
        Ok(_) => (),
        Err(e) => {
            return Err(e);
        },
    }
    let ms_offset = match find_millisecond_offset(env, &latency) {
        Ok(v) => v,
        Err(e) => {
            return Err(e);
        },
    };
    let ghost q3 = env.rtts();
    let ghost m3 = phase3_outcome(w_p2, q2, latency, off0);
    proof {
        assert(match m3 {
            Phase3Model::Sub { subsecond, rtts, .. } => subsecond == ms_offset as int && rtts
                == q3,
            _ => false,
        });
        if good {
            let k = choose|k: int| 0 <= k <= 21 && q3 == q2.skip(k);
            assert(q3 == q2.skip(k));
            assert(q3.len() >= 2);
            assert(q3[0] == q2[k] && q3[1] == q2[k + 1]);
            assert(q2[k] == q1[k + 1] && q2[k + 1] == q1[k + 2]);
            assert(latency.spec_in_range(q3[0] as int, IQR_MULTIPLIER_TENTHS as int));
            assert(latency.spec_in_range(q3[1] as int, IQR_MULTIPLIER_TENTHS as int));
            assert(first_in_band(q3, latency, MAX_RETRIES as int) == Some(0int));
            assert(q3.skip(1)[0] == q3[1]);
            assert(first_in_band(q3.skip(1), latency, MAX_RETRIES as int) == Some(0int));
        }
    }

    // Phase 4: verification
    match check_cancelled(env) {
        Ok(_) => (),
        Err(e) => {
            return Err(e);
        },
    }
    let ghost whole_raw = second_offset as int;
    let ghost sub_raw = ms_offset as int;
    proof {
        // the estimate keeps the predicted server clock past the epoch
        let q1 = q0.skip(DEFAULT_PROBE_COUNT as int);
        let i = choose|i: int|
            first_in_band(q1, latency, MAX_RETRIES as int) == Some::<int>(i);
        lemma_first_in_band_props(q1, latency, MAX_RETRIES as int);
        let half = (latency.median as int) / 2;
        let rtt = q1[i] as int;
        assert(0 <= rtt <= RTT_LIMIT);
        lemma_fundamental_div_mod(rtt, 2);
        let num = off0 + rtt / 2 - half;
        lemma_fundamental_div_mod(num, MICROS_PER_SEC as int);
        lemma_mod_division_less_than_divisor(num, MICROS_PER_SEC as int);
        assert(second_offset as int == num / (MICROS_PER_SEC as int));
        assert(whole_raw * (MICROS_PER_SEC as int) > off0 - RTT_LIMIT - 2 * (
        MICROS_PER_SEC as int));
        assert(whole_raw * (MICROS_PER_SEC as int) <= off0 + RTT_LIMIT);
    }
    // Fold the degenerate boundary case into the whole-second part, so the
    // subsecond offset always lies in [0, 1) seconds; the total is
    // unchanged.
    let (second_offset, ms_offset) = if ms_offset == MICROS_PER_SEC {
        (second_offset + 1, 0)
    } else {
        (second_offset, ms_offset)
    };
    let total_offset: i64 = second_offset * MICROS_PER_SEC + ms_offset;
    proof {
        if sub_raw == MICROS_PER_SEC as int {
            assert((whole_raw + 1) * (MICROS_PER_SEC as int) == whole_raw * (
            MICROS_PER_SEC as int) + MICROS_PER_SEC) by (nonlinear_arith);
        }
        assert(total_offset as int == whole_raw * (MICROS_PER_SEC as int) + sub_raw);
    }
    let verified = match verify_offset(env, &latency, total_offset) {
        Ok(b) => b,
        Err(e) => {
            return Err(e);
        },
    };

    let end_mono = env.monotonic_micros();
    let duration: i64 = end_mono - start_mono;
    env.emit_progress(
        ProgressObs::Complete {
            total_offset_micros: total_offset,
            verified,
            duration_micros: duration,
        },
    );
    let synced_at = env.system_time_micros();
    proof {
        assert(env.obs().last() == (ProgressObs::Complete {
            total_offset_micros: total_offset,
            verified,
            duration_micros: duration,
        }));
        assert(env.obs().len() > old(env).obs().len());
    }
    Ok(
        SyncResult {
            server_id,
            whole_second_offset: second_offset,
            subsecond_offset_micros: ms_offset,
            total_offset_micros: total_offset,
            latency_profile: latency,
            verified,
            synced_at_micros: synced_at,
            duration_micros: duration as u64,
            phase_reached: if verified {
                SyncPhase::Complete
            } else {
                SyncPhase::Verification
            },
        },
    )
}

} // verus!
