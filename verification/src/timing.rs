//! Time units and the wait-target arithmetic shared by every clock.
//!
//! All protocol time is measured in integer microseconds.  The one
//! computation every clock implementation needs — at which wall-clock
//! instant a wait aimed at a fractional-second position must end — is a
//! pure function and is verified here once.

use vstd::prelude::*;

verus! {

use vstd::arithmetic::div_mod::{
    lemma_fundamental_div_mod,
    lemma_fundamental_div_mod_converse_mod,
};

/// Microseconds per second: the resolution of all protocol time.
pub const MICROS_PER_SEC: i64 = 1_000_000;

/// A generous ceiling on every wall-clock and monotonic reading the
/// engine works with; far beyond any realistic epoch time, but small
/// enough that the arithmetic below can never overflow an `i64`.
pub const TIME_CEIL: i64 = 0x1000_0000_0000_0000;

/// The wall-clock instant (in microseconds) at which a wait ends that was
/// asked to run until the clock next shows the fractional-second position
/// `fraction`, but no sooner than `min_wait` from `now`: the target is
/// `fraction` within the second that `now + min_wait` falls in, pushed one
/// second later when that moment has already passed.
pub open spec fn wait_target(now: int, fraction: int, min_wait: int) -> int {
    let not_before = now + min_wait;
    let base = (not_before / (MICROS_PER_SEC as int)) * (MICROS_PER_SEC as int);
    let t = base + fraction;
    if not_before > t {
        t + MICROS_PER_SEC as int
    } else {
        t
    }
}

/// A wait aimed at a fractional-second position lands exactly there, never
/// fires before the rate limit allows, and waits less than one extra
/// second beyond it.
pub proof fn lemma_wait_target_properties(now: int, fraction: int, min_wait: int)
    requires
        now + min_wait >= 0,
        0 <= fraction < MICROS_PER_SEC as int,
        min_wait >= 0,
    ensures
        wait_target(now, fraction, min_wait) >= now + min_wait,
        wait_target(now, fraction, min_wait) < now + min_wait + MICROS_PER_SEC as int,
        wait_target(now, fraction, min_wait) % (MICROS_PER_SEC as int) == fraction,
{
    let m = MICROS_PER_SEC as int;
    let nb = now + min_wait;
    lemma_fundamental_div_mod(nb, m);
    let base = (nb / m) * m;
    assert(base <= nb < base + m);
    let t = wait_target(now, fraction, min_wait);
    if nb > base + fraction {
        assert(t == base + m + fraction);
        lemma_fundamental_div_mod_converse_mod(t, m, nb / m + 1, fraction);
    } else {
        assert(t == base + fraction);
        lemma_fundamental_div_mod_converse_mod(t, m, nb / m, fraction);
    }
}

/// Computes [`wait_target`] for concrete times.
pub fn fraction_wait_target(now: i64, fraction: i64, min_wait: i64) -> (t: i64)
    requires
        0 <= now <= TIME_CEIL,
        0 <= fraction < MICROS_PER_SEC,
        0 <= min_wait <= TIME_CEIL,
    ensures
        t == wait_target(now as int, fraction as int, min_wait as int),
        now + min_wait <= t < now + min_wait + MICROS_PER_SEC,
        (t as int) % (MICROS_PER_SEC as int) == fraction as int,
{
    proof {
        lemma_wait_target_properties(now as int, fraction as int, min_wait as int);
    }
    let not_before: i64 = now + min_wait;
    let nb: u64 = not_before as u64;
    let base: i64 = ((nb / (MICROS_PER_SEC as u64)) * (MICROS_PER_SEC as u64)) as i64;
    proof {
        lemma_fundamental_div_mod(not_before as int, MICROS_PER_SEC as int);
    }
    let t: i64 = base + fraction;
    if not_before > t {
        t + MICROS_PER_SEC
    } else {
        t
    }
}

/// The representative of `x` in `[0, 1_000_000)` modulo one second.
pub fn euclid_mod_micros(x: i64) -> (r: i64)
    requires
        -TIME_CEIL <= x <= TIME_CEIL,
    ensures
        r == (x as int) % (MICROS_PER_SEC as int),
        0 <= r < MICROS_PER_SEC,
{
    let m = MICROS_PER_SEC;
    if x >= 0 {
        let xu: u64 = x as u64;
        let r: i64 = (xu % (m as u64)) as i64;
        proof {
            lemma_fundamental_div_mod(x as int, m as int);
            lemma_fundamental_div_mod_converse_mod(
                x as int,
                m as int,
                (xu / (m as u64)) as int,
                r as int,
            );
        }
        r
    } else {
        let y: i64 = -x;
        let yu: u64 = y as u64;
        let rem: u64 = yu % (m as u64);
        let quot: u64 = yu / (m as u64);
        proof {
            assert(yu == (m as u64) * quot + rem) by (nonlinear_arith)
                requires
                    quot == yu / (m as u64),
                    rem == yu % (m as u64),
                    m == 1_000_000i64,
            ;
        }
        if rem == 0 {
            proof {
                lemma_fundamental_div_mod_converse_mod(x as int, m as int, -(quot as int), 0);
            }
            0
        } else {
            let r: i64 = m - (rem as i64);
            proof {
                lemma_fundamental_div_mod_converse_mod(
                    x as int,
                    m as int,
                    -(quot as int) - 1,
                    r as int,
                );
            }
            r
        }
    }
}

} // verus!
