use ticketime::engine::{
    find_millisecond_offset, find_second_offset, measure_latency, synchronize_with, verify_offset,
};
use ticketime::errors::AppError;
use ticketime::profile::LatencyProfile;
use ticketime::sim::{SimulatedClock, SimulatedEnv};

const SEC: i64 = 1_000_000;

/// Generate `count` RTT values (in microseconds) with small deterministic
/// jitter around `base`: alternating sign, magnitude cycling over
/// (i % 5 + 1) / 5 of the jitter.
fn generate_rtts(base: i64, jitter: i64, count: usize) -> Vec<i64> {
    (0..count)
        .map(|i| {
            let magnitude = jitter * ((i as i64 % 5) + 1) / 5;
            if i % 2 == 0 {
                base + magnitude
            } else {
                base - magnitude
            }
        })
        .collect()
}

fn tight_profile() -> LatencyProfile {
    LatencyProfile {
        min: 48_000,
        q1: 49_000,
        median: 50_000,
        mean: 50_000,
        q3: 51_000,
        max: 52_000,
    }
}

// ── LatencyProfile ──

#[test]
fn test_latency_profile_iqr() {
    let profile = LatencyProfile {
        min: 40_000,
        q1: 45_000,
        median: 50_000,
        mean: 50_000,
        q3: 55_000,
        max: 60_000,
    };
    assert_eq!(profile.iqr(), 10_000);
}

#[test]
fn test_latency_profile_is_in_range() {
    let profile = LatencyProfile {
        min: 40_000,
        q1: 45_000,
        median: 50_000,
        mean: 50_000,
        q3: 55_000,
        max: 60_000,
    };
    // IQR = 10ms, multiplier = 1.5
    // lower = 45ms - 15ms = 30ms; upper = 55ms + 15ms = 70ms
    assert!(profile.is_in_range(50_000, 15));
    assert!(profile.is_in_range(30_000, 15));
    assert!(profile.is_in_range(70_000, 15));
    assert!(!profile.is_in_range(29_000, 15));
    assert!(!profile.is_in_range(71_000, 15));
}

#[test]
fn latency_profile_from_rtts_interpolates_quartiles() {
    // positions (n-1)*q/4 for n=4 fall between samples: the quartiles
    // interpolate linearly, truncating to whole microseconds
    let samples = vec![10, 20, 30, 41];
    let p = ticketime::profile::from_rtts(&samples);
    assert_eq!(p.min, 10);
    assert_eq!(p.q1, 17); // 10 + (20-10)*3/4
    assert_eq!(p.median, 25); // 20 + (30-20)*2/4
    assert_eq!(p.q3, 32); // 30 + (41-30)*1/4, truncated
    assert_eq!(p.max, 41);
    assert_eq!(p.mean, 25); // floor(101 / 4)
}

// ── SimulatedClock ──

#[test]
fn test_simulated_clock_advance() {
    let mut clock = SimulatedClock::new(1_000_000 * SEC);
    assert_eq!(clock.system_time_micros(), 1_000_000 * SEC);
    assert_eq!(clock.monotonic_micros(), 0);

    clock.advance(1_500_000);
    assert_eq!(clock.system_time_micros(), 1_000_000 * SEC + 1_500_000);
    assert_eq!(clock.monotonic_micros(), 1_500_000);
}

#[test]
fn test_simulated_clock_wait_until_fraction() {
    let mut clock = SimulatedClock::new(1_000_000 * SEC + 200_000);
    clock.wait_until_fraction(300_000, 0);
    // min_wait=0: not_before = 1_000_000.2, base_second = 1_000_000.0
    // target = 1_000_000.3, not yet passed: no skip
    assert_eq!(clock.system_time_micros(), 1_000_000 * SEC + 300_000);
}

#[test]
fn test_simulated_clock_wait_until_fraction_already_past() {
    let mut clock = SimulatedClock::new(1_000_000 * SEC + 600_000);
    clock.wait_until_fraction(300_000, 0);
    // the .3 moment of this second has passed: the next second's .3
    assert_eq!(clock.system_time_micros(), 1_000_001 * SEC + 300_000);
}

#[test]
fn test_simulated_clock_wait_until_fraction_with_min_wait() {
    let mut clock = SimulatedClock::new(1_000_000 * SEC + 200_000);
    clock.wait_until_fraction(300_000, 500_000);
    // min_wait=0.5: not_before = 1_000_000.7 > 1_000_000.3: skip a second
    assert_eq!(clock.system_time_micros(), 1_000_001 * SEC + 300_000);
}

// ── Phase 1: measure_latency ──

#[test]
fn test_measure_latency_produces_valid_profile() {
    // 10 RTTs with small jitter around 50ms
    let rtts = vec![
        48_000, 52_000, 49_000, 51_000, 50_000, 50_000, 49_000, 51_000, 48_000, 52_000,
    ];
    let mut env = SimulatedEnv::new(1_000_000 * SEC, 0, rtts);

    let profile = measure_latency(&mut env).unwrap();

    assert!(profile.min <= profile.q1);
    assert!(profile.q1 <= profile.median);
    assert!(profile.median <= profile.q3);
    assert!(profile.q3 <= profile.max);
    assert_eq!(profile.median, 50_000);
    assert_eq!(profile.mean, 50_000);
}

// ── Phase 2: find_second_offset ──

#[test]
fn test_find_second_offset_positive() {
    let mut env = SimulatedEnv::new(1_000_000 * SEC, 5_300_000, vec![50_000]);
    let latency = tight_profile();

    let offset = find_second_offset(&mut env, &latency).unwrap();

    assert_eq!(offset, 5, "whole-second offset for +5.3s should be 5");
}

#[test]
fn test_find_second_offset_negative() {
    let mut env = SimulatedEnv::new(1_000_000 * SEC, -3_700_000, vec![50_000]);
    let latency = tight_profile();

    let offset = find_second_offset(&mut env, &latency).unwrap();

    assert_eq!(offset, -4, "whole-second offset for -3.7s should be -4");
}

#[test]
fn test_find_second_offset_zero() {
    let mut env = SimulatedEnv::new(1_000_000 * SEC, 200_000, vec![50_000]);
    let latency = tight_profile();

    let offset = find_second_offset(&mut env, &latency).unwrap();

    assert_eq!(offset, 0, "whole-second offset for +0.2s should be 0");
}

// ── Phase 3: find_millisecond_offset ──

#[test]
fn test_find_millisecond_offset_converges() {
    // Phase 3 needs: 1 baseline + ~10 binary search iterations = ~11 probes
    let rtts = vec![50_000; 15];
    let mut env = SimulatedEnv::new(1_000_000 * SEC, 5_300_000, rtts);
    let latency = tight_profile();

    let ms_offset = find_millisecond_offset(&mut env, &latency).unwrap();

    // For server_offset=5.3, sub-second offset should be ~0.3
    assert!(
        (ms_offset - 300_000).abs() < 2_000,
        "sub-second offset should be ~0.300, got {ms_offset}"
    );
}

#[test]
fn test_find_millisecond_offset_small_subsecond() {
    let rtts = vec![50_000; 15];
    let mut env = SimulatedEnv::new(1_000_000 * SEC, 5_050_000, rtts);
    let latency = tight_profile();

    let ms_offset = find_millisecond_offset(&mut env, &latency).unwrap();

    assert!(
        (ms_offset - 50_000).abs() < 2_000,
        "sub-second offset should be ~0.050, got {ms_offset}"
    );
}

#[test]
fn test_find_millisecond_offset_large_subsecond() {
    let rtts = vec![50_000; 15];
    let mut env = SimulatedEnv::new(1_000_000 * SEC, 5_950_000, rtts);
    let latency = tight_profile();

    let ms_offset = find_millisecond_offset(&mut env, &latency).unwrap();

    assert!(
        (ms_offset - 950_000).abs() < 2_000,
        "sub-second offset should be ~0.950, got {ms_offset}"
    );
}

// ── Phase 4: verify_offset ──

#[test]
fn test_verify_offset_correct() {
    let rtts = vec![50_000; 4]; // 2 shifts, possibly extra retries
    let mut env = SimulatedEnv::new(1_000_000 * SEC, 5_300_000, rtts);
    let latency = tight_profile();

    let verified = verify_offset(&mut env, &latency, 5_300_000).unwrap();

    assert!(verified, "correct offset should verify successfully");
}

#[test]
fn test_verify_offset_wrong() {
    let rtts = vec![50_000; 4];
    let mut env = SimulatedEnv::new(1_000_000 * SEC, 5_300_000, rtts);
    let latency = tight_profile();

    // Deliberately wrong offset (off by 0.5s in the dangerous direction)
    let verified = verify_offset(&mut env, &latency, 4_800_000).unwrap();

    assert!(!verified, "wrong offset (4.8 vs true 5.3) should fail verification");
}

// ── End-to-end synchronize ──

#[test]
fn test_synchronize_end_to_end() {
    let server_offset = 5_300_000;
    let rtt = 50_000;

    // Phase 1: 10, Phase 2: 1, Phase 3: ~12, Phase 4: 2 = ~25
    let mut rtts = generate_rtts(rtt, 2_000, 10); // Phase 1
    rtts.extend(vec![rtt; 20]); // Phases 2-4
    let mut env = SimulatedEnv::new(1_000_000 * SEC, server_offset, rtts);

    let result = synchronize_with(&mut env, 42).unwrap();

    assert_eq!(result.server_id, 42);
    assert_eq!(result.whole_second_offset, 5);
    assert!(
        (result.subsecond_offset_micros - 300_000).abs() < 2_000,
        "subsecond offset should be ~0.300, got {}",
        result.subsecond_offset_micros
    );
    assert!(
        (result.total_offset_micros - 5_300_000).abs() < 2_000,
        "total offset should be ~5300ms, got {}us",
        result.total_offset_micros
    );
    assert!(result.verified, "offset should be verified");
    assert_eq!(result.phase_reached.to_i32(), 4);
    assert!(result.duration_micros > 0, "duration should be positive");
}

#[test]
fn test_synchronize_negative_offset() {
    let server_offset = -2_700_000;
    let rtt = 50_000;

    let mut rtts = generate_rtts(rtt, 2_000, 10);
    rtts.extend(vec![rtt; 20]);
    let mut env = SimulatedEnv::new(1_000_000 * SEC, server_offset, rtts);

    let result = synchronize_with(&mut env, 42).unwrap();

    assert_eq!(result.whole_second_offset, -3);
    assert!(
        (result.subsecond_offset_micros - 300_000).abs() < 2_000,
        "subsecond offset should be ~0.300, got {}",
        result.subsecond_offset_micros
    );
    assert!(
        (result.total_offset_micros - (-2_700_000)).abs() < 2_000,
        "total offset should be ~-2700ms, got {}us",
        result.total_offset_micros
    );
    assert!(result.verified);
}

#[test]
fn test_synchronize_varying_rtt() {
    // Use a wider spread of RTTs to stress the IQR filter
    let server_offset = 3_500_000;
    let rtt = 50_000;

    // Phase 1: realistic spread
    let mut rtts = vec![
        40_000, 55_000, 48_000, 62_000, 45_000, 50_000, 52_000, 47_000, 58_000, 44_000,
    ];
    // Phases 2-4: use the median-ish RTT
    rtts.extend(vec![rtt; 20]);
    let mut env = SimulatedEnv::new(1_000_000 * SEC, server_offset, rtts);

    let result = synchronize_with(&mut env, 42).unwrap();

    assert!(
        (result.total_offset_micros - 3_500_000).abs() < 2_000,
        "total offset should be ~3500ms, got {}us",
        result.total_offset_micros
    );
    assert!(result.verified);
}

#[test]
fn test_synchronize_high_latency() {
    // High-latency network (200ms RTT)
    let server_offset = 1_600_000;
    let rtt = 200_000;

    let mut rtts = generate_rtts(rtt, 5_000, 10);
    rtts.extend(vec![rtt; 20]);
    let mut env = SimulatedEnv::new(1_000_000 * SEC, server_offset, rtts);

    let result = synchronize_with(&mut env, 42).unwrap();

    assert!(
        (result.total_offset_micros - 1_600_000).abs() < 2_000,
        "total offset should be ~1600ms with high latency, got {}us",
        result.total_offset_micros
    );
    assert!(result.verified);
}

#[test]
fn test_synchronize_extreme_latency_rtt_over_two_seconds() {
    // Extreme latency: RTT = 2.5 seconds (half_rtt = 1.25s, exceeding 1 second)
    // forces the wrap in every wait-until-fraction argument
    let server_offset = 5_900_000;
    let rtt = 2_500_000;

    let mut rtts = generate_rtts(rtt, 50_000, 10); // Phase 1
    rtts.extend(vec![rtt; 30]); // Phases 2-4
    let mut env = SimulatedEnv::new(1_000_000 * SEC, server_offset, rtts);

    let result = synchronize_with(&mut env, 42).unwrap();

    assert!(
        (result.total_offset_micros - 5_900_000).abs() < 2_000,
        "total offset should be ~5900ms with extreme latency, got {}us",
        result.total_offset_micros
    );
    assert!(result.verified);
}

#[test]
fn test_synchronize_low_latency() {
    // Low-latency network (5ms RTT)
    let server_offset = 800_000;
    let rtt = 5_000;

    let mut rtts = generate_rtts(rtt, 1_000, 10);
    rtts.extend(vec![rtt; 20]);
    let mut env = SimulatedEnv::new(1_000_000 * SEC, server_offset, rtts);

    let result = synchronize_with(&mut env, 42).unwrap();

    assert!(
        (result.total_offset_micros - 800_000).abs() < 2_000,
        "total offset should be ~800ms with low latency, got {}us",
        result.total_offset_micros
    );
    assert!(result.verified);
}

#[test]
fn test_synchronize_progress_reports_all_phases() {
    let server_offset = 5_300_000;
    let rtt = 50_000;

    let mut rtts = generate_rtts(rtt, 2_000, 10);
    rtts.extend(vec![rtt; 20]);
    let mut env = SimulatedEnv::new(1_000_000 * SEC, server_offset, rtts);

    synchronize_with(&mut env, 42).unwrap();

    let mut phases: Vec<String> = Vec::new();
    for i in 0..env.events_len() {
        phases.push(env.event_at(i).phase().name().to_string());
    }
    assert!(
        phases.iter().any(|p| p == "latency_profiling"),
        "should report latency_profiling phase"
    );
    assert!(
        phases.iter().any(|p| p == "whole_second_offset"),
        "should report whole_second_offset phase"
    );
    assert!(
        phases.iter().any(|p| p == "binary_search"),
        "should report binary_search phase"
    );
    assert!(
        phases.iter().any(|p| p == "verification"),
        "should report verification phase"
    );
    assert!(
        phases.last().map(|p| p.as_str()) == Some("complete"),
        "last phase should be complete"
    );
}

// ── Edge cases: subsecond boundaries ──

#[test]
fn test_synchronize_near_zero_subsecond_offset() {
    // Offset very close to a whole second (subsecond ~0.002)
    let server_offset = 3_002_000;
    let rtt = 50_000;

    let mut rtts = generate_rtts(rtt, 2_000, 10);
    rtts.extend(vec![rtt; 20]);
    let mut env = SimulatedEnv::new(1_000_000 * SEC, server_offset, rtts);

    let result = synchronize_with(&mut env, 42).unwrap();

    assert!(
        (result.total_offset_micros - 3_002_000).abs() < 2_000,
        "total offset should be ~3002ms, got {}us",
        result.total_offset_micros
    );
    assert!(result.verified);
}

#[test]
fn test_synchronize_near_one_subsecond_offset() {
    // Offset with subsecond part close to 1.0 (i.e., 0.998)
    let server_offset = 2_998_000;
    let rtt = 50_000;

    let mut rtts = generate_rtts(rtt, 2_000, 10);
    rtts.extend(vec![rtt; 20]);
    let mut env = SimulatedEnv::new(1_000_000 * SEC, server_offset, rtts);

    let result = synchronize_with(&mut env, 42).unwrap();

    assert!(
        (result.total_offset_micros - 2_998_000).abs() < 2_000,
        "total offset should be ~2998ms, got {}us",
        result.total_offset_micros
    );
    assert!(result.verified);
}

#[test]
fn test_synchronize_exact_zero_subsecond_offset() {
    // Offset is exactly a whole number of seconds (subsecond = 0.0)
    let server_offset = 4_000_000;
    let rtt = 50_000;

    let mut rtts = generate_rtts(rtt, 2_000, 10);
    rtts.extend(vec![rtt; 20]);
    let mut env = SimulatedEnv::new(1_000_000 * SEC, server_offset, rtts);

    let result = synchronize_with(&mut env, 42).unwrap();

    assert_eq!(result.whole_second_offset, 4);
    assert!(
        result.subsecond_offset_micros.abs() < 2_000,
        "subsecond offset should be ~0.000, got {}",
        result.subsecond_offset_micros
    );
    assert!(
        (result.total_offset_micros - 4_000_000).abs() < 2_000,
        "total offset should be ~4000ms, got {}us",
        result.total_offset_micros
    );
    assert!(result.verified);
}

#[test]
fn test_synchronize_subsecond_boundary_wraps_to_zero() {
    // A true offset 0.5ms below a whole second: the bisection can leave
    // its lower bound at zero, and the raw distance to the next second is
    // a full second.  The result folds that into the whole-second part,
    // keeping the subsecond offset inside [0, 1).
    let server_offset = 3_999_500;
    let rtt = 50_000;

    let mut rtts = generate_rtts(rtt, 2_000, 10);
    rtts.extend(vec![rtt; 20]);
    let mut env = SimulatedEnv::new(1_000_000 * SEC, server_offset, rtts);

    let result = synchronize_with(&mut env, 42).unwrap();

    assert!(result.subsecond_offset_micros >= 0);
    assert!(result.subsecond_offset_micros < 1_000_000);
    assert!(
        (result.total_offset_micros - 3_999_500).abs() < 2_000,
        "total offset should be ~3999.5ms, got {}us",
        result.total_offset_micros
    );
}

// ── Cancellation ──

#[test]
fn test_synchronize_cancelled_before_start() {
    let rtts = vec![50_000; 30];
    let mut env = SimulatedEnv::new(1_000_000 * SEC, 5_300_000, rtts);
    env.cancel(); // cancel immediately

    let result = synchronize_with(&mut env, 42);

    assert!(matches!(result, Err(AppError::Cancelled)));
}

#[test]
fn test_synchronize_cancelled_during_sync() {
    let rtts = vec![50_000; 30];
    let mut env = SimulatedEnv::new(1_000_000 * SEC, 5_300_000, rtts);
    // Cancel via the progress sink during Phase 1 (after a few probes)
    env.cancel_after_events(3);

    let result = synchronize_with(&mut env, 42);

    assert!(matches!(result, Err(AppError::Cancelled)));
}

// ── Retry exhaustion & outlier rejection ──

#[test]
fn test_find_second_offset_retries_on_outlier_rtt() {
    // First 2 probes are outliers (way outside IQR), 3rd is good
    let rtts = vec![200_000, 200_000, 50_000];
    let mut env = SimulatedEnv::new(1_000_000 * SEC, 5_300_000, rtts);
    let latency = tight_profile();

    let offset = find_second_offset(&mut env, &latency).unwrap();

    assert_eq!(offset, 5);
    // All 3 RTTs consumed: 2 outliers + 1 good
    assert_eq!(env.remaining_rtts(), 0);
}

#[test]
fn test_find_second_offset_max_retries_exceeded() {
    // All probes are outliers — should exhaust MAX_RETRIES
    let rtts = vec![200_000; 10];
    let mut env = SimulatedEnv::new(1_000_000 * SEC, 5_300_000, rtts);
    let latency = tight_profile();

    let result = find_second_offset(&mut env, &latency);

    assert!(
        matches!(result, Err(AppError::MaxRetriesExceeded(10))),
        "should return MaxRetriesExceeded after 10 outlier RTTs"
    );
}
