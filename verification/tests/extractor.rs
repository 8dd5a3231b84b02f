use ticketime::clock::RealClock;
use ticketime::errors::AppError;
use ticketime::extractor::{DateHeaderExtractor, TimeExtractor};
use ticketime::timing::fraction_wait_target;

#[test]
fn date_header_extractor_name() {
    assert_eq!(DateHeaderExtractor.name(), "Date Header");
}

#[test]
fn extract_time_valid_date_header() {
    // Wed, 21 Oct 2015 07:28:00 GMT  ->  unix timestamp 1445412480
    let ts = DateHeaderExtractor
        .extract_time(Some("Wed, 21 Oct 2015 07:28:00 GMT"))
        .unwrap();
    assert_eq!(ts, 1_445_412_480);
}

#[test]
fn extract_time_missing_date_header_returns_no_date_header_error() {
    let err = DateHeaderExtractor.extract_time(None).unwrap_err();
    assert!(
        matches!(err, AppError::NoDateHeader),
        "expected NoDateHeader, got: {}",
        err.message()
    );
}

#[test]
fn extract_time_invalid_date_format_returns_invalid_date_header_error() {
    let err = DateHeaderExtractor
        .extract_time(Some("not-a-real-date"))
        .unwrap_err();
    assert!(
        matches!(err, AppError::InvalidDateHeader(_)),
        "expected InvalidDateHeader, got: {}",
        err.message()
    );
}

#[test]
fn extract_time_rfc2822_with_numeric_zone_offset() {
    let ts = DateHeaderExtractor
        .extract_time(Some("Wed, 21 Oct 2015 07:28:00 +0200"))
        .unwrap();
    // two hours ahead of the GMT reading of the same wall text
    assert_eq!(ts, 1_445_412_480 - 2 * 3600);
}

#[test]
fn system_time_secs_returns_reasonable_epoch_timestamp() {
    // 2023-11-15 in microseconds — any real wall clock reading should exceed this
    let clock = RealClock::new();
    let ts = clock.system_time_micros();
    assert!(ts > 1_700_000_000_000_000, "timestamp {ts} looks too small");
}

#[test]
fn real_clock_monotonic_counts_up_from_construction() {
    let clock = RealClock::new();
    let a = clock.monotonic_micros();
    let b = clock.monotonic_micros();
    assert!(a >= 0);
    assert!(b >= a);
}

#[test]
fn fraction_wait_target_lands_on_the_fraction() {
    // from 1_000_000.2 s aiming at .3 with no minimum wait: the same second
    let t = fraction_wait_target(1_000_000_200_000, 300_000, 0);
    assert_eq!(t, 1_000_000_300_000);
    // from 1_000_000.6 s the .3 moment has passed: the next second
    let t = fraction_wait_target(1_000_000_600_000, 300_000, 0);
    assert_eq!(t, 1_000_001_300_000);
    // a minimum wait pushes past the natural target
    let t = fraction_wait_target(1_000_000_200_000, 300_000, 500_000);
    assert_eq!(t, 1_000_001_300_000);
}
