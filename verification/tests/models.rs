use ticketime::errors::AppError;
use ticketime::models::{AppSettings, ServerStatus, SyncPhase};

// ── ServerStatus names ──

#[test]
fn server_status_display_idle() {
    assert_eq!(ServerStatus::Idle.to_string(), "idle");
}

#[test]
fn server_status_display_syncing() {
    assert_eq!(ServerStatus::Syncing.to_string(), "syncing");
}

#[test]
fn server_status_display_synced() {
    assert_eq!(ServerStatus::Synced.to_string(), "synced");
}

#[test]
fn server_status_display_error() {
    assert_eq!(ServerStatus::Error.to_string(), "error");
}

#[test]
fn server_status_from_str_all_variants() {
    assert_eq!(ServerStatus::from_str("idle").unwrap(), ServerStatus::Idle);
    assert_eq!(ServerStatus::from_str("syncing").unwrap(), ServerStatus::Syncing);
    assert_eq!(ServerStatus::from_str("synced").unwrap(), ServerStatus::Synced);
    assert_eq!(ServerStatus::from_str("error").unwrap(), ServerStatus::Error);
}

#[test]
fn server_status_from_str_unknown_returns_err() {
    let result = ServerStatus::from_str("unknown");
    assert!(result.is_err());
    assert!(result.unwrap_err().contains("unknown server status"));
}

// ── SyncPhase ordinal conversions ──

#[test]
fn sync_phase_to_i32_mapping() {
    assert_eq!(SyncPhase::LatencyProfiling.to_i32(), 0);
    assert_eq!(SyncPhase::WholeSecondOffset.to_i32(), 1);
    assert_eq!(SyncPhase::BinarySearch.to_i32(), 2);
    assert_eq!(SyncPhase::Verification.to_i32(), 3);
    assert_eq!(SyncPhase::Complete.to_i32(), 4);
}

#[test]
fn sync_phase_from_i32_all_valid() {
    assert_eq!(SyncPhase::try_from(0).unwrap(), SyncPhase::LatencyProfiling);
    assert_eq!(SyncPhase::try_from(1).unwrap(), SyncPhase::WholeSecondOffset);
    assert_eq!(SyncPhase::try_from(2).unwrap(), SyncPhase::BinarySearch);
    assert_eq!(SyncPhase::try_from(3).unwrap(), SyncPhase::Verification);
    assert_eq!(SyncPhase::try_from(4).unwrap(), SyncPhase::Complete);
}

#[test]
fn sync_phase_try_from_invalid_returns_err() {
    assert!(SyncPhase::try_from(-1).is_err());
    assert!(SyncPhase::try_from(5).is_err());
    assert!(SyncPhase::try_from(100).is_err());
}

#[test]
fn sync_phase_try_from_error_names_the_value() {
    assert_eq!(SyncPhase::try_from(100).unwrap_err(), "unknown sync phase: 100");
    assert_eq!(SyncPhase::try_from(-7).unwrap_err(), "unknown sync phase: -7");
}

#[test]
fn sync_phase_names_are_snake_case() {
    assert_eq!(SyncPhase::LatencyProfiling.name(), "latency_profiling");
    assert_eq!(SyncPhase::WholeSecondOffset.name(), "whole_second_offset");
    assert_eq!(SyncPhase::BinarySearch.name(), "binary_search");
    assert_eq!(SyncPhase::Verification.name(), "verification");
    assert_eq!(SyncPhase::Complete.name(), "complete");
}

// ── AppSettings defaults ──

#[test]
fn app_settings_default_values() {
    let s = AppSettings::default();
    assert_eq!(s.theme, "dark");
    assert_eq!(s.min_request_interval_ms, 500);
    assert_eq!(s.health_resync_threshold, 50);
    assert_eq!(s.external_time_source, "ntp");
    assert!(s.show_milliseconds);
    assert_eq!(s.millisecond_precision, 3);
    assert!(!s.show_timezone_offset);
    assert_eq!(s.overlay_opacity, 75);
    assert!(!s.overlay_auto_hide);
    assert!(s.overlay_always_on_top);
    assert_eq!(s.alert_intervals, vec![10, 5, 1]);
    assert_eq!(s.alert_method, "both");
    assert_eq!(s.drift_warning_threshold_ms, 1000);
}

// ── Error messages ──

#[test]
fn no_date_header_display() {
    assert_eq!(AppError::NoDateHeader.message(), "server returned no Date header");
}

#[test]
fn invalid_date_header_display() {
    let e = AppError::InvalidDateHeader("bad value".to_string());
    assert_eq!(e.message(), "invalid Date header format: bad value");
}

#[test]
fn cancelled_display() {
    assert_eq!(AppError::Cancelled.message(), "sync cancelled");
}

#[test]
fn max_retries_exceeded_display() {
    let e = AppError::MaxRetriesExceeded(5);
    assert_eq!(e.message(), "max retries exceeded (5 attempts)");
}

#[test]
fn invalid_url_display() {
    let e = AppError::InvalidUrl("not-a-url".to_string());
    assert_eq!(e.message(), "invalid URL: not-a-url");
}

#[test]
fn transport_error_message_names_the_cause() {
    let e = AppError::Transport("connection refused".to_string());
    assert_eq!(e.message(), "network error: connection refused");
}

#[test]
fn max_retries_message_renders_multi_digit_counts() {
    assert_eq!(AppError::MaxRetriesExceeded(10).message(), "max retries exceeded (10 attempts)");
    assert_eq!(AppError::MaxRetriesExceeded(0).message(), "max retries exceeded (0 attempts)");
    assert_eq!(
        AppError::MaxRetriesExceeded(4_294_967_295).message(),
        "max retries exceeded (4294967295 attempts)"
    );
}
