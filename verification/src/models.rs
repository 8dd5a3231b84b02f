//! Data model of the synchronization engine: the phase enumeration, the
//! status of a catalogued server, the user settings record, and the
//! payload sent to a UI sink when a run fails.

use vstd::prelude::*;
use crate::text::{push_digits, spec_digits, str_eq};

verus! {

use vstd::string::StringExecFns;

broadcast use vstd::string::to_string_from_display_ensures_for_str;

// ── Sync phase ──

/// The four phases of a synchronization run, plus the completed state.
/// The ordinal values are persisted by the surrounding host and must not
/// be reordered.
#[derive(Debug, Clone, Copy, PartialEq, Eq, Structural)]
pub enum SyncPhase {
    LatencyProfiling,
    WholeSecondOffset,
    BinarySearch,
    Verification,
    Complete,
}

/// The persisted ordinal of a phase.
pub open spec fn phase_ordinal(p: SyncPhase) -> int {
    match p {
        SyncPhase::LatencyProfiling => 0,
        SyncPhase::WholeSecondOffset => 1,
        SyncPhase::BinarySearch => 2,
        SyncPhase::Verification => 3,
        SyncPhase::Complete => 4,
    }
}

/// The phase with a given ordinal, if the ordinal is in range.
pub open spec fn phase_of_ordinal(v: int) -> Option<SyncPhase> {
    if v == 0 {
        Some(SyncPhase::LatencyProfiling)
    } else if v == 1 {
        Some(SyncPhase::WholeSecondOffset)
    } else if v == 2 {
        Some(SyncPhase::BinarySearch)
    } else if v == 3 {
        Some(SyncPhase::Verification)
    } else if v == 4 {
        Some(SyncPhase::Complete)
    } else {
        None
    }
}

/// The message rejecting a stray persisted ordinal.
pub open spec fn spec_phase_err_message(v: int) -> Seq<char> {
    if v < 0 {
        "unknown sync phase: "@ + "-"@ + spec_digits(-v)
    } else {
        "unknown sync phase: "@ + spec_digits(v)
    }
}

/// The ordinal and the variant determine each other: converting a phase to
/// its ordinal and back yields the same phase, the ordinal always lies in
/// `{0..4}`, and every ordinal outside that range names no phase.
pub proof fn lemma_phase_ordinal_roundtrip(p: SyncPhase, v: int)
    ensures
        phase_of_ordinal(phase_ordinal(p)) == Some(p),
        0 <= phase_ordinal(p) <= 4,
        phase_of_ordinal(v) matches Some(q) ==> phase_ordinal(q) == v,
        !(0 <= v <= 4) ==> phase_of_ordinal(v) is None,
{
}

impl SyncPhase {
    /// The persisted integer form of this phase.
    pub fn to_i32(self) -> (v: i32)
        ensures
            v == phase_ordinal(self),
    {
        match self {
            SyncPhase::LatencyProfiling => 0,
            SyncPhase::WholeSecondOffset => 1,
            SyncPhase::BinarySearch => 2,
            SyncPhase::Verification => 3,
            SyncPhase::Complete => 4,
        }
    }

    /// The phase persisted under `v`, or an error naming the stray value.
    pub fn try_from(v: i32) -> (r: Result<SyncPhase, String>)
        ensures
            phase_of_ordinal(v as int) matches Some(p) ==> r == Ok::<SyncPhase, String>(p),
            phase_of_ordinal(v as int) is None ==> (r matches Err(m) && m@
                == spec_phase_err_message(v as int)),
    {
        match v {
            0 => Ok(SyncPhase::LatencyProfiling),
            1 => Ok(SyncPhase::WholeSecondOffset),
            2 => Ok(SyncPhase::BinarySearch),
            3 => Ok(SyncPhase::Verification),
            4 => Ok(SyncPhase::Complete),
            _ => {
                let mut msg = "unknown sync phase: ".to_string();
                if v < 0 {
                    msg.append("-");
                    let m: u32 = (-(v as i64)) as u32;
                    proof {
                        assert(m as int == -(v as int));
                    }
                    push_digits(m, &mut msg);
                } else {
                    push_digits(v as u32, &mut msg);
                }
                proof {
                    assert(msg@ =~= spec_phase_err_message(v as int));
                }
                Err(msg)
            },
        }
    }

    /// The snake-case name of this phase, as it appears in progress
    /// observations.
    pub fn name(self) -> (s: &'static str)
        ensures
            s@ == self.spec_name(),
    {
        match self {
            SyncPhase::LatencyProfiling => "latency_profiling",
            SyncPhase::WholeSecondOffset => "whole_second_offset",
            SyncPhase::BinarySearch => "binary_search",
            SyncPhase::Verification => "verification",
            SyncPhase::Complete => "complete",
        }
    }

    /// The snake-case name of this phase.
    pub open spec fn spec_name(self) -> Seq<char> {
        match self {
            SyncPhase::LatencyProfiling => "latency_profiling"@,
            SyncPhase::WholeSecondOffset => "whole_second_offset"@,
            SyncPhase::BinarySearch => "binary_search"@,
            SyncPhase::Verification => "verification"@,
            SyncPhase::Complete => "complete"@,
        }
    }
}

// ── Server status ──

/// The lifecycle status of a catalogued server.
#[derive(Debug, Clone, Copy, PartialEq, Eq, Structural)]
pub enum ServerStatus {
    Idle,
    Syncing,
    Synced,
    Error,
}

impl ServerStatus {
    /// The lowercase name of this status.
    pub open spec fn spec_name(self) -> Seq<char> {
        match self {
            ServerStatus::Idle => "idle"@,
            ServerStatus::Syncing => "syncing"@,
            ServerStatus::Synced => "synced"@,
            ServerStatus::Error => "error"@,
        }
    }

    /// The lowercase name of this status, as a fresh string.
    pub fn to_string(&self) -> (s: String)
        ensures
            s@ == self.spec_name(),
    {
        match self {
            ServerStatus::Idle => "idle".to_string(),
            ServerStatus::Syncing => "syncing".to_string(),
            ServerStatus::Synced => "synced".to_string(),
            ServerStatus::Error => "error".to_string(),
        }
    }

    /// The status named by `s`, if any.
    pub open spec fn spec_of_name(s: Seq<char>) -> Option<ServerStatus> {
        if s == "idle"@ {
            Some(ServerStatus::Idle)
        } else if s == "syncing"@ {
            Some(ServerStatus::Syncing)
        } else if s == "synced"@ {
            Some(ServerStatus::Synced)
        } else if s == "error"@ {
            Some(ServerStatus::Error)
        } else {
            None
        }
    }

    /// Parses a status name; any other text is rejected with a message
    /// naming it.
    pub fn from_str(s: &str) -> (r: Result<ServerStatus, String>)
        ensures
            Self::spec_of_name(s@) matches Some(st) ==> r == Ok::<ServerStatus, String>(st),
            Self::spec_of_name(s@) is None ==> (r matches Err(m) && m@
                == "unknown server status: "@ + s@),
    {
        if str_eq(s, "idle") {
            Ok(ServerStatus::Idle)
        } else if str_eq(s, "syncing") {
            Ok(ServerStatus::Syncing)
        } else if str_eq(s, "synced") {
            Ok(ServerStatus::Synced)
        } else if str_eq(s, "error") {
            Ok(ServerStatus::Error)
        } else {
            let mut msg = "unknown server status: ".to_string();
            msg.append(s);
            Err(msg)
        }
    }
}

// ── Error payload for a UI sink ──

/// What the host hands its UI sink when a synchronization fails.
#[derive(Debug, Clone)]
pub struct SyncErrorPayload {
    pub server_id: i64,
    pub error: String,
}

// ── Application settings ──

/// The user-tunable settings record kept by the surrounding host.
#[derive(Debug, Clone)]
pub struct AppSettings {
    pub theme: String,
    pub min_request_interval_ms: u32,
    pub health_resync_threshold: u8,
    pub external_time_source: String,
    pub show_milliseconds: bool,
    pub millisecond_precision: u8,
    pub show_timezone_offset: bool,
    pub overlay_opacity: u8,
    pub overlay_auto_hide: bool,
    pub overlay_always_on_top: bool,
    pub alert_intervals: Vec<u32>,
    pub alert_method: String,
    pub drift_warning_threshold_ms: u32,
}

impl Default for AppSettings {
    /// The settings a fresh installation starts from.
    fn default() -> (r: Self)
        ensures
            r.theme@ == "dark"@,
            r.min_request_interval_ms == 500,
            r.health_resync_threshold == 50,
            r.external_time_source@ == "ntp"@,
            r.show_milliseconds,
            r.millisecond_precision == 3,
            !r.show_timezone_offset,
            r.overlay_opacity == 75,
            !r.overlay_auto_hide,
            r.overlay_always_on_top,
            r.alert_intervals@ == seq![10u32, 5u32, 1u32],
            r.alert_method@ == "both"@,
            r.drift_warning_threshold_ms == 1000,
    {
        let alert_intervals: Vec<u32> = vec![10, 5, 1];
        proof {
            assert(alert_intervals@ =~= seq![10u32, 5u32, 1u32]);
        }
        Self {
            theme: "dark".to_string(),
            min_request_interval_ms: 500,
            health_resync_threshold: 50,
            external_time_source: "ntp".to_string(),
            show_milliseconds: true,
            millisecond_precision: 3,
            show_timezone_offset: false,
            overlay_opacity: 75,
            overlay_auto_hide: false,
            overlay_always_on_top: true,
            alert_intervals,
            alert_method: "both".to_string(),
            drift_warning_threshold_ms: 1000,
        }
    }
}

} // verus!
