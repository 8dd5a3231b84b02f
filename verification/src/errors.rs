//! The error taxonomy of the synchronization engine.  Every failure a run
//! can end in is one of these variants; none is swallowed inside the core.

use vstd::prelude::*;
use crate::text::{push_digits, spec_digits};

verus! {

use vstd::string::StringExecFns;

broadcast use vstd::string::to_string_from_display_ensures_for_str;

/// Why a synchronization run failed.
#[derive(Debug, Clone, PartialEq, Eq)]
pub enum AppError {
    /// The target URL could not be parsed; holds the offending text.
    InvalidUrl(String),
    /// The probe transport failed (network, DNS, TLS or timeout); holds a
    /// description of the failure.
    Transport(String),
    /// A response carried no `Date` header (or the chosen extractor's
    /// source was absent).
    NoDateHeader,
    /// A `Date` header was present but not an RFC 2822 date; holds the
    /// offending value.
    InvalidDateHeader(String),
    /// The cancellation token was tripped.
    Cancelled,
    /// A retry loop rejected this many consecutive probes as RTT outliers.
    MaxRetriesExceeded(u32),
}

impl AppError {
    /// The human-readable description of this error.
    pub open spec fn spec_message(self) -> Seq<char> {
        match self {
            AppError::InvalidUrl(s) => "invalid URL: "@ + s@,
            AppError::Transport(s) => "network error: "@ + s@,
            AppError::NoDateHeader => "server returned no Date header"@,
            AppError::InvalidDateHeader(s) => "invalid Date header format: "@ + s@,
            AppError::Cancelled => "sync cancelled"@,
            AppError::MaxRetriesExceeded(n) => "max retries exceeded ("@ + spec_digits(n as int)
                + " attempts)"@,
        }
    }

    /// Renders the human-readable description of this error.
    pub fn message(&self) -> (s: String)
        ensures
            s@ == self.spec_message(),
    {
        match self {
            AppError::InvalidUrl(u) => {
                let mut s = "invalid URL: ".to_string();
                s.append(u.as_str());
                s
            },
            AppError::Transport(t) => {
                let mut s = "network error: ".to_string();
                s.append(t.as_str());
                s
            },
            AppError::NoDateHeader => "server returned no Date header".to_string(),
            AppError::InvalidDateHeader(v) => {
                let mut s = "invalid Date header format: ".to_string();
                s.append(v.as_str());
                s
            },
            AppError::Cancelled => "sync cancelled".to_string(),
            AppError::MaxRetriesExceeded(n) => {
                let mut s = "max retries exceeded (".to_string();
                push_digits(*n, &mut s);
                s.append(" attempts)");
                s
            },
        }
    }
}

} // verus!
