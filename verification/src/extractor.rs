//! The time-extraction strategy: turning what a response carries into a
//! whole-second Unix timestamp.  The default strategy reads the standard
//! `Date` response header, an RFC 2822 date.

use vstd::prelude::*;
use crate::errors::AppError;

verus! {

use vstd::string::StrSliceExecFns;

/// The Unix timestamp that an RFC 2822 date names, when the text parses
/// as one; a function of the text alone.
pub uninterp spec fn rfc2822_epoch(s: Seq<char>) -> Option<int>;

/// Relies on chrono's `DateTime::parse_from_rfc2822` and `timestamp`:
/// the parsed date's Unix timestamp, depending on the text alone.
#[verifier::external_body]
fn parse_rfc2822_epoch(s: &str) -> (r: Option<i64>)
    ensures
        r matches Some(t) ==> rfc2822_epoch(s@) == Some(t as int),
        r is None ==> rfc2822_epoch(s@) is None,
{
    match chrono::DateTime::parse_from_rfc2822(s) {
        Ok(dt) => Some(dt.timestamp()),
        Err(_) => None,
    }
}

/// A strategy turning a response's time source into an integer Unix
/// timestamp.  The probe hands it the `Date` header value, `None` when
/// the response carried none; alternate sources can be substituted
/// without touching the protocol.
pub trait TimeExtractor {
    /// A human-readable name of this extraction strategy.
    fn name(&self) -> &'static str;

    /// The server's Unix timestamp (whole seconds), or why none could be
    /// read.
    fn extract_time(&self, date_header: Option<&str>) -> Result<i64, AppError>;
}

/// The default extractor: parses the standard `Date` response header.
pub struct DateHeaderExtractor;

impl TimeExtractor for DateHeaderExtractor {
    fn name(&self) -> (s: &'static str)
        ensures
            s@ == "Date Header"@,
    {
        "Date Header"
    }

    /// A missing header is `NoDateHeader`; text that is no RFC 2822 date
    /// is `InvalidDateHeader` carrying the offending value; otherwise the
    /// parsed timestamp.
    fn extract_time(&self, date_header: Option<&str>) -> (r: Result<i64, AppError>)
        ensures
            date_header is None ==> r == Err::<i64, AppError>(AppError::NoDateHeader),
            date_header matches Some(h) ==> match rfc2822_epoch(h@) {
                Some(t) => r matches Ok(v) && v as int == t,
                None => r matches Err(e) && e matches AppError::InvalidDateHeader(msg) && msg@
                    == h@,
            },
    {
        match date_header {
            None => Err(AppError::NoDateHeader),
            Some(h) => match parse_rfc2822_epoch(h) {
                Some(t) => Ok(t),
                None => Err(AppError::InvalidDateHeader(h.to_owned())),
            },
        }
    }
}

} // verus!
