use vstd::prelude::*;

verus! {

/// Relies on chrono::Utc::now and DateTime::to_rfc3339: the current time
/// as an RFC 3339 string. Nothing is promised of the value read.
#[verifier::external_body]
pub fn now_rfc3339() -> (r: String) {
    chrono::Utc::now().to_rfc3339()
}

/// Relies on chrono::Utc::now and DateTime::to_rfc3339_opts: the current
/// UTC time as an RFC 3339 string with millisecond precision and a `Z`
/// suffix. Nothing is promised of the value read.
#[verifier::external_body]
pub fn now_rfc3339_millis() -> (r: String) {
    chrono::Utc::now().to_rfc3339_opts(chrono::SecondsFormat::Millis, true)
}

/// Relies on chrono::Utc::now and DateTime::timestamp: the current time
/// as seconds since the Unix epoch. Nothing is promised of the value read.
#[verifier::external_body]
pub fn now_unix_secs() -> (r: u64) {
    chrono::Utc::now().timestamp() as u64
}

} // verus!
