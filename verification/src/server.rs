//! What the HTTP API computes around the services: timestamps, the integrity
//! label and the password request settings. Routing and JSON belong to the
//! application.
use vstd::prelude::*;

use crate::clock::unix_time_secs;
use crate::health::{health_label, HealthStatus};
use crate::models::PasswordConfig;
use crate::text::{decimal, push_decimal, push_str, string_of};

verus! {

/// Password length used when a request names none.
pub const DEFAULT_PASSWORD_LENGTH: usize = 24;

/// Shortest password the API hands out.
pub const MIN_PASSWORD_LENGTH: usize = 12;

/// Longest password the API hands out.
pub const MAX_PASSWORD_LENGTH: usize = 96;

/// Timestamp text of API responses: the epoch, then `+` and the seconds since it.
pub open spec fn timestamp_text(secs: u64) -> Seq<char> {
    "1970-01-01T00:00:00Z+"@ + decimal(secs as nat)
}

/// The response timestamp for `secs` seconds since the Unix epoch.
pub fn timestamp_for(secs: u64) -> (s: String)
    ensures
        s@ == timestamp_text(secs),
{
    let mut s = string_of("1970-01-01T00:00:00Z+");
    push_decimal(&mut s, secs);
    s
}

/// The response timestamp for the current time (0 seconds when the clock reads
/// before the Unix epoch).
pub fn now_iso() -> (s: String)
    ensures
        exists|secs: u64| s@ == timestamp_text(secs),
{
    timestamp_for(unix_time_secs())
}

/// Label of the integrity endpoint: `Integrity ` and the status name.
pub open spec fn integrity_label_text(status: HealthStatus) -> Seq<char> {
    "Integrity "@ + health_label(status)
}

/// The label of the integrity endpoint.
pub fn integrity_label(status: HealthStatus) -> (s: String)
    ensures
        s@ == integrity_label_text(status),
{
    let mut s = string_of("Integrity ");
    push_str(&mut s, status.label());
    s
}

/// The password length a request gets: the requested one (24 when none is
/// given), clamped to 12..=96.
pub open spec fn granted_length(requested: Option<usize>) -> usize {
    let n = match requested {
        Some(n) => n,
        None => DEFAULT_PASSWORD_LENGTH,
    };
    if n < MIN_PASSWORD_LENGTH {
        MIN_PASSWORD_LENGTH
    } else if n > MAX_PASSWORD_LENGTH {
        MAX_PASSWORD_LENGTH
    } else {
        n
    }
}

/// The password settings for a request: the granted length, all four character
/// categories.
pub fn password_request_config(requested: Option<usize>) -> (c: PasswordConfig)
    ensures
        c.length == granted_length(requested),
        c.uppercase && c.lowercase && c.digits && c.symbols,
{
    let n = match requested {
        Some(n) => n,
        None => DEFAULT_PASSWORD_LENGTH,
    };
    let length = if n < MIN_PASSWORD_LENGTH {
        MIN_PASSWORD_LENGTH
    } else if n > MAX_PASSWORD_LENGTH {
        MAX_PASSWORD_LENGTH
    } else {
        n
    };
    let base = PasswordConfig::default();
    PasswordConfig { length, ..base }
}

} // verus!
