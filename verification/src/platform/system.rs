//! Host identity and the arithmetic of periodic system metrics.
use vstd::prelude::*;
use crate::text::{
    chars_of, find_char, index_of, last_index_of, lemma_last_index_of, rfind_char, slice_of,
    string_of,
};

verus! {

/// Contains static host identifiers that do not change during runtime.
#[derive(Debug)]
pub struct HostInfo {
    pub hostname: String,
    pub os_version: String,
}

impl Default for HostInfo {
    fn default() -> (r: Self)
        ensures
            r.hostname@.len() == 0,
            r.os_version@.len() == 0,
    {
        HostInfo { hostname: String::new(), os_version: String::new() }
    }
}

/// The release part of a long OS version: the text between its first `(` and its last `)`,
/// when it has both; else the whole text.
pub open spec fn os_release(s: Seq<char>) -> Seq<char> {
    match (index_of(s, '('), last_index_of(s, ')')) {
        (Some(a), Some(b)) => s.subrange(a + 1, b),
        _ => s,
    }
}

/// The release part can be cut out: unless the text has both brackets, with its last `)`
/// before its first `(`.
pub open spec fn release_extractable(s: Seq<char>) -> bool {
    match (index_of(s, '('), last_index_of(s, ')')) {
        (Some(a), Some(b)) => a < b,
        _ => true,
    }
}

/// The host name shown: the reported one, or `Unknown`.
pub open spec fn hostname_of(name: Option<Seq<char>>) -> Seq<char> {
    match name {
        Some(n) => n,
        None => "Unknown"@,
    }
}

/// The OS version shown: the release part of the reported long version, or `Unknown OS`.
pub open spec fn os_version_of(long: Option<Seq<char>>) -> Seq<char> {
    match long {
        Some(v) => os_release(v),
        None => "Unknown OS"@,
    }
}

/// The view of an optional string.
pub open spec fn opt_view(o: Option<String>) -> Option<Seq<char>> {
    match o {
        Some(s) => Some(s@),
        None => None,
    }
}

/// Whole days and the remaining whole hours of an uptime in seconds.
pub open spec fn uptime_split(secs: nat) -> (nat, nat) {
    (secs / 86400, (secs % 86400) / 3600)
}

/// Extracts the release part of a long OS version (see [`os_release`]).
pub fn os_release_of(s: &str) -> (r: String)
    requires
        release_extractable(s@),
    ensures
        r@ == os_release(s@),
{
    let v = chars_of(s);
    match (find_char(&v, '('), rfind_char(&v, ')')) {
        (Some(a), Some(b)) => {
            proof {
                lemma_last_index_of(v@, ')');
            }
            string_of(&slice_of(&v, a + 1, b))
        },
        _ => string_of(&v),
    }
}

impl HostInfo {
    /// Host information from what the system reports: its host name and long OS version.
    pub fn from_system(host_name: Option<String>, long_os_version: Option<String>) -> (r: Self)
        requires
            long_os_version matches Some(v) ==> release_extractable(v@),
        ensures
            r.hostname@ == hostname_of(opt_view(host_name)),
            r.os_version@ == os_version_of(opt_view(long_os_version)),
    {
        let hostname = match host_name {
            Some(h) => h,
            None => string_of(&chars_of("Unknown")),
        };
        let os_version = match long_os_version {
            Some(v) => os_release_of(v.as_str()),
            None => string_of(&chars_of("Unknown OS")),
        };
        HostInfo { hostname, os_version }
    }
}

/// Splits an uptime in seconds into whole days and the remaining whole hours.
pub fn uptime_days_hours(secs: u64) -> (r: (u64, u64))
    ensures
        (r.0 as nat, r.1 as nat) == uptime_split(secs as nat),
{
    (secs / 86400, (secs % 86400) / 3600)
}

/// A byte count in whole mebibytes.
pub fn bytes_to_mb(bytes: u64) -> (r: u64)
    ensures
        r == bytes / 1024 / 1024,
{
    bytes / 1024 / 1024
}

/// The hours of an uptime split are less than a day, and days and hours together never
/// exceed the uptime, falling short of it by less than an hour.
pub proof fn law_uptime_split(secs: nat)
    ensures
        uptime_split(secs).1 < 24,
        uptime_split(secs).0 * 86400 + uptime_split(secs).1 * 3600 <= secs,
        secs < uptime_split(secs).0 * 86400 + uptime_split(secs).1 * 3600 + 3600,
{
    let d = secs / 86400;
    let r = secs % 86400;
    let h = r / 3600;
    assert(secs == d * 86400 + r) by (nonlinear_arith)
        requires
            d == secs / 86400,
            r == secs % 86400,
    ;
    assert(r == h * 3600 + r % 3600) by (nonlinear_arith)
        requires
            h == r / 3600,
    ;
    assert(h < 24) by (nonlinear_arith)
        requires
            r < 86400,
            h == r / 3600,
    ;
}

} // verus!
