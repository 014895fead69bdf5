//! Freshness and status of the cached GitHub license data.

use vstd::prelude::*;

use crate::text::{decimal, decimal_exec, extend_str, from_chars};

verus! {

/// A file system path.
#[verifier::external_type_specification]
#[verifier::external_body]
pub struct ExPathBuf(std::path::PathBuf);

/// How long cached license data stays fresh: 30 days, in seconds.
pub const CACHE_TTL_SECS: u64 = 2592000;

/// Whether cached data of the given age is fresh: its age is known and is
/// below the time to live. An unknown age counts as stale.
pub fn is_cache_fresh(age_secs: Option<u64>) -> (r: bool)
    ensures
        r == (age_secs matches Some(a) && a < CACHE_TTL_SECS),
{
    match age_secs {
        Some(a) => a < CACHE_TTL_SECS,
        None => false,
    }
}

/// Status of the license cache.
#[derive(Debug)]
pub struct CacheStatus {
    pub exists: bool,
    pub path: std::path::PathBuf,
    pub size_bytes: u64,
    pub is_fresh: bool,
    pub age_secs: u64,
    pub license_count: usize,
}

/// How an age in seconds is shown: whole minutes below an hour, whole hours
/// below a day, whole days otherwise.
pub open spec fn age_text(secs: nat) -> Seq<char> {
    if secs < 3600 {
        decimal(secs / 60) + " minutes ago"@
    } else if secs < 86400 {
        decimal(secs / 3600) + " hours ago"@
    } else {
        decimal(secs / 86400) + " days ago"@
    }
}

impl CacheStatus {
    /// Formats the age of the cache.
    pub fn format_age(secs: u64) -> (r: String)
        ensures
            r@ == age_text(secs as nat),
    {
        let (n, unit) = if secs < 3600 {
            (secs / 60, " minutes ago")
        } else if secs < 86400 {
            (secs / 3600, " hours ago")
        } else {
            (secs / 86400, " days ago")
        };
        let mut v = decimal_exec(n as u128);
        extend_str(&mut v, unit);
        from_chars(v.as_slice())
    }
}

} // verus!
