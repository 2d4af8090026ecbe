//! The cache: its errors and how long an entry lives.
use vstd::prelude::*;
use crate::text::concat2;

verus! {

/// Why a cache operation failed.
#[derive(Debug, Clone, PartialEq)]
pub enum CacheError {
    /// The database failed (its message).
    Database(String),
    /// A value could not be (de)serialised (the message).
    Serialization(String),
    /// No entry for the key.
    Miss(String),
    /// The backend failed (its message).
    Backend(String),
}

/// The message of a cache error, as its display shows it.
pub open spec fn cache_error_text(e: CacheError) -> Seq<char> {
    match e {
        CacheError::Database(m) => "Database error: "@ + m@,
        CacheError::Serialization(m) => "Serialization error: "@ + m@,
        CacheError::Miss(k) => "Cache miss: "@ + k@,
        CacheError::Backend(m) => "Backend error: "@ + m@,
    }
}

impl CacheError {
    /// The message shown for this error.
    pub fn message(&self) -> (r: String)
        ensures
            r@ == cache_error_text(*self),
    {
        match self {
            CacheError::Database(m) => concat2("Database error: ", m.as_str()),
            CacheError::Serialization(m) => concat2("Serialization error: ", m.as_str()),
            CacheError::Miss(k) => concat2("Cache miss: ", k.as_str()),
            CacheError::Backend(m) => concat2("Backend error: ", m.as_str()),
        }
    }
}

/// The lifetime of an entry in whole seconds, as the database receives it
/// (`as i64`: a count beyond `i64::MAX` wraps).
pub fn ttl_seconds(secs: u64) -> (r: i64)
    ensures
        secs <= i64::MAX ==> r == secs,
        secs > i64::MAX ==> r == secs - 0x1_0000_0000_0000_0000,
{
    if secs <= 0x7fff_ffff_ffff_ffff {
        secs as i64
    } else {
        let over: u64 = secs - 0x8000_0000_0000_0000;
        (over as i64) - 0x7fff_ffff_ffff_ffff - 1
    }
}

} // verus!
