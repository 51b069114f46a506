//! A Web-Bluetooth-style device discovery and GATT session manager.
//!
//! The crate models the session core of a BLE front end: UUID
//! normalization, device-filter matching, a time-bounded scan session
//! with deduplication, selection handling, a peripheral cache, GATT
//! service/characteristic resolution, and a registry of notification
//! subscriptions. Adapter I/O is left to the embedding application;
//! the logic that decides what to do with the adapter's answers lives
//! here, verified.

pub mod error;
pub mod models;
pub mod text;
pub mod uuid_norm;
pub mod filter;
pub mod scan;
pub mod registry;
pub mod cache;
pub mod codec;
pub mod gatt;
pub mod selection;
pub mod session;

use vstd::prelude::*;

verus! {

/// Default scan timeout, in milliseconds, applied when a request does
/// not name one.
pub fn default_scan_timeout_ms() -> (r: u64)
    ensures
        r == 10000,
{
    10000
}

/// Default for the `with_response` flag of a characteristic write.
pub fn default_with_response() -> (r: bool)
    ensures
        r,
{
    true
}

} // verus!
