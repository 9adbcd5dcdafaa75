//! When a change to the configuration file is worth reporting.
use vstd::prelude::*;

verus! {

/// Changes closer together than this, in milliseconds, count as one.
pub const RELOAD_DEBOUNCE_MS: u128 = 500;

/// Whether a file event calls for a reload notice: it must modify or
/// create the watched file, at least the debounce interval after the last
/// notice.
pub fn reload_due(is_our_file: bool, is_write: bool, since_last_ms: u128) -> (r: bool)
    ensures
        r == (is_our_file && is_write && since_last_ms >= RELOAD_DEBOUNCE_MS),
{
    is_our_file && is_write && since_last_ms >= RELOAD_DEBOUNCE_MS
}

} // verus!
