//! The interface of a simulated device's service handler.
use vstd::prelude::*;
use crate::types::DeviceId;

verus! {

/// A device's APDU service handler, for embedders that supply their own.
pub trait DeviceHandler: Send + Sync {
    fn device_id(&self) -> DeviceId;

    fn handle_who_is(&self, low: Option<u32>, high: Option<u32>) -> bool;
}

} // verus!
