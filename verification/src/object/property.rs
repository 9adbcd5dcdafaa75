//! What every BACnet object offers, and helpers shared by the object types.
use vstd::prelude::*;
use std::time::{Duration, Instant, SystemTime};
use crate::types::{BacnetError, BitString, DeviceId, ObjectId, PValue, PropertyIdentifier, PropertyValue, StatusFlags};

verus! {

/// The operations of a BACnet object.  Each object type states in its own
/// impl what these return.
pub trait BacnetObject {
    fn object_id(&self) -> ObjectId;

    fn device_id(&self) -> DeviceId;

    fn read_property(&self, property_id: PropertyIdentifier, array_index: Option<u32>) -> Result<PropertyValue, BacnetError>;

    fn write_property(
        &mut self,
        property_id: PropertyIdentifier,
        array_index: Option<u32>,
        value: PropertyValue,
        priority: Option<u8>,
    ) -> Result<(), BacnetError>;

    /// A write made by the simulation itself, past the out-of-service guard
    /// that protects the present value from clients.
    fn force_write_property(&mut self, property_id: PropertyIdentifier, value: PropertyValue) -> Result<(), BacnetError>;

    /// Called every simulation tick.
    fn tick(&mut self, now: SystemTime, delta: Duration);

    /// The properties that changed after `since` (for COV).
    fn changed_since(&self, since: Instant) -> Vec<PropertyIdentifier>;

    /// Every readable property with its current value (for RPM `ALL`).
    fn all_properties(&self) -> Vec<(PropertyIdentifier, PropertyValue)>;
}

/// The model of a property list.
pub open spec fn props_view(s: Seq<(PropertyIdentifier, PropertyValue)>) -> Seq<(PropertyIdentifier, PValue)> {
    s.map_values(|p: (PropertyIdentifier, PropertyValue)| (p.0, p.1@))
}

/// Whether `r` is the outcome of reading a property whose value is
/// `expected`, `None` meaning that the object has no such property.
pub open spec fn read_outcome(r: Result<PropertyValue, BacnetError>, expected: Option<PValue>) -> bool {
    match expected {
        Some(v) => r matches Ok(x) && x@ == v,
        None => r == Err::<PropertyValue, BacnetError>(BacnetError::UnknownProperty),
    }
}

/// Status flags with no flag set.
pub open spec fn no_flags() -> StatusFlags {
    StatusFlags { in_alarm: false, fault: false, overridden: false, out_of_service: false }
}

/// Status flags with no flag set.
pub fn clear_flags() -> (r: StatusFlags)
    ensures
        r == no_flags(),
{
    StatusFlags { in_alarm: false, fault: false, overridden: false, out_of_service: false }
}

/// The four status flags as a bit string: in-alarm, fault, overridden,
/// out-of-service.
pub open spec fn status_bits(sf: StatusFlags) -> Seq<bool> {
    seq![sf.in_alarm, sf.fault, sf.overridden, sf.out_of_service]
}

/// The Status_Flags bit string of `sf`.
pub fn status_flags_bits(sf: &StatusFlags) -> (r: BitString)
    ensures
        r.bits@ == status_bits(*sf),
{
    let bits: [bool; 4] = [sf.in_alarm, sf.fault, sf.overridden, sf.out_of_service];
    let r = BitString::from_bits(&bits);
    assert(r.bits@ =~= status_bits(*sf));
    r
}

/// Builds a property list entry.
pub fn entry(p: PropertyIdentifier, v: PropertyValue) -> (r: (PropertyIdentifier, PropertyValue))
    ensures
        r.0 == p,
        r.1@ == v@,
{
    (p, v)
}

} // verus!
