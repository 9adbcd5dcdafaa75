//! Binary Input object (ASHRAE 135 Clause 12.6).
use vstd::prelude::*;
use std::time::{Duration, Instant, SystemTime};
use crate::object::clock::{instant_ge, instant_gt, instant_after, instant_not_before, instant_now};
use crate::object::property::{clear_flags, no_flags, entry, props_view, read_outcome, status_bits, status_flags_bits, BacnetObject};
use crate::types::{
    event_state_code, reliability_code, BacnetError, DeviceId, EventState, ObjectId,
    ObjectType, PValue, PropertyIdentifier, PropertyValue, Reliability, StatusFlags,
};

verus! {

pub struct BinaryInput {
    pub device_id: DeviceId,
    pub object_id: ObjectId,
    pub object_name: String,
    pub description: String,
    pub present_value: bool,
    pub status_flags: StatusFlags,
    pub event_state: EventState,
    pub reliability: Reliability,
    pub out_of_service: bool,
    /// `false` for normal polarity, `true` for reverse.
    pub polarity: bool,
    pub last_changed: Instant,
}

impl BinaryInput {
    /// A fresh input: inactive, in service, normal polarity.
    pub fn new(device_id: DeviceId, instance: u32, name: &str) -> (r: BinaryInput)
        ensures
            r.device_id == device_id,
            r.object_id == (ObjectId { object_type: ObjectType::BinaryInput, instance }),
            r.object_name@ == name@,
            r.description@ == Seq::<char>::empty(),
            !r.present_value,
            r.status_flags == no_flags(),
            r.event_state == EventState::Normal,
            r.reliability == Reliability::NoFaultDetected,
            !r.out_of_service,
            !r.polarity,
    {
        BinaryInput {
            device_id,
            object_id: ObjectId { object_type: ObjectType::BinaryInput, instance },
            object_name: String::from_str(name),
            description: String::new(),
            present_value: false,
            status_flags: clear_flags(),
            event_state: EventState::Normal,
            reliability: Reliability::NoFaultDetected,
            out_of_service: false,
            polarity: false,
            last_changed: instant_now(),
        }
    }

    /// The value of property `p`, `None` when the object has no such property.
    pub open spec fn property(&self, p: PropertyIdentifier) -> Option<PValue> {
        match p {
            PropertyIdentifier::ObjectIdentifier => Some(PValue::ObjectId(self.object_id)),
            PropertyIdentifier::ObjectName => Some(PValue::CharacterString(self.object_name@)),
            PropertyIdentifier::ObjectType => Some(PValue::Enumerated(3)),
            PropertyIdentifier::PresentValue => Some(PValue::Enumerated(if self.present_value { 1 } else { 0 })),
            PropertyIdentifier::StatusFlags => Some(PValue::BitString(status_bits(self.status_flags))),
            PropertyIdentifier::EventState => Some(PValue::Enumerated(event_state_code(self.event_state))),
            PropertyIdentifier::OutOfService => Some(PValue::Boolean(self.out_of_service)),
            PropertyIdentifier::Description => Some(PValue::CharacterString(self.description@)),
            _ => None,
        }
    }

    /// The properties listed for RPM `ALL`, in order.
    pub open spec fn property_list(&self) -> Seq<(PropertyIdentifier, PValue)> {
        seq![
            (PropertyIdentifier::ObjectIdentifier, PValue::ObjectId(self.object_id)),
            (PropertyIdentifier::ObjectName, PValue::CharacterString(self.object_name@)),
            (PropertyIdentifier::ObjectType, PValue::Enumerated(3)),
            (PropertyIdentifier::PresentValue, PValue::Enumerated(if self.present_value { 1 } else { 0 })),
            (PropertyIdentifier::OutOfService, PValue::Boolean(self.out_of_service)),
            (PropertyIdentifier::Description, PValue::CharacterString(self.description@)),
        ]
    }

    /// Whether `new` and `r` are what a write of `v` to `p` leaves; `forced`
    /// writes pass the out-of-service guard of the present value.
    pub open spec fn write_outcome(&self, p: PropertyIdentifier, v: PropertyValue, forced: bool, new: BinaryInput, r: Result<(), BacnetError>) -> bool {
        match p {
            PropertyIdentifier::OutOfService => match v {
                PropertyValue::Boolean(b) => r is Ok && new == (BinaryInput { out_of_service: b, ..*self }),
                _ => r == Err::<(), BacnetError>(BacnetError::InvalidDataType) && new == *self,
            },
            PropertyIdentifier::PresentValue => if self.out_of_service || forced {
                match v {
                    PropertyValue::Boolean(b) => r is Ok && new == (BinaryInput { present_value: b, last_changed: new.last_changed, ..*self }),
                    _ => r == Err::<(), BacnetError>(BacnetError::InvalidDataType) && new == *self,
                }
            } else {
                r == Err::<(), BacnetError>(BacnetError::WriteAccessDenied) && new == *self
            },
            _ => r == Err::<(), BacnetError>(BacnetError::WriteAccessDenied) && new == *self,
        }
    }

    fn write_impl(&mut self, property_id: PropertyIdentifier, value: PropertyValue, forced: bool) -> (r: Result<(), BacnetError>)
        ensures
            old(self).write_outcome(property_id, value, forced, *final(self), r),
    {
        match property_id {
            PropertyIdentifier::OutOfService => match value {
                PropertyValue::Boolean(b) => {
                    self.out_of_service = b;
                    Ok(())
                },
                _ => Err(BacnetError::InvalidDataType),
            },
            PropertyIdentifier::PresentValue => {
                if !(self.out_of_service || forced) {
                    return Err(BacnetError::WriteAccessDenied);
                }
                match value {
                    PropertyValue::Boolean(b) => {
                        self.present_value = b;
                        self.last_changed = instant_now();
                        Ok(())
                    },
                    _ => Err(BacnetError::InvalidDataType),
                }
            },
            _ => Err(BacnetError::WriteAccessDenied),
        }
    }
}

impl BacnetObject for BinaryInput {
    fn object_id(&self) -> (r: ObjectId)
        ensures
            r == self.object_id,
    {
        self.object_id
    }

    fn device_id(&self) -> (r: DeviceId)
        ensures
            r == self.device_id,
    {
        self.device_id
    }

    fn read_property(&self, property_id: PropertyIdentifier, array_index: Option<u32>) -> (r: Result<PropertyValue, BacnetError>)
        ensures
            read_outcome(r, self.property(property_id)),
    {
        match property_id {
            PropertyIdentifier::ObjectIdentifier => Ok(PropertyValue::ObjectId(self.object_id)),
            PropertyIdentifier::ObjectName => Ok(PropertyValue::CharacterString(self.object_name.clone())),
            PropertyIdentifier::ObjectType => Ok(PropertyValue::Enumerated(ObjectType::BinaryInput.to_u32())),
            PropertyIdentifier::PresentValue => Ok(PropertyValue::Enumerated(if self.present_value { 1 } else { 0 })),
            PropertyIdentifier::StatusFlags => Ok(PropertyValue::BitString(status_flags_bits(&self.status_flags))),
            PropertyIdentifier::EventState => Ok(PropertyValue::Enumerated(self.event_state.to_u32())),
            PropertyIdentifier::OutOfService => Ok(PropertyValue::Boolean(self.out_of_service)),
            PropertyIdentifier::Description => Ok(PropertyValue::CharacterString(self.description.clone())),
            _ => Err(BacnetError::UnknownProperty),
        }
    }

    /// Out_Of_Service is writable; the present value only while out of
    /// service.
    fn write_property(&mut self, property_id: PropertyIdentifier, array_index: Option<u32>, value: PropertyValue, priority: Option<u8>) -> (r: Result<(), BacnetError>)
        ensures
            old(self).write_outcome(property_id, value, false, *final(self), r),
    {
        self.write_impl(property_id, value, false)
    }

    fn force_write_property(&mut self, property_id: PropertyIdentifier, value: PropertyValue) -> (r: Result<(), BacnetError>)
        ensures
            old(self).write_outcome(property_id, value, true, *final(self), r),
    {
        self.write_impl(property_id, value, true)
    }

    fn tick(&mut self, now: SystemTime, delta: Duration)
        ensures
            *final(self) == *old(self),
    {
    }
    fn changed_since(&self, since: Instant) -> (r: Vec<PropertyIdentifier>)
        ensures
            r@ == (if instant_ge(self.last_changed, since) {
                seq![PropertyIdentifier::PresentValue]
            } else {
                Seq::empty()
            }),
    {
        if instant_not_before(&self.last_changed, &since) {
            let r = vec![PropertyIdentifier::PresentValue];
            assert(r@ =~= seq![PropertyIdentifier::PresentValue]);
            r
        } else {
            Vec::new()
        }
    }

    fn all_properties(&self) -> (r: Vec<(PropertyIdentifier, PropertyValue)>)
        ensures
            props_view(r@) == self.property_list(),
    {
        let mut props: Vec<(PropertyIdentifier, PropertyValue)> = Vec::new();
        props.push(entry(PropertyIdentifier::ObjectIdentifier, PropertyValue::ObjectId(self.object_id)));
        props.push(entry(PropertyIdentifier::ObjectName, PropertyValue::CharacterString(self.object_name.clone())));
        props.push(entry(PropertyIdentifier::ObjectType, PropertyValue::Enumerated(ObjectType::BinaryInput.to_u32())));
        props.push(entry(PropertyIdentifier::PresentValue, PropertyValue::Enumerated(if self.present_value { 1 } else { 0 })));
        props.push(entry(PropertyIdentifier::OutOfService, PropertyValue::Boolean(self.out_of_service)));
        props.push(entry(PropertyIdentifier::Description, PropertyValue::CharacterString(self.description.clone())));
        assert(props_view(props@) =~= self.property_list());
        props
    }
}

/// Every property that RPM `ALL` lists reads back as the value it is listed
/// with.
pub proof fn lemma_binary_input_list_reads_back(a: BinaryInput)
    ensures
        forall|i: int| 0 <= i < a.property_list().len() ==> #[trigger] a.property(a.property_list()[i].0) == Some(
            a.property_list()[i].1,
        ),
{
}

} // verus!
