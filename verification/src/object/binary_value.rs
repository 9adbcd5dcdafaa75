//! Binary Value object (ASHRAE 135 Clause 12.8): a writable boolean.
use vstd::prelude::*;
use std::time::{Duration, Instant, SystemTime};
use crate::object::clock::{instant_ge, instant_gt, instant_after, instant_not_before, instant_now};
use crate::object::property::{clear_flags, no_flags, entry, props_view, read_outcome, status_bits, status_flags_bits, BacnetObject};
use crate::types::{
    event_state_code, reliability_code, BacnetError, DeviceId, EventState, ObjectId,
    ObjectType, PValue, PropertyIdentifier, PropertyValue, Reliability, StatusFlags,
};

verus! {

pub struct BinaryValue {
    pub device_id: DeviceId,
    pub object_id: ObjectId,
    pub object_name: String,
    pub description: String,
    pub present_value: bool,
    pub out_of_service: bool,
    pub status_flags: StatusFlags,
    pub event_state: EventState,
    pub reliability: Reliability,
    pub last_changed: Instant,
}

impl BinaryValue {
    /// A fresh value object: inactive, in service.
    pub fn new(device_id: DeviceId, instance: u32, name: &str) -> (r: BinaryValue)
        ensures
            r.device_id == device_id,
            r.object_id == (ObjectId { object_type: ObjectType::BinaryValue, instance }),
            r.object_name@ == name@,
            r.description@ == Seq::<char>::empty(),
            !r.present_value,
            !r.out_of_service,
            r.status_flags == no_flags(),
            r.event_state == EventState::Normal,
            r.reliability == Reliability::NoFaultDetected,
    {
        BinaryValue {
            device_id,
            object_id: ObjectId { object_type: ObjectType::BinaryValue, instance },
            object_name: String::from_str(name),
            description: String::new(),
            present_value: false,
            out_of_service: false,
            status_flags: clear_flags(),
            event_state: EventState::Normal,
            reliability: Reliability::NoFaultDetected,
            last_changed: instant_now(),
        }
    }

    /// The value of property `p`, `None` when the object has no such property.
    pub open spec fn property(&self, p: PropertyIdentifier) -> Option<PValue> {
        match p {
            PropertyIdentifier::ObjectIdentifier => Some(PValue::ObjectId(self.object_id)),
            PropertyIdentifier::ObjectName => Some(PValue::CharacterString(self.object_name@)),
            PropertyIdentifier::ObjectType => Some(PValue::Enumerated(5)),
            PropertyIdentifier::Description => Some(PValue::CharacterString(self.description@)),
            PropertyIdentifier::PresentValue => Some(PValue::Boolean(self.present_value)),
            PropertyIdentifier::StatusFlags => Some(PValue::BitString(status_bits(self.status_flags))),
            PropertyIdentifier::EventState => Some(PValue::Enumerated(event_state_code(self.event_state))),
            PropertyIdentifier::Reliability => Some(PValue::Enumerated(reliability_code(self.reliability))),
            PropertyIdentifier::OutOfService => Some(PValue::Boolean(self.out_of_service)),
            _ => None,
        }
    }

    /// The properties listed for RPM `ALL`, in order.
    pub open spec fn property_list(&self) -> Seq<(PropertyIdentifier, PValue)> {
        seq![
            (PropertyIdentifier::ObjectIdentifier, PValue::ObjectId(self.object_id)),
            (PropertyIdentifier::ObjectName, PValue::CharacterString(self.object_name@)),
            (PropertyIdentifier::ObjectType, PValue::Enumerated(5)),
            (PropertyIdentifier::Description, PValue::CharacterString(self.description@)),
            (PropertyIdentifier::PresentValue, PValue::Boolean(self.present_value)),
            (PropertyIdentifier::StatusFlags, PValue::BitString(status_bits(self.status_flags))),
            (PropertyIdentifier::EventState, PValue::Enumerated(event_state_code(self.event_state))),
            (PropertyIdentifier::Reliability, PValue::Enumerated(reliability_code(self.reliability))),
            (PropertyIdentifier::OutOfService, PValue::Boolean(self.out_of_service)),
        ]
    }

    /// Whether `new` and `r` are what a write of `v` to `p` leaves.  A
    /// present-value write takes a Boolean, or an Enumerated or Unsigned
    /// number (non-zero meaning active), and renews the change instant.
    pub open spec fn write_outcome(&self, p: PropertyIdentifier, v: PropertyValue, new: BinaryValue, r: Result<(), BacnetError>) -> bool {
        match p {
            PropertyIdentifier::PresentValue => match v {
                PropertyValue::Boolean(b) => r is Ok && new == (BinaryValue { present_value: b, last_changed: new.last_changed, ..*self }),
                PropertyValue::Enumerated(n) => r is Ok && new == (BinaryValue { present_value: n != 0, last_changed: new.last_changed, ..*self }),
                PropertyValue::Unsigned(n) => r is Ok && new == (BinaryValue { present_value: n != 0, last_changed: new.last_changed, ..*self }),
                _ => r == Err::<(), BacnetError>(BacnetError::InvalidDataType) && new == *self,
            },
            PropertyIdentifier::OutOfService => match v {
                PropertyValue::Boolean(b) => r is Ok && new == (BinaryValue { out_of_service: b, ..*self }),
                _ => r == Err::<(), BacnetError>(BacnetError::InvalidDataType) && new == *self,
            },
            _ => r == Err::<(), BacnetError>(BacnetError::WriteAccessDenied) && new == *self,
        }
    }
}

impl BacnetObject for BinaryValue {
    fn object_id(&self) -> (r: ObjectId)
        ensures
            r == self.object_id,
    {
        self.object_id
    }

    fn device_id(&self) -> (r: DeviceId)
        ensures
            r == self.device_id,
    {
        self.device_id
    }
    fn read_property(&self, property_id: PropertyIdentifier, array_index: Option<u32>) -> (r: Result<PropertyValue, BacnetError>)
        ensures
            read_outcome(r, self.property(property_id)),
    {
        match property_id {
            PropertyIdentifier::ObjectIdentifier => Ok(PropertyValue::ObjectId(self.object_id)),
            PropertyIdentifier::ObjectName => Ok(PropertyValue::CharacterString(self.object_name.clone())),
            PropertyIdentifier::ObjectType => Ok(PropertyValue::Enumerated(ObjectType::BinaryValue.to_u32())),
            PropertyIdentifier::Description => Ok(PropertyValue::CharacterString(self.description.clone())),
            PropertyIdentifier::PresentValue => Ok(PropertyValue::Boolean(self.present_value)),
            PropertyIdentifier::StatusFlags => Ok(PropertyValue::BitString(status_flags_bits(&self.status_flags))),
            PropertyIdentifier::EventState => Ok(PropertyValue::Enumerated(self.event_state.to_u32())),
            PropertyIdentifier::Reliability => Ok(PropertyValue::Enumerated(self.reliability.to_u32())),
            PropertyIdentifier::OutOfService => Ok(PropertyValue::Boolean(self.out_of_service)),
            _ => Err(BacnetError::UnknownProperty),
        }
    }

    /// Present value and Out_Of_Service are writable.
    fn write_property(&mut self, property_id: PropertyIdentifier, array_index: Option<u32>, value: PropertyValue, priority: Option<u8>) -> (r: Result<(), BacnetError>)
        ensures
            old(self).write_outcome(property_id, value, *final(self), r),
    {
        match property_id {
            PropertyIdentifier::PresentValue => match value {
                PropertyValue::Boolean(b) => {
                    self.present_value = b;
                    self.last_changed = instant_now();
                    Ok(())
                },
                PropertyValue::Enumerated(n) => {
                    self.present_value = n != 0;
                    self.last_changed = instant_now();
                    Ok(())
                },
                PropertyValue::Unsigned(n) => {
                    self.present_value = n != 0;
                    self.last_changed = instant_now();
                    Ok(())
                },
                _ => Err(BacnetError::InvalidDataType),
            },
            PropertyIdentifier::OutOfService => match value {
                PropertyValue::Boolean(b) => {
                    self.out_of_service = b;
                    Ok(())
                },
                _ => Err(BacnetError::InvalidDataType),
            },
            _ => Err(BacnetError::WriteAccessDenied),
        }
    }

    /// No guard to pass: the same as a client write.
    fn force_write_property(&mut self, property_id: PropertyIdentifier, value: PropertyValue) -> (r: Result<(), BacnetError>)
        ensures
            old(self).write_outcome(property_id, value, *final(self), r),
    {
        self.write_property(property_id, None, value, None)
    }

    fn tick(&mut self, now: SystemTime, delta: Duration)
        ensures
            *final(self) == *old(self),
    {
    }
    fn changed_since(&self, since: Instant) -> (r: Vec<PropertyIdentifier>)
        ensures
            r@ == (if instant_gt(self.last_changed, since) {
                seq![PropertyIdentifier::PresentValue]
            } else {
                Seq::empty()
            }),
    {
        if instant_after(&self.last_changed, &since) {
            let r = vec![PropertyIdentifier::PresentValue];
            assert(r@ =~= seq![PropertyIdentifier::PresentValue]);
            r
        } else {
            Vec::new()
        }
    }
    fn all_properties(&self) -> (r: Vec<(PropertyIdentifier, PropertyValue)>)
        ensures
            props_view(r@) == self.property_list(),
    {
        let mut props: Vec<(PropertyIdentifier, PropertyValue)> = Vec::new();
        props.push(entry(PropertyIdentifier::ObjectIdentifier, PropertyValue::ObjectId(self.object_id)));
        props.push(entry(PropertyIdentifier::ObjectName, PropertyValue::CharacterString(self.object_name.clone())));
        props.push(entry(PropertyIdentifier::ObjectType, PropertyValue::Enumerated(ObjectType::BinaryValue.to_u32())));
        props.push(entry(PropertyIdentifier::Description, PropertyValue::CharacterString(self.description.clone())));
        props.push(entry(PropertyIdentifier::PresentValue, PropertyValue::Boolean(self.present_value)));
        props.push(entry(PropertyIdentifier::StatusFlags, PropertyValue::BitString(status_flags_bits(&self.status_flags))));
        props.push(entry(PropertyIdentifier::EventState, PropertyValue::Enumerated(self.event_state.to_u32())));
        props.push(entry(PropertyIdentifier::Reliability, PropertyValue::Enumerated(self.reliability.to_u32())));
        props.push(entry(PropertyIdentifier::OutOfService, PropertyValue::Boolean(self.out_of_service)));
        assert(props_view(props@) =~= self.property_list());
        props
    }
}

/// Every property that RPM `ALL` lists reads back as the value it is listed
/// with.
pub proof fn lemma_binary_value_list_reads_back(a: BinaryValue)
    ensures
        forall|i: int| 0 <= i < a.property_list().len() ==> #[trigger] a.property(a.property_list()[i].0) == Some(
            a.property_list()[i].1,
        ),
{
}

} // verus!
