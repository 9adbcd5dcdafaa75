//! Analog Value object (ASHRAE 135 Clause 12.4): like an Analog Input, but
//! its present value is always writable.  Real values are held as their
//! IEEE-754 single-precision bit patterns.
use vstd::prelude::*;
use std::time::{Duration, Instant, SystemTime};
use crate::object::analog_input::REAL_0_1;
use crate::object::clock::{instant_gt, instant_after, instant_now};
use crate::object::property::{clear_flags, no_flags, entry, props_view, read_outcome, status_bits, status_flags_bits, BacnetObject};
use crate::types::{
    event_state_code, reliability_code, units_code, BacnetError, DeviceId, EngineeringUnits, EventState, ObjectId,
    ObjectType, PValue, PropertyIdentifier, PropertyValue, Reliability, StatusFlags,
};

verus! {

pub struct AnalogValue {
    pub device_id: DeviceId,
    pub object_id: ObjectId,
    pub object_name: String,
    pub description: String,
    pub present_value: u32,
    pub status_flags: StatusFlags,
    pub event_state: EventState,
    pub reliability: Reliability,
    pub out_of_service: bool,
    pub units: EngineeringUnits,
    pub cov_increment: u32,
    pub last_changed: Instant,
}

impl AnalogValue {
    /// A fresh value object: present value 0.0, in service, COV increment 0.1.
    pub fn new(device_id: DeviceId, instance: u32, name: &str, units: EngineeringUnits) -> (r: AnalogValue)
        ensures
            r.device_id == device_id,
            r.object_id == (ObjectId { object_type: ObjectType::AnalogValue, instance }),
            r.object_name@ == name@,
            r.description@ == Seq::<char>::empty(),
            r.present_value == 0,
            r.status_flags == no_flags(),
            r.event_state == EventState::Normal,
            r.reliability == Reliability::NoFaultDetected,
            !r.out_of_service,
            r.units == units,
            r.cov_increment == REAL_0_1,
    {
        AnalogValue {
            device_id,
            object_id: ObjectId { object_type: ObjectType::AnalogValue, instance },
            object_name: String::from_str(name),
            description: String::new(),
            present_value: 0,
            status_flags: clear_flags(),
            event_state: EventState::Normal,
            reliability: Reliability::NoFaultDetected,
            out_of_service: false,
            units,
            cov_increment: REAL_0_1,
            last_changed: instant_now(),
        }
    }

    /// The value of property `p`, `None` when the object has no such property.
    pub open spec fn property(&self, p: PropertyIdentifier) -> Option<PValue> {
        match p {
            PropertyIdentifier::ObjectIdentifier => Some(PValue::ObjectId(self.object_id)),
            PropertyIdentifier::ObjectName => Some(PValue::CharacterString(self.object_name@)),
            PropertyIdentifier::ObjectType => Some(PValue::Enumerated(2)),
            PropertyIdentifier::Description => Some(PValue::CharacterString(self.description@)),
            PropertyIdentifier::PresentValue => Some(PValue::Real(self.present_value)),
            PropertyIdentifier::StatusFlags => Some(PValue::BitString(status_bits(self.status_flags))),
            PropertyIdentifier::EventState => Some(PValue::Enumerated(event_state_code(self.event_state))),
            PropertyIdentifier::Reliability => Some(PValue::Enumerated(reliability_code(self.reliability))),
            PropertyIdentifier::OutOfService => Some(PValue::Boolean(self.out_of_service)),
            PropertyIdentifier::Units => Some(PValue::Enumerated(units_code(self.units))),
            PropertyIdentifier::CovIncrement => Some(PValue::Real(self.cov_increment)),
            _ => None,
        }
    }

    /// The properties listed for RPM `ALL`, in order.
    pub open spec fn property_list(&self) -> Seq<(PropertyIdentifier, PValue)> {
        seq![
            (PropertyIdentifier::ObjectIdentifier, PValue::ObjectId(self.object_id)),
            (PropertyIdentifier::ObjectName, PValue::CharacterString(self.object_name@)),
            (PropertyIdentifier::ObjectType, PValue::Enumerated(2)),
            (PropertyIdentifier::Description, PValue::CharacterString(self.description@)),
            (PropertyIdentifier::PresentValue, PValue::Real(self.present_value)),
            (PropertyIdentifier::StatusFlags, PValue::BitString(status_bits(self.status_flags))),
            (PropertyIdentifier::EventState, PValue::Enumerated(event_state_code(self.event_state))),
            (PropertyIdentifier::Reliability, PValue::Enumerated(reliability_code(self.reliability))),
            (PropertyIdentifier::OutOfService, PValue::Boolean(self.out_of_service)),
            (PropertyIdentifier::Units, PValue::Enumerated(units_code(self.units))),
            (PropertyIdentifier::CovIncrement, PValue::Real(self.cov_increment)),
        ]
    }

    /// The effect of a write: `Ok` with the new state, or the error.  The
    /// instant of the last change is left as it was; a present-value write
    /// renews it.
    pub open spec fn write_effect(&self, p: PropertyIdentifier, v: PValue) -> Result<AnalogValue, BacnetError> {
        match p {
            PropertyIdentifier::PresentValue => match v {
                PValue::Real(b) => Ok(AnalogValue { present_value: b, ..*self }),
                _ => Err(BacnetError::InvalidDataType),
            },
            PropertyIdentifier::OutOfService => match v {
                PValue::Boolean(b) => Ok(AnalogValue { out_of_service: b, ..*self }),
                _ => Err(BacnetError::InvalidDataType),
            },
            PropertyIdentifier::Description => match v {
                PValue::CharacterString(_) => Ok(*self),
                _ => Err(BacnetError::InvalidDataType),
            },
            _ => Err(BacnetError::WriteAccessDenied),
        }
    }

    /// Whether `new` and `r` are what a write of `v` to `p` leaves.
    pub open spec fn write_outcome(&self, p: PropertyIdentifier, v: PropertyValue, new: AnalogValue, r: Result<(), BacnetError>) -> bool {
        match self.write_effect(p, v@) {
            Ok(s) => {
                &&& r is Ok
                &&& new == (AnalogValue { last_changed: new.last_changed, description: new.description, ..s })
                &&& (p == PropertyIdentifier::Description ==> (v matches PropertyValue::CharacterString(t) && new.description@ == t@))
                &&& (p != PropertyIdentifier::Description ==> new.description == self.description)
                &&& (p != PropertyIdentifier::PresentValue ==> new.last_changed == self.last_changed)
            },
            Err(e) => r == Err::<(), BacnetError>(e) && new == *self,
        }
    }
}

impl BacnetObject for AnalogValue {
    fn object_id(&self) -> (r: ObjectId)
        ensures
            r == self.object_id,
    {
        self.object_id
    }

    fn device_id(&self) -> (r: DeviceId)
        ensures
            r == self.device_id,
    {
        self.device_id
    }

    fn read_property(&self, property_id: PropertyIdentifier, array_index: Option<u32>) -> (r: Result<PropertyValue, BacnetError>)
        ensures
            read_outcome(r, self.property(property_id)),
    {
        match property_id {
            PropertyIdentifier::ObjectIdentifier => Ok(PropertyValue::ObjectId(self.object_id)),
            PropertyIdentifier::ObjectName => Ok(PropertyValue::CharacterString(self.object_name.clone())),
            PropertyIdentifier::ObjectType => Ok(PropertyValue::Enumerated(ObjectType::AnalogValue.to_u32())),
            PropertyIdentifier::Description => Ok(PropertyValue::CharacterString(self.description.clone())),
            PropertyIdentifier::PresentValue => Ok(PropertyValue::Real(self.present_value)),
            PropertyIdentifier::StatusFlags => Ok(PropertyValue::BitString(status_flags_bits(&self.status_flags))),
            PropertyIdentifier::EventState => Ok(PropertyValue::Enumerated(self.event_state.to_u32())),
            PropertyIdentifier::Reliability => Ok(PropertyValue::Enumerated(self.reliability.to_u32())),
            PropertyIdentifier::OutOfService => Ok(PropertyValue::Boolean(self.out_of_service)),
            PropertyIdentifier::Units => Ok(PropertyValue::Enumerated(self.units.to_u32())),
            PropertyIdentifier::CovIncrement => Ok(PropertyValue::Real(self.cov_increment)),
            _ => Err(BacnetError::UnknownProperty),
        }
    }

    /// Present value, Out_Of_Service and Description are writable.
    fn write_property(&mut self, property_id: PropertyIdentifier, array_index: Option<u32>, value: PropertyValue, priority: Option<u8>) -> (r: Result<(), BacnetError>)
        ensures
            old(self).write_outcome(property_id, value, *final(self), r),
    {
        match property_id {
            PropertyIdentifier::PresentValue => match value {
                PropertyValue::Real(b) => {
                    self.present_value = b;
                    self.last_changed = instant_now();
                    Ok(())
                },
                _ => Err(BacnetError::InvalidDataType),
            },
            PropertyIdentifier::OutOfService => match value {
                PropertyValue::Boolean(b) => {
                    self.out_of_service = b;
                    Ok(())
                },
                _ => Err(BacnetError::InvalidDataType),
            },
            PropertyIdentifier::Description => match value {
                PropertyValue::CharacterString(s) => {
                    self.description = s;
                    Ok(())
                },
                _ => Err(BacnetError::InvalidDataType),
            },
            _ => Err(BacnetError::WriteAccessDenied),
        }
    }

    /// No guard to pass: the same as a client write.
    fn force_write_property(&mut self, property_id: PropertyIdentifier, value: PropertyValue) -> (r: Result<(), BacnetError>)
        ensures
            old(self).write_outcome(property_id, value, *final(self), r),
    {
        self.write_property(property_id, None, value, None)
    }

    fn tick(&mut self, now: SystemTime, delta: Duration)
        ensures
            *final(self) == *old(self),
    {
    }

    fn changed_since(&self, since: Instant) -> (r: Vec<PropertyIdentifier>)
        ensures
            r@ == (if instant_gt(self.last_changed, since) {
                seq![PropertyIdentifier::PresentValue]
            } else {
                Seq::empty()
            }),
    {
        if instant_after(&self.last_changed, &since) {
            let r = vec![PropertyIdentifier::PresentValue];
            assert(r@ =~= seq![PropertyIdentifier::PresentValue]);
            r
        } else {
            Vec::new()
        }
    }

    fn all_properties(&self) -> (r: Vec<(PropertyIdentifier, PropertyValue)>)
        ensures
            props_view(r@) == self.property_list(),
    {
        let mut props: Vec<(PropertyIdentifier, PropertyValue)> = Vec::new();
        props.push(entry(PropertyIdentifier::ObjectIdentifier, PropertyValue::ObjectId(self.object_id)));
        props.push(entry(PropertyIdentifier::ObjectName, PropertyValue::CharacterString(self.object_name.clone())));
        props.push(entry(PropertyIdentifier::ObjectType, PropertyValue::Enumerated(ObjectType::AnalogValue.to_u32())));
        props.push(entry(PropertyIdentifier::Description, PropertyValue::CharacterString(self.description.clone())));
        props.push(entry(PropertyIdentifier::PresentValue, PropertyValue::Real(self.present_value)));
        props.push(entry(PropertyIdentifier::StatusFlags, PropertyValue::BitString(status_flags_bits(&self.status_flags))));
        props.push(entry(PropertyIdentifier::EventState, PropertyValue::Enumerated(self.event_state.to_u32())));
        props.push(entry(PropertyIdentifier::Reliability, PropertyValue::Enumerated(self.reliability.to_u32())));
        props.push(entry(PropertyIdentifier::OutOfService, PropertyValue::Boolean(self.out_of_service)));
        props.push(entry(PropertyIdentifier::Units, PropertyValue::Enumerated(self.units.to_u32())));
        props.push(entry(PropertyIdentifier::CovIncrement, PropertyValue::Real(self.cov_increment)));
        assert(props_view(props@) =~= self.property_list());
        props
    }
}

/// Every property that RPM `ALL` lists reads back as the value it is listed
/// with.
pub proof fn lemma_analog_value_list_reads_back(a: AnalogValue)
    ensures
        forall|i: int| 0 <= i < a.property_list().len() ==> #[trigger] a.property(a.property_list()[i].0) == Some(
            a.property_list()[i].1,
        ),
{
}

} // verus!
