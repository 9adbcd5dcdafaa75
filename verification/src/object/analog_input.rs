//! Analog Input object (ASHRAE 135 Clause 12.2).  Real values are held as
//! their IEEE-754 single-precision bit patterns.
use vstd::prelude::*;
use std::time::{Duration, Instant, SystemTime};
use crate::object::clock::{instant_ge, instant_not_before, instant_now};
use crate::object::property::{clear_flags, no_flags, entry, props_view, read_outcome, status_bits, status_flags_bits, BacnetObject};
use crate::types::{
    event_state_code, reliability_code, units_code, BacnetError, DeviceId, EngineeringUnits, EventState, ObjectId,
    ObjectType, PValue, PropertyIdentifier, PropertyValue, Reliability, StatusFlags,
};

verus! {

/// The bit pattern of the single-precision number 0.1.
pub const REAL_0_1: u32 = 0x3DCC_CCCD;

pub struct AnalogInput {
    pub device_id: DeviceId,
    pub object_id: ObjectId,
    pub object_name: String,
    pub description: String,
    pub present_value: u32,
    pub status_flags: StatusFlags,
    pub event_state: EventState,
    pub reliability: Reliability,
    pub out_of_service: bool,
    pub units: EngineeringUnits,
    pub min_present_value: Option<u32>,
    pub max_present_value: Option<u32>,
    pub cov_increment: u32,
    pub time_delay: u32,
    pub notification_class: Option<u32>,
    pub high_limit: Option<u32>,
    pub low_limit: Option<u32>,
    pub deadband: u32,
    pub profile_name: Option<String>,
    pub last_cov_val: u32,
    pub last_changed: Instant,
}

/// An optional Real property: absent when the option is empty.
pub open spec fn opt_real(v: Option<u32>) -> Option<PValue> {
    match v {
        Some(b) => Some(PValue::Real(b)),
        None => None,
    }
}

impl AnalogInput {
    /// A fresh input: present value 0.0, in service, no fault, COV increment
    /// 0.1, no limits.
    pub fn new(device_id: DeviceId, instance: u32, name: &str, units: EngineeringUnits) -> (r: AnalogInput)
        ensures
            r.device_id == device_id,
            r.object_id == (ObjectId { object_type: ObjectType::AnalogInput, instance }),
            r.object_name@ == name@,
            r.description@ == Seq::<char>::empty(),
            r.present_value == 0,
            r.status_flags == no_flags(),
            r.event_state == EventState::Normal,
            r.reliability == Reliability::NoFaultDetected,
            !r.out_of_service,
            r.units == units,
            r.min_present_value is None,
            r.max_present_value is None,
            r.cov_increment == REAL_0_1,
            r.time_delay == 0,
            r.notification_class is None,
            r.high_limit is None,
            r.low_limit is None,
            r.deadband == 0,
            r.profile_name is None,
            r.last_cov_val == 0,
    {
        AnalogInput {
            device_id,
            object_id: ObjectId { object_type: ObjectType::AnalogInput, instance },
            object_name: String::from_str(name),
            description: String::new(),
            present_value: 0,
            status_flags: clear_flags(),
            event_state: EventState::Normal,
            reliability: Reliability::NoFaultDetected,
            out_of_service: false,
            units,
            min_present_value: None,
            max_present_value: None,
            cov_increment: REAL_0_1,
            time_delay: 0,
            notification_class: None,
            high_limit: None,
            low_limit: None,
            deadband: 0,
            profile_name: None,
            last_cov_val: 0,
            last_changed: instant_now(),
        }
    }

    /// The value of property `p`, `None` when the object has no such
    /// property (the limits only when they are set).
    pub open spec fn property(&self, p: PropertyIdentifier) -> Option<PValue> {
        match p {
            PropertyIdentifier::ObjectIdentifier => Some(PValue::ObjectId(self.object_id)),
            PropertyIdentifier::ObjectName => Some(PValue::CharacterString(self.object_name@)),
            PropertyIdentifier::ObjectType => Some(PValue::Enumerated(0)),
            PropertyIdentifier::PresentValue => Some(PValue::Real(self.present_value)),
            PropertyIdentifier::StatusFlags => Some(PValue::BitString(status_bits(self.status_flags))),
            PropertyIdentifier::EventState => Some(PValue::Enumerated(event_state_code(self.event_state))),
            PropertyIdentifier::Reliability => Some(PValue::Enumerated(reliability_code(self.reliability))),
            PropertyIdentifier::OutOfService => Some(PValue::Boolean(self.out_of_service)),
            PropertyIdentifier::Units => Some(PValue::Enumerated(units_code(self.units))),
            PropertyIdentifier::Description => Some(PValue::CharacterString(self.description@)),
            PropertyIdentifier::CovIncrement => Some(PValue::Real(self.cov_increment)),
            PropertyIdentifier::HighLimit => opt_real(self.high_limit),
            PropertyIdentifier::LowLimit => opt_real(self.low_limit),
            _ => None,
        }
    }

    /// The properties listed for RPM `ALL`, in order.
    pub open spec fn property_list(&self) -> Seq<(PropertyIdentifier, PValue)> {
        seq![
            (PropertyIdentifier::ObjectIdentifier, PValue::ObjectId(self.object_id)),
            (PropertyIdentifier::ObjectName, PValue::CharacterString(self.object_name@)),
            (PropertyIdentifier::ObjectType, PValue::Enumerated(0)),
            (PropertyIdentifier::PresentValue, PValue::Real(self.present_value)),
            (PropertyIdentifier::StatusFlags, PValue::BitString(status_bits(self.status_flags))),
            (PropertyIdentifier::EventState, PValue::Enumerated(event_state_code(self.event_state))),
            (PropertyIdentifier::Reliability, PValue::Enumerated(reliability_code(self.reliability))),
            (PropertyIdentifier::OutOfService, PValue::Boolean(self.out_of_service)),
            (PropertyIdentifier::Units, PValue::Enumerated(units_code(self.units))),
            (PropertyIdentifier::Description, PValue::CharacterString(self.description@)),
            (PropertyIdentifier::CovIncrement, PValue::Real(self.cov_increment)),
        ] + match self.high_limit {
            Some(b) => seq![(PropertyIdentifier::HighLimit, PValue::Real(b))],
            None => Seq::empty(),
        } + match self.low_limit {
            Some(b) => seq![(PropertyIdentifier::LowLimit, PValue::Real(b))],
            None => Seq::empty(),
        }
    }

    /// The effect of a write: `Ok` with the new state, or the error.  The
    /// instant of the last change is left as it was; a present-value write
    /// renews it.  Numeric properties take a `Real` only; other
    /// numeric values are refused with `InvalidDataType`.
    pub open spec fn write_effect(&self, p: PropertyIdentifier, v: PValue, forced: bool) -> Result<AnalogInput, BacnetError> {
        match p {
            PropertyIdentifier::OutOfService => match v {
                PValue::Boolean(b) => Ok(AnalogInput { out_of_service: b, ..*self }),
                _ => Err(BacnetError::InvalidDataType),
            },
            PropertyIdentifier::PresentValue => if !self.out_of_service && !forced {
                Err(BacnetError::WriteAccessDenied)
            } else {
                match v {
                    PValue::Real(b) => Ok(AnalogInput { present_value: b, ..*self }),
                    _ => Err(BacnetError::InvalidDataType),
                }
            },
            PropertyIdentifier::CovIncrement => match v {
                PValue::Real(b) => Ok(AnalogInput { cov_increment: b, ..*self }),
                _ => Err(BacnetError::InvalidDataType),
            },
            PropertyIdentifier::Description => match v {
                PValue::CharacterString(_) => Ok(*self),
                _ => Err(BacnetError::InvalidDataType),
            },
            _ => Err(BacnetError::WriteAccessDenied),
        }
    }

    /// Whether `new` and `r` are what a write of `v` to `p` leaves.
    pub open spec fn write_outcome(&self, p: PropertyIdentifier, v: PropertyValue, forced: bool, new: AnalogInput, r: Result<(), BacnetError>) -> bool {
        match self.write_effect(p, v@, forced) {
            Ok(s) => {
                &&& r is Ok
                &&& new == (AnalogInput { last_changed: new.last_changed, description: new.description, ..s })
                &&& (p == PropertyIdentifier::Description ==> (v matches PropertyValue::CharacterString(t) && new.description@ == t@))
                &&& (p != PropertyIdentifier::Description ==> new.description == self.description)
                &&& (p != PropertyIdentifier::PresentValue ==> new.last_changed == self.last_changed)
            },
            Err(e) => r == Err::<(), BacnetError>(e) && new == *self,
        }
    }

    fn write_impl(&mut self, property_id: PropertyIdentifier, value: PropertyValue, forced: bool) -> (r: Result<(), BacnetError>)
        ensures
            old(self).write_outcome(property_id, value, forced, *final(self), r),
    {
        match property_id {
            PropertyIdentifier::OutOfService => match value {
                PropertyValue::Boolean(b) => {
                    self.out_of_service = b;
                    Ok(())
                },
                _ => Err(BacnetError::InvalidDataType),
            },
            PropertyIdentifier::PresentValue => {
                if !self.out_of_service && !forced {
                    return Err(BacnetError::WriteAccessDenied);
                }
                match value {
                    PropertyValue::Real(b) => {
                        self.present_value = b;
                        self.last_changed = instant_now();
                        Ok(())
                    },
                    _ => Err(BacnetError::InvalidDataType),
                }
            },
            PropertyIdentifier::CovIncrement => match value {
                PropertyValue::Real(b) => {
                    self.cov_increment = b;
                    Ok(())
                },
                _ => Err(BacnetError::InvalidDataType),
            },
            PropertyIdentifier::Description => match value {
                PropertyValue::CharacterString(s) => {
                    self.description = s;
                    Ok(())
                },
                _ => Err(BacnetError::InvalidDataType),
            },
            _ => Err(BacnetError::WriteAccessDenied),
        }
    }
}

impl BacnetObject for AnalogInput {
    fn object_id(&self) -> (r: ObjectId)
        ensures
            r == self.object_id,
    {
        self.object_id
    }

    fn device_id(&self) -> (r: DeviceId)
        ensures
            r == self.device_id,
    {
        self.device_id
    }

    fn read_property(&self, property_id: PropertyIdentifier, array_index: Option<u32>) -> (r: Result<PropertyValue, BacnetError>)
        ensures
            read_outcome(r, self.property(property_id)),
    {
        match property_id {
            PropertyIdentifier::ObjectIdentifier => Ok(PropertyValue::ObjectId(self.object_id)),
            PropertyIdentifier::ObjectName => Ok(PropertyValue::CharacterString(self.object_name.clone())),
            PropertyIdentifier::ObjectType => Ok(PropertyValue::Enumerated(ObjectType::AnalogInput.to_u32())),
            PropertyIdentifier::PresentValue => Ok(PropertyValue::Real(self.present_value)),
            PropertyIdentifier::StatusFlags => Ok(PropertyValue::BitString(status_flags_bits(&self.status_flags))),
            PropertyIdentifier::EventState => Ok(PropertyValue::Enumerated(self.event_state.to_u32())),
            PropertyIdentifier::Reliability => Ok(PropertyValue::Enumerated(self.reliability.to_u32())),
            PropertyIdentifier::OutOfService => Ok(PropertyValue::Boolean(self.out_of_service)),
            PropertyIdentifier::Units => Ok(PropertyValue::Enumerated(self.units.to_u32())),
            PropertyIdentifier::Description => Ok(PropertyValue::CharacterString(self.description.clone())),
            PropertyIdentifier::CovIncrement => Ok(PropertyValue::Real(self.cov_increment)),
            PropertyIdentifier::HighLimit => match self.high_limit {
                Some(b) => Ok(PropertyValue::Real(b)),
                None => Err(BacnetError::UnknownProperty),
            },
            PropertyIdentifier::LowLimit => match self.low_limit {
                Some(b) => Ok(PropertyValue::Real(b)),
                None => Err(BacnetError::UnknownProperty),
            },
            _ => Err(BacnetError::UnknownProperty),
        }
    }

    /// Out_Of_Service, CovIncrement and Description are writable; the
    /// present value only while out of service.  Present value and COV
    /// increment take a `Real` only: this library holds no floating-point
    /// arithmetic, so a `Double`, `Unsigned` or `Integer` value, which would
    /// need converting to single precision, is refused with
    /// `InvalidDataType`.
    fn write_property(&mut self, property_id: PropertyIdentifier, array_index: Option<u32>, value: PropertyValue, priority: Option<u8>) -> (r: Result<(), BacnetError>)
        ensures
            old(self).write_outcome(property_id, value, false, *final(self), r),
    {
        self.write_impl(property_id, value, false)
    }

    fn force_write_property(&mut self, property_id: PropertyIdentifier, value: PropertyValue) -> (r: Result<(), BacnetError>)
        ensures
            old(self).write_outcome(property_id, value, true, *final(self), r),
    {
        self.write_impl(property_id, value, true)
    }

    /// The value model drives the present value; a tick changes nothing.
    fn tick(&mut self, now: SystemTime, delta: Duration)
        ensures
            *final(self) == *old(self),
    {
    }

    fn changed_since(&self, since: Instant) -> (r: Vec<PropertyIdentifier>)
        ensures
            r@ == (if instant_ge(self.last_changed, since) {
                seq![PropertyIdentifier::PresentValue, PropertyIdentifier::StatusFlags]
            } else {
                Seq::empty()
            }),
    {
        if instant_not_before(&self.last_changed, &since) {
            let r = vec![PropertyIdentifier::PresentValue, PropertyIdentifier::StatusFlags];
            assert(r@ =~= seq![PropertyIdentifier::PresentValue, PropertyIdentifier::StatusFlags]);
            r
        } else {
            Vec::new()
        }
    }

    fn all_properties(&self) -> (r: Vec<(PropertyIdentifier, PropertyValue)>)
        ensures
            props_view(r@) == self.property_list(),
    {
        let mut props: Vec<(PropertyIdentifier, PropertyValue)> = Vec::new();
        props.push(entry(PropertyIdentifier::ObjectIdentifier, PropertyValue::ObjectId(self.object_id)));
        props.push(entry(PropertyIdentifier::ObjectName, PropertyValue::CharacterString(self.object_name.clone())));
        props.push(entry(PropertyIdentifier::ObjectType, PropertyValue::Enumerated(ObjectType::AnalogInput.to_u32())));
        props.push(entry(PropertyIdentifier::PresentValue, PropertyValue::Real(self.present_value)));
        props.push(entry(PropertyIdentifier::StatusFlags, PropertyValue::BitString(status_flags_bits(&self.status_flags))));
        props.push(entry(PropertyIdentifier::EventState, PropertyValue::Enumerated(self.event_state.to_u32())));
        props.push(entry(PropertyIdentifier::Reliability, PropertyValue::Enumerated(self.reliability.to_u32())));
        props.push(entry(PropertyIdentifier::OutOfService, PropertyValue::Boolean(self.out_of_service)));
        props.push(entry(PropertyIdentifier::Units, PropertyValue::Enumerated(self.units.to_u32())));
        props.push(entry(PropertyIdentifier::Description, PropertyValue::CharacterString(self.description.clone())));
        props.push(entry(PropertyIdentifier::CovIncrement, PropertyValue::Real(self.cov_increment)));
        if let Some(hi) = self.high_limit {
            props.push(entry(PropertyIdentifier::HighLimit, PropertyValue::Real(hi)));
        }
        if let Some(lo) = self.low_limit {
            props.push(entry(PropertyIdentifier::LowLimit, PropertyValue::Real(lo)));
        }
        assert(props_view(props@) =~= self.property_list());
        props
    }
}

/// Every property that RPM `ALL` lists reads back as the value it is listed
/// with.
pub proof fn lemma_analog_input_list_reads_back(a: AnalogInput)
    ensures
        forall|i: int| 0 <= i < a.property_list().len() ==> #[trigger] a.property(a.property_list()[i].0) == Some(
            a.property_list()[i].1,
        ),
{
}

} // verus!
