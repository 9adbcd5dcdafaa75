//! Multi-State Input object (ASHRAE 135 Clause 12.18): a read-only
//! enumerated sensor whose states are numbered from 1.
use vstd::prelude::*;
use std::time::{Duration, Instant, SystemTime};
use crate::object::clock::{instant_gt, instant_after, instant_now};
use crate::text::{decimal, decimal_text};
use crate::object::property::{clear_flags, no_flags, entry, props_view, read_outcome, status_bits, status_flags_bits, BacnetObject};
use crate::types::{
    event_state_code, reliability_code, BacnetError, DeviceId, EventState, ObjectId,
    ObjectType, PValue, PropertyIdentifier, PropertyValue, Reliability, StatusFlags,
};

verus! {

pub struct MultiStateInput {
    pub device_id: DeviceId,
    pub object_id: ObjectId,
    pub object_name: String,
    pub description: String,
    /// The state number, from 1.
    pub present_value: u32,
    pub number_of_states: u32,
    pub state_text: Vec<String>,
    pub out_of_service: bool,
    pub status_flags: StatusFlags,
    pub event_state: EventState,
    pub reliability: Reliability,
    pub last_changed: Instant,
}

/// The default text of state `i`: "State " and its number.
pub open spec fn state_label(i: u32) -> Seq<char> {
    seq!['S', 't', 'a', 't', 'e', ' '] + decimal(i as nat)
}

/// The default text of state `i`.
fn state_text_of(i: u32) -> (r: String)
    ensures
        r@ == state_label(i),
{
    let mut s = String::from_str("State ");
    let digits = decimal_text(i);
    s.append(digits.as_str());
    proof {
        reveal_strlit("State ");
    }
    assert(s@ =~= state_label(i));
    s
}

impl MultiStateInput {
    /// A fresh input in state 1, each state labelled "State n".
    pub fn new(device_id: DeviceId, instance: u32, name: &str, number_of_states: u32) -> (r: MultiStateInput)
        ensures
            r.device_id == device_id,
            r.object_id == (ObjectId { object_type: ObjectType::MultiStateInput, instance }),
            r.object_name@ == name@,
            r.description@ == Seq::<char>::empty(),
            r.present_value == 1,
            r.number_of_states == number_of_states,
            r.state_text@.len() == number_of_states,
            forall|i: int| 0 <= i < number_of_states ==> #[trigger] r.state_text@[i]@ == state_label((i + 1) as u32),
            !r.out_of_service,
            r.status_flags == no_flags(),
            r.event_state == EventState::Normal,
            r.reliability == Reliability::NoFaultDetected,
    {
        let mut state_text: Vec<String> = Vec::new();
        let mut i: u32 = 0;
        while i < number_of_states
            invariant
                i <= number_of_states,
                state_text@.len() == i,
                forall|k: int| 0 <= k < i ==> #[trigger] state_text@[k]@ == state_label((k + 1) as u32),
            decreases number_of_states - i,
        {
            state_text.push(state_text_of(i + 1));
            i = i + 1;
        }
        MultiStateInput {
            device_id,
            object_id: ObjectId { object_type: ObjectType::MultiStateInput, instance },
            object_name: String::from_str(name),
            description: String::new(),
            present_value: 1,
            number_of_states,
            state_text,
            out_of_service: false,
            status_flags: clear_flags(),
            event_state: EventState::Normal,
            reliability: Reliability::NoFaultDetected,
            last_changed: instant_now(),
        }
    }

    /// The value of property `p`, `None` when the object has no such property.
    pub open spec fn property(&self, p: PropertyIdentifier) -> Option<PValue> {
        match p {
            PropertyIdentifier::ObjectIdentifier => Some(PValue::ObjectId(self.object_id)),
            PropertyIdentifier::ObjectName => Some(PValue::CharacterString(self.object_name@)),
            PropertyIdentifier::ObjectType => Some(PValue::Enumerated(13)),
            PropertyIdentifier::Description => Some(PValue::CharacterString(self.description@)),
            PropertyIdentifier::PresentValue => Some(PValue::Unsigned(self.present_value)),
            PropertyIdentifier::NumberOfStates => Some(PValue::Unsigned(self.number_of_states)),
            PropertyIdentifier::StatusFlags => Some(PValue::BitString(status_bits(self.status_flags))),
            PropertyIdentifier::EventState => Some(PValue::Enumerated(event_state_code(self.event_state))),
            PropertyIdentifier::Reliability => Some(PValue::Enumerated(reliability_code(self.reliability))),
            PropertyIdentifier::OutOfService => Some(PValue::Boolean(self.out_of_service)),
            _ => None,
        }
    }

    /// The properties listed for RPM `ALL`, in order.
    pub open spec fn property_list(&self) -> Seq<(PropertyIdentifier, PValue)> {
        seq![
            (PropertyIdentifier::ObjectIdentifier, PValue::ObjectId(self.object_id)),
            (PropertyIdentifier::ObjectName, PValue::CharacterString(self.object_name@)),
            (PropertyIdentifier::ObjectType, PValue::Enumerated(13)),
            (PropertyIdentifier::Description, PValue::CharacterString(self.description@)),
            (PropertyIdentifier::PresentValue, PValue::Unsigned(self.present_value)),
            (PropertyIdentifier::NumberOfStates, PValue::Unsigned(self.number_of_states)),
            (PropertyIdentifier::StatusFlags, PValue::BitString(status_bits(self.status_flags))),
            (PropertyIdentifier::EventState, PValue::Enumerated(event_state_code(self.event_state))),
            (PropertyIdentifier::Reliability, PValue::Enumerated(reliability_code(self.reliability))),
            (PropertyIdentifier::OutOfService, PValue::Boolean(self.out_of_service)),
        ]
    }

    /// Whether `new` and `r` are what a write of `v` to `p` leaves; `forced`
    /// writes pass the out-of-service guard of the present value.  A present
    /// value must be an Unsigned state number in 1..=number_of_states.
    pub open spec fn write_outcome(&self, p: PropertyIdentifier, v: PropertyValue, forced: bool, new: MultiStateInput, r: Result<(), BacnetError>) -> bool {
        match p {
            PropertyIdentifier::OutOfService => match v {
                PropertyValue::Boolean(b) => r is Ok && new == (MultiStateInput { out_of_service: b, ..*self }),
                _ => r == Err::<(), BacnetError>(BacnetError::InvalidDataType) && new == *self,
            },
            PropertyIdentifier::PresentValue => if self.out_of_service || forced {
                match v {
                    PropertyValue::Unsigned(n) => if 1 <= n <= self.number_of_states {
                        r is Ok && new == (MultiStateInput { present_value: n, last_changed: new.last_changed, ..*self })
                    } else {
                        r == Err::<(), BacnetError>(BacnetError::ValueOutOfRange) && new == *self
                    },
                    _ => r == Err::<(), BacnetError>(BacnetError::InvalidDataType) && new == *self,
                }
            } else {
                r == Err::<(), BacnetError>(BacnetError::WriteAccessDenied) && new == *self
            },
            _ => r == Err::<(), BacnetError>(BacnetError::WriteAccessDenied) && new == *self,
        }
    }

    fn write_impl(&mut self, property_id: PropertyIdentifier, value: PropertyValue, forced: bool) -> (r: Result<(), BacnetError>)
        ensures
            old(self).write_outcome(property_id, value, forced, *final(self), r),
    {
        match property_id {
            PropertyIdentifier::OutOfService => match value {
                PropertyValue::Boolean(b) => {
                    self.out_of_service = b;
                    Ok(())
                },
                _ => Err(BacnetError::InvalidDataType),
            },
            PropertyIdentifier::PresentValue => {
                if !(self.out_of_service || forced) {
                    return Err(BacnetError::WriteAccessDenied);
                }
                match value {
                    PropertyValue::Unsigned(n) => {
                        if n >= 1 && n <= self.number_of_states {
                            self.present_value = n;
                            self.last_changed = instant_now();
                            Ok(())
                        } else {
                            Err(BacnetError::ValueOutOfRange)
                        }
                    },
                    _ => Err(BacnetError::InvalidDataType),
                }
            },
            _ => Err(BacnetError::WriteAccessDenied),
        }
    }
}

impl BacnetObject for MultiStateInput {
    fn object_id(&self) -> (r: ObjectId)
        ensures
            r == self.object_id,
    {
        self.object_id
    }

    fn device_id(&self) -> (r: DeviceId)
        ensures
            r == self.device_id,
    {
        self.device_id
    }

    fn read_property(&self, property_id: PropertyIdentifier, array_index: Option<u32>) -> (r: Result<PropertyValue, BacnetError>)
        ensures
            read_outcome(r, self.property(property_id)),
    {
        match property_id {
            PropertyIdentifier::ObjectIdentifier => Ok(PropertyValue::ObjectId(self.object_id)),
            PropertyIdentifier::ObjectName => Ok(PropertyValue::CharacterString(self.object_name.clone())),
            PropertyIdentifier::ObjectType => Ok(PropertyValue::Enumerated(ObjectType::MultiStateInput.to_u32())),
            PropertyIdentifier::Description => Ok(PropertyValue::CharacterString(self.description.clone())),
            PropertyIdentifier::PresentValue => Ok(PropertyValue::Unsigned(self.present_value)),
            PropertyIdentifier::NumberOfStates => Ok(PropertyValue::Unsigned(self.number_of_states)),
            PropertyIdentifier::StatusFlags => Ok(PropertyValue::BitString(status_flags_bits(&self.status_flags))),
            PropertyIdentifier::EventState => Ok(PropertyValue::Enumerated(self.event_state.to_u32())),
            PropertyIdentifier::Reliability => Ok(PropertyValue::Enumerated(self.reliability.to_u32())),
            PropertyIdentifier::OutOfService => Ok(PropertyValue::Boolean(self.out_of_service)),
            _ => Err(BacnetError::UnknownProperty),
        }
    }

    /// Out_Of_Service is writable; the present value only while out of
    /// service.
    fn write_property(&mut self, property_id: PropertyIdentifier, array_index: Option<u32>, value: PropertyValue, priority: Option<u8>) -> (r: Result<(), BacnetError>)
        ensures
            old(self).write_outcome(property_id, value, false, *final(self), r),
    {
        self.write_impl(property_id, value, false)
    }

    fn force_write_property(&mut self, property_id: PropertyIdentifier, value: PropertyValue) -> (r: Result<(), BacnetError>)
        ensures
            old(self).write_outcome(property_id, value, true, *final(self), r),
    {
        self.write_impl(property_id, value, true)
    }

    fn tick(&mut self, now: SystemTime, delta: Duration)
        ensures
            *final(self) == *old(self),
    {
    }

    fn changed_since(&self, since: Instant) -> (r: Vec<PropertyIdentifier>)
        ensures
            r@ == (if instant_gt(self.last_changed, since) {
                seq![PropertyIdentifier::PresentValue]
            } else {
                Seq::empty()
            }),
    {
        if instant_after(&self.last_changed, &since) {
            let r = vec![PropertyIdentifier::PresentValue];
            assert(r@ =~= seq![PropertyIdentifier::PresentValue]);
            r
        } else {
            Vec::new()
        }
    }

    fn all_properties(&self) -> (r: Vec<(PropertyIdentifier, PropertyValue)>)
        ensures
            props_view(r@) == self.property_list(),
    {
        let mut props: Vec<(PropertyIdentifier, PropertyValue)> = Vec::new();
        props.push(entry(PropertyIdentifier::ObjectIdentifier, PropertyValue::ObjectId(self.object_id)));
        props.push(entry(PropertyIdentifier::ObjectName, PropertyValue::CharacterString(self.object_name.clone())));
        props.push(entry(PropertyIdentifier::ObjectType, PropertyValue::Enumerated(ObjectType::MultiStateInput.to_u32())));
        props.push(entry(PropertyIdentifier::Description, PropertyValue::CharacterString(self.description.clone())));
        props.push(entry(PropertyIdentifier::PresentValue, PropertyValue::Unsigned(self.present_value)));
        props.push(entry(PropertyIdentifier::NumberOfStates, PropertyValue::Unsigned(self.number_of_states)));
        props.push(entry(PropertyIdentifier::StatusFlags, PropertyValue::BitString(status_flags_bits(&self.status_flags))));
        props.push(entry(PropertyIdentifier::EventState, PropertyValue::Enumerated(self.event_state.to_u32())));
        props.push(entry(PropertyIdentifier::Reliability, PropertyValue::Enumerated(self.reliability.to_u32())));
        props.push(entry(PropertyIdentifier::OutOfService, PropertyValue::Boolean(self.out_of_service)));
        assert(props_view(props@) =~= self.property_list());
        props
    }
}

/// Every property that RPM `ALL` lists reads back as the value it is listed
/// with.
pub proof fn lemma_multistate_input_list_reads_back(a: MultiStateInput)
    ensures
        forall|i: int| 0 <= i < a.property_list().len() ==> #[trigger] a.property(a.property_list()[i].0) == Some(
            a.property_list()[i].1,
        ),
{
}

} // verus!
