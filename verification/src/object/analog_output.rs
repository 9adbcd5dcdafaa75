//! Analog Output object (ASHRAE 135 Clause 12.3) with its 16-slot command
//! priority array.  Real values are held as their IEEE-754 single-precision
//! bit patterns.
use vstd::prelude::*;
use std::time::{Duration, Instant, SystemTime};
use crate::object::analog_input::REAL_0_1;
use crate::object::clock::{instant_ge, instant_not_before, instant_now};
use crate::object::property::{clear_flags, no_flags, entry, props_view, read_outcome, status_bits, status_flags_bits, BacnetObject};
use crate::types::{
    event_state_code, units_code, values_view, BacnetError, DeviceId, EngineeringUnits, EventState, ObjectId,
    ObjectType, PValue, PropertyIdentifier, PropertyValue, Reliability, StatusFlags,
};

verus! {

/// The number of command priorities.
pub const NUM_PRIORITIES: usize = 16;

pub struct AnalogOutput {
    pub device_id: DeviceId,
    pub object_id: ObjectId,
    pub object_name: String,
    pub description: String,
    pub present_value: u32,
    pub status_flags: StatusFlags,
    pub event_state: EventState,
    pub reliability: Reliability,
    pub out_of_service: bool,
    pub units: EngineeringUnits,
    /// Slot 0 holds priority 1, the highest.
    pub priority_array: [Option<u32>; 16],
    pub relinquish_default: u32,
    pub cov_increment: u32,
    pub last_changed: Instant,
}

/// The value commanded at the highest priority of `pa`, or `default` when no
/// slot is set.
pub open spec fn commanded_value(pa: Seq<Option<u32>>, default: u32) -> u32
    decreases pa.len(),
{
    if pa.len() == 0 {
        default
    } else {
        match pa[0] {
            Some(v) => v,
            None => commanded_value(pa.drop_first(), default),
        }
    }
}

/// A priority slot as a property value: `Real` when set, `Null` when free.
pub open spec fn slot_value(s: Option<u32>) -> PValue {
    match s {
        Some(b) => PValue::Real(b),
        None => PValue::Null,
    }
}

/// The slot read for array index `i` (1-based; 0 and too large indices are
/// clamped to the first and last slot).
pub open spec fn clamped_slot(i: u32) -> int {
    if i == 0 {
        0
    } else if i - 1 > 15 {
        15
    } else {
        i - 1
    }
}

fn slot_to_value(s: Option<u32>) -> (r: PropertyValue)
    ensures
        r@ == slot_value(s),
{
    match s {
        Some(b) => PropertyValue::Real(b),
        None => PropertyValue::Null,
    }
}

impl AnalogOutput {
    /// A fresh output: every priority free, relinquish default 0.0.
    pub fn new(device_id: DeviceId, instance: u32, name: &str, units: EngineeringUnits) -> (r: AnalogOutput)
        ensures
            r.device_id == device_id,
            r.object_id == (ObjectId { object_type: ObjectType::AnalogOutput, instance }),
            r.object_name@ == name@,
            r.description@ == Seq::<char>::empty(),
            r.present_value == 0,
            r.status_flags == no_flags(),
            r.event_state == EventState::Normal,
            r.reliability == Reliability::NoFaultDetected,
            !r.out_of_service,
            r.units == units,
            forall|i: int| 0 <= i < 16 ==> r.priority_array@[i] is None,
            r.relinquish_default == 0,
            r.cov_increment == REAL_0_1,
    {
        AnalogOutput {
            device_id,
            object_id: ObjectId { object_type: ObjectType::AnalogOutput, instance },
            object_name: String::from_str(name),
            description: String::new(),
            present_value: 0,
            status_flags: clear_flags(),
            event_state: EventState::Normal,
            reliability: Reliability::NoFaultDetected,
            out_of_service: false,
            units,
            priority_array: [None, None, None, None, None, None, None, None, None, None, None, None, None, None, None, None],
            relinquish_default: 0,
            cov_increment: REAL_0_1,
            last_changed: instant_now(),
        }
    }

    /// The value in force: the highest-priority command, else the
    /// relinquish default.
    pub open spec fn effective(&self) -> u32 {
        commanded_value(self.priority_array@, self.relinquish_default)
    }

    fn effective_value(&self) -> (r: u32)
        ensures
            r == self.effective(),
    {
        let mut i: usize = 0;
        assert(self.priority_array@.skip(0) =~= self.priority_array@);
        while i < NUM_PRIORITIES
            invariant
                i <= 16,
                commanded_value(self.priority_array@, self.relinquish_default)
                    == commanded_value(self.priority_array@.skip(i as int), self.relinquish_default),
            decreases 16 - i,
        {
            assert(self.priority_array@.skip(i as int).drop_first() =~= self.priority_array@.skip(i + 1));
            if let Some(v) = self.priority_array[i] {
                return v;
            }
            i = i + 1;
        }
        assert(self.priority_array@.skip(16).len() == 0);
        self.relinquish_default
    }

    /// The value of property `p` read with array index `idx`, `None` when
    /// the object has no such property.
    pub open spec fn property(&self, p: PropertyIdentifier, idx: Option<u32>) -> Option<PValue> {
        match p {
            PropertyIdentifier::ObjectIdentifier => Some(PValue::ObjectId(self.object_id)),
            PropertyIdentifier::ObjectName => Some(PValue::CharacterString(self.object_name@)),
            PropertyIdentifier::ObjectType => Some(PValue::Enumerated(1)),
            PropertyIdentifier::PresentValue => Some(PValue::Real(self.effective())),
            PropertyIdentifier::StatusFlags => Some(PValue::BitString(status_bits(self.status_flags))),
            PropertyIdentifier::EventState => Some(PValue::Enumerated(event_state_code(self.event_state))),
            PropertyIdentifier::OutOfService => Some(PValue::Boolean(self.out_of_service)),
            PropertyIdentifier::Units => Some(PValue::Enumerated(units_code(self.units))),
            PropertyIdentifier::RelinquishDefault => Some(PValue::Real(self.relinquish_default)),
            PropertyIdentifier::PriorityArray => match idx {
                Some(i) => Some(slot_value(self.priority_array@[clamped_slot(i)])),
                None => Some(PValue::Array(self.priority_array@.map_values(|s: Option<u32>| slot_value(s)))),
            },
            PropertyIdentifier::Description => Some(PValue::CharacterString(self.description@)),
            _ => None,
        }
    }

    /// The properties listed for RPM `ALL`, in order.
    pub open spec fn property_list(&self) -> Seq<(PropertyIdentifier, PValue)> {
        seq![
            (PropertyIdentifier::ObjectIdentifier, PValue::ObjectId(self.object_id)),
            (PropertyIdentifier::ObjectName, PValue::CharacterString(self.object_name@)),
            (PropertyIdentifier::ObjectType, PValue::Enumerated(1)),
            (PropertyIdentifier::PresentValue, PValue::Real(self.effective())),
            (PropertyIdentifier::OutOfService, PValue::Boolean(self.out_of_service)),
            (PropertyIdentifier::Units, PValue::Enumerated(units_code(self.units))),
            (PropertyIdentifier::RelinquishDefault, PValue::Real(self.relinquish_default)),
            (PropertyIdentifier::Description, PValue::CharacterString(self.description@)),
        ]
    }

    /// The priority slot a write with `priority` fills: priority 16 when
    /// none is given; `None` when the priority is outside 1..=16.
    pub open spec fn write_slot(priority: Option<u8>) -> Option<int> {
        let p: int = match priority {
            Some(p) => p as int,
            None => 16,
        };
        if 1 <= p <= 16 {
            Some(p - 1)
        } else {
            None
        }
    }

    /// Whether `new` and `r` are what a write of `v` to `p` at `priority`
    /// leaves.  A present-value write sets or (with `Null`) relinquishes the
    /// slot, recomputes the present value and renews the change instant.
    /// A command other than `Real` or `Null` is refused with
    /// `InvalidDataType`.
    pub open spec fn write_outcome(&self, p: PropertyIdentifier, v: PropertyValue, priority: Option<u8>, new: AnalogOutput, r: Result<(), BacnetError>) -> bool {
        match p {
            PropertyIdentifier::PresentValue => match Self::write_slot(priority) {
                None => r == Err::<(), BacnetError>(BacnetError::ValueOutOfRange) && new == *self,
                Some(k) => match v {
                    PropertyValue::Null => r is Ok && new == (AnalogOutput {
                        priority_array: new.priority_array,
                        present_value: new.effective(),
                        last_changed: new.last_changed,
                        ..*self
                    }) && new.priority_array@ == self.priority_array@.update(k, None),
                    PropertyValue::Real(b) => r is Ok && new == (AnalogOutput {
                        priority_array: new.priority_array,
                        present_value: new.effective(),
                        last_changed: new.last_changed,
                        ..*self
                    }) && new.priority_array@ == self.priority_array@.update(k, Some(b)),
                    _ => r == Err::<(), BacnetError>(BacnetError::InvalidDataType) && new == *self,
                },
            },
            PropertyIdentifier::OutOfService => match v {
                PropertyValue::Boolean(b) => r is Ok && new == (AnalogOutput { out_of_service: b, ..*self }),
                _ => r == Err::<(), BacnetError>(BacnetError::InvalidDataType) && new == *self,
            },
            PropertyIdentifier::Description => match v {
                PropertyValue::CharacterString(s) => r is Ok && new == (AnalogOutput { description: new.description, ..*self })
                    && new.description@ == s@,
                _ => r == Err::<(), BacnetError>(BacnetError::InvalidDataType) && new == *self,
            },
            _ => r == Err::<(), BacnetError>(BacnetError::WriteAccessDenied) && new == *self,
        }
    }
}

impl BacnetObject for AnalogOutput {
    fn object_id(&self) -> (r: ObjectId)
        ensures
            r == self.object_id,
    {
        self.object_id
    }

    fn device_id(&self) -> (r: DeviceId)
        ensures
            r == self.device_id,
    {
        self.device_id
    }

    fn read_property(&self, property_id: PropertyIdentifier, array_index: Option<u32>) -> (r: Result<PropertyValue, BacnetError>)
        ensures
            read_outcome(r, self.property(property_id, array_index)),
    {
        match property_id {
            PropertyIdentifier::ObjectIdentifier => Ok(PropertyValue::ObjectId(self.object_id)),
            PropertyIdentifier::ObjectName => Ok(PropertyValue::CharacterString(self.object_name.clone())),
            PropertyIdentifier::ObjectType => Ok(PropertyValue::Enumerated(ObjectType::AnalogOutput.to_u32())),
            PropertyIdentifier::PresentValue => Ok(PropertyValue::Real(self.effective_value())),
            PropertyIdentifier::StatusFlags => Ok(PropertyValue::BitString(status_flags_bits(&self.status_flags))),
            PropertyIdentifier::EventState => Ok(PropertyValue::Enumerated(self.event_state.to_u32())),
            PropertyIdentifier::OutOfService => Ok(PropertyValue::Boolean(self.out_of_service)),
            PropertyIdentifier::Units => Ok(PropertyValue::Enumerated(self.units.to_u32())),
            PropertyIdentifier::RelinquishDefault => Ok(PropertyValue::Real(self.relinquish_default)),
            PropertyIdentifier::PriorityArray => match array_index {
                Some(idx) => {
                    let i: usize = if idx == 0 {
                        0
                    } else if idx - 1 > 15 {
                        15
                    } else {
                        (idx - 1) as usize
                    };
                    Ok(slot_to_value(self.priority_array[i]))
                },
                None => {
                    let mut arr: Vec<PropertyValue> = Vec::new();
                    let mut i: usize = 0;
                    while i < NUM_PRIORITIES
                        invariant
                            i <= 16,
                            values_view(arr@) =~= self.priority_array@.take(i as int).map_values(|s: Option<u32>| slot_value(s)),
                        decreases 16 - i,
                    {
                        let v = slot_to_value(self.priority_array[i]);
                        let ghost before = arr@;
                        arr.push(v);
                        assert(arr@.drop_last() =~= before);
                        i = i + 1;
                        assert(values_view(arr@) =~= self.priority_array@.take(i as int).map_values(|s: Option<u32>| slot_value(s)));
                    }
                    assert(self.priority_array@.take(16) =~= self.priority_array@);
                    Ok(PropertyValue::Array(arr))
                },
            },
            PropertyIdentifier::Description => Ok(PropertyValue::CharacterString(self.description.clone())),
            _ => Err(BacnetError::UnknownProperty),
        }
    }

    /// The present value is commanded through the priority array; Out_Of_Service
    /// and Description are writable too.  A command is a `Real` or `Null`:
    /// this library holds no floating-point arithmetic, so a `Double`,
    /// `Unsigned` or `Integer` value, which would need converting to single
    /// precision, is refused with `InvalidDataType`.
    fn write_property(&mut self, property_id: PropertyIdentifier, array_index: Option<u32>, value: PropertyValue, priority: Option<u8>) -> (r: Result<(), BacnetError>)
        ensures
            old(self).write_outcome(property_id, value, priority, *final(self), r),
    {
        match property_id {
            PropertyIdentifier::PresentValue => {
                let pri: usize = match priority {
                    Some(p) => p as usize,
                    None => 16,
                };
                if !(1 <= pri && pri <= 16) {
                    return Err(BacnetError::ValueOutOfRange);
                }
                let idx = pri - 1;
                match value {
                    PropertyValue::Null => {
                        self.priority_array[idx] = None;
                    },
                    PropertyValue::Real(b) => {
                        self.priority_array[idx] = Some(b);
                    },
                    _ => {
                        return Err(BacnetError::InvalidDataType);
                    },
                }
                self.present_value = self.effective_value();
                self.last_changed = instant_now();
                Ok(())
            },
            PropertyIdentifier::OutOfService => match value {
                PropertyValue::Boolean(b) => {
                    self.out_of_service = b;
                    Ok(())
                },
                _ => Err(BacnetError::InvalidDataType),
            },
            PropertyIdentifier::Description => match value {
                PropertyValue::CharacterString(s) => {
                    self.description = s;
                    Ok(())
                },
                _ => Err(BacnetError::InvalidDataType),
            },
            _ => Err(BacnetError::WriteAccessDenied),
        }
    }

    /// No guard to pass: a write at the lowest priority.
    fn force_write_property(&mut self, property_id: PropertyIdentifier, value: PropertyValue) -> (r: Result<(), BacnetError>)
        ensures
            old(self).write_outcome(property_id, value, None, *final(self), r),
    {
        self.write_property(property_id, None, value, None)
    }

    fn tick(&mut self, now: SystemTime, delta: Duration)
        ensures
            *final(self) == *old(self),
    {
    }

    fn changed_since(&self, since: Instant) -> (r: Vec<PropertyIdentifier>)
        ensures
            r@ == (if instant_ge(self.last_changed, since) {
                seq![PropertyIdentifier::PresentValue]
            } else {
                Seq::empty()
            }),
    {
        if instant_not_before(&self.last_changed, &since) {
            let r = vec![PropertyIdentifier::PresentValue];
            assert(r@ =~= seq![PropertyIdentifier::PresentValue]);
            r
        } else {
            Vec::new()
        }
    }

    fn all_properties(&self) -> (r: Vec<(PropertyIdentifier, PropertyValue)>)
        ensures
            props_view(r@) == self.property_list(),
    {
        let mut props: Vec<(PropertyIdentifier, PropertyValue)> = Vec::new();
        props.push(entry(PropertyIdentifier::ObjectIdentifier, PropertyValue::ObjectId(self.object_id)));
        props.push(entry(PropertyIdentifier::ObjectName, PropertyValue::CharacterString(self.object_name.clone())));
        props.push(entry(PropertyIdentifier::ObjectType, PropertyValue::Enumerated(ObjectType::AnalogOutput.to_u32())));
        props.push(entry(PropertyIdentifier::PresentValue, PropertyValue::Real(self.effective_value())));
        props.push(entry(PropertyIdentifier::OutOfService, PropertyValue::Boolean(self.out_of_service)));
        props.push(entry(PropertyIdentifier::Units, PropertyValue::Enumerated(self.units.to_u32())));
        props.push(entry(PropertyIdentifier::RelinquishDefault, PropertyValue::Real(self.relinquish_default)));
        props.push(entry(PropertyIdentifier::Description, PropertyValue::CharacterString(self.description.clone())));
        assert(props_view(props@) =~= self.property_list());
        props
    }
}

/// Every property that RPM `ALL` lists reads back (without an array index)
/// as the value it is listed with.
pub proof fn lemma_analog_output_list_reads_back(a: AnalogOutput)
    ensures
        forall|i: int| 0 <= i < a.property_list().len() ==> #[trigger] a.property(a.property_list()[i].0, None) == Some(
            a.property_list()[i].1,
        ),
{
}

/// A command written at a priority higher than every other set slot is the
/// value in force.
pub proof fn lemma_highest_command_wins(pa: Seq<Option<u32>>, k: int, b: u32, default: u32)
    requires
        0 <= k < pa.len(),
        forall|j: int| 0 <= j < k ==> pa[j] is None,
    ensures
        commanded_value(pa.update(k, Some(b)), default) == b,
    decreases k,
{
    if k > 0 {
        assert(pa.update(k, Some(b)).drop_first() =~= pa.drop_first().update(k - 1, Some(b)));
        lemma_highest_command_wins(pa.drop_first(), k - 1, b, default);
    }
}

/// A command at a priority below a set slot changes nothing in force.
pub proof fn lemma_lower_command_is_shadowed(pa: Seq<Option<u32>>, j: int, k: int, b: u32, default: u32)
    requires
        0 <= j < k < pa.len(),
        pa[j] is Some,
    ensures
        commanded_value(pa.update(k, Some(b)), default) == commanded_value(pa, default),
    decreases j,
{
    if j > 0 {
        if pa[0] is None {
            assert(pa.update(k, Some(b)).drop_first() =~= pa.drop_first().update(k - 1, Some(b)));
            lemma_lower_command_is_shadowed(pa.drop_first(), j - 1, k - 1, b, default);
        }
    }
}

/// Of two commands at priorities `p < q` (1 is the highest), the one at `p`
/// is in force, whichever was written last, when nothing above `p` is set.
pub proof fn lemma_priority_order(pa: Seq<Option<u32>>, p: u8, q: u8, bp: u32, bq: u32, default: u32)
    requires
        pa.len() == 16,
        1 <= p < q <= 16,
        forall|j: int| 0 <= j < p - 1 ==> pa[j] is None,
    ensures
        AnalogOutput::write_slot(Some(p)) == Some(p - 1),
        AnalogOutput::write_slot(None) == Some(15int),
        commanded_value(pa.update(p - 1, Some(bq)).update(p - 1, Some(bp)), default) == bp,
        commanded_value(pa.update(q - 1, Some(bq)).update(p - 1, Some(bp)), default) == bp,
        commanded_value(pa.update(p - 1, Some(bp)).update(q - 1, Some(bq)), default) == bp,
{
    lemma_highest_command_wins(pa.update(p - 1, Some(bq)), p - 1, bp, default);
    lemma_highest_command_wins(pa.update(q - 1, Some(bq)), p - 1, bp, default);
    lemma_highest_command_wins(pa, p - 1, bp, default);
    lemma_lower_command_is_shadowed(pa.update(p - 1, Some(bp)), p - 1, q - 1, bq, default);
}

/// Relinquishing every slot leaves the relinquish default in force.
pub proof fn lemma_all_free_gives_default(pa: Seq<Option<u32>>, default: u32)
    requires
        forall|j: int| 0 <= j < pa.len() ==> pa[j] is None,
    ensures
        commanded_value(pa, default) == default,
    decreases pa.len(),
{
    if pa.len() > 0 {
        lemma_all_free_gives_default(pa.drop_first(), default);
    }
}

} // verus!
