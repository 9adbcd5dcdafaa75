//! Binary Output object (ASHRAE 135 Clause 12.7) with its 16-slot command
//! priority array.
use vstd::prelude::*;
use std::time::{Duration, Instant, SystemTime};
use crate::object::clock::{instant_ge, instant_gt, instant_after, instant_not_before, instant_now};
use crate::object::property::{clear_flags, no_flags, entry, props_view, read_outcome, status_bits, status_flags_bits, BacnetObject};
use crate::types::{
    event_state_code, reliability_code, BacnetError, DeviceId, EventState, ObjectId,
    ObjectType, PValue, PropertyIdentifier, PropertyValue, Reliability, StatusFlags,
};

verus! {

/// A binary present value.
#[derive(Debug, Clone, Copy, PartialEq, Eq)]
pub enum BinaryPv {
    Inactive,
    Active,
}

pub struct BinaryOutput {
    pub device_id: DeviceId,
    pub object_id: ObjectId,
    pub object_name: String,
    pub description: String,
    pub out_of_service: bool,
    pub status_flags: StatusFlags,
    pub event_state: EventState,
    pub reliability: Reliability,
    pub relinquish_default: BinaryPv,
    /// Slot 0 holds priority 1, the highest.
    pub priority_array: [Option<bool>; 16],
    pub last_changed: Instant,
}

/// The command in force in `pa`, or `default` when no slot is set.
pub open spec fn commanded_bool(pa: Seq<Option<bool>>, default: bool) -> bool
    decreases pa.len(),
{
    if pa.len() == 0 {
        default
    } else {
        match pa[0] {
            Some(v) => v,
            None => commanded_bool(pa.drop_first(), default),
        }
    }
}

/// A command written at a priority higher than every other set slot is the
/// value in force: slot 0 (priority 1) is the highest.
pub proof fn lemma_binary_highest_command_wins(pa: Seq<Option<bool>>, k: int, b: bool, default: bool)
    requires
        0 <= k < pa.len(),
        forall|j: int| 0 <= j < k ==> pa[j] is None,
    ensures
        commanded_bool(pa.update(k, Some(b)), default) == b,
    decreases k,
{
    if k > 0 {
        assert(pa.update(k, Some(b)).drop_first() =~= pa.drop_first().update(k - 1, Some(b)));
        lemma_binary_highest_command_wins(pa.drop_first(), k - 1, b, default);
    }
}

/// A command at a priority below a set slot changes nothing in force.
pub proof fn lemma_binary_lower_command_is_shadowed(pa: Seq<Option<bool>>, j: int, k: int, b: bool, default: bool)
    requires
        0 <= j < k < pa.len(),
        pa[j] is Some,
    ensures
        commanded_bool(pa.update(k, Some(b)), default) == commanded_bool(pa, default),
    decreases j,
{
    if j > 0 {
        if pa[0] is None {
            assert(pa.update(k, Some(b)).drop_first() =~= pa.drop_first().update(k - 1, Some(b)));
            lemma_binary_lower_command_is_shadowed(pa.drop_first(), j - 1, k - 1, b, default);
        }
    }
}

/// Of two commands at priorities `p < q` (1 is the highest), the one at `p`
/// is in force, whichever was written last, when nothing above `p` is set.
pub proof fn lemma_binary_priority_order(pa: Seq<Option<bool>>, p: u8, q: u8, bp: bool, bq: bool, default: bool)
    requires
        pa.len() == 16,
        1 <= p < q <= 16,
        forall|j: int| 0 <= j < p - 1 ==> pa[j] is None,
    ensures
        binary_write_slot(Some(p)) == p - 1,
        commanded_bool(pa.update(binary_write_slot(Some(q)), Some(bq)).update(binary_write_slot(Some(p)), Some(bp)), default) == bp,
        commanded_bool(pa.update(binary_write_slot(Some(p)), Some(bp)).update(binary_write_slot(Some(q)), Some(bq)), default) == bp,
{
    let sp = binary_write_slot(Some(p));
    let sq = binary_write_slot(Some(q));
    assert(sp == p - 1 && sq == q - 1);
    let first = pa.update(sq, Some(bq));
    lemma_binary_highest_command_wins(first, sp, bp, default);
    let second = pa.update(sp, Some(bp));
    lemma_binary_highest_command_wins(pa, sp, bp, default);
    lemma_binary_lower_command_is_shadowed(second, sp, sq, bq, default);
}

/// Relinquishing every slot leaves the relinquish default in force.
pub proof fn lemma_binary_all_free_gives_default(pa: Seq<Option<bool>>, default: bool)
    requires
        forall|j: int| 0 <= j < pa.len() ==> pa[j] is None,
    ensures
        commanded_bool(pa, default) == default,
    decreases pa.len(),
{
    if pa.len() > 0 {
        lemma_binary_all_free_gives_default(pa.drop_first(), default);
    }
}

/// The slot a write with `priority` commands: priority 16 when none is
/// given, clamped into 1..=16.
pub open spec fn binary_write_slot(priority: Option<u8>) -> int {
    let p: int = match priority {
        Some(p) => p as int,
        None => 16,
    };
    if p == 0 {
        0
    } else if p - 1 > 15 {
        15
    } else {
        p - 1
    }
}

impl BinaryOutput {
    /// A fresh output: every priority free, relinquish default inactive.
    pub fn new(device_id: DeviceId, instance: u32, name: &str) -> (r: BinaryOutput)
        ensures
            r.device_id == device_id,
            r.object_id == (ObjectId { object_type: ObjectType::BinaryOutput, instance }),
            r.object_name@ == name@,
            r.description@ == Seq::<char>::empty(),
            !r.out_of_service,
            r.status_flags == no_flags(),
            r.event_state == EventState::Normal,
            r.reliability == Reliability::NoFaultDetected,
            r.relinquish_default == BinaryPv::Inactive,
            forall|i: int| 0 <= i < 16 ==> r.priority_array@[i] is None,
    {
        BinaryOutput {
            device_id,
            object_id: ObjectId { object_type: ObjectType::BinaryOutput, instance },
            object_name: String::from_str(name),
            description: String::new(),
            out_of_service: false,
            status_flags: clear_flags(),
            event_state: EventState::Normal,
            reliability: Reliability::NoFaultDetected,
            relinquish_default: BinaryPv::Inactive,
            priority_array: [None, None, None, None, None, None, None, None, None, None, None, None, None, None, None, None],
            last_changed: instant_now(),
        }
    }

    /// The value in force: the highest-priority command, else whether the
    /// relinquish default is active.
    pub open spec fn effective(&self) -> bool {
        commanded_bool(self.priority_array@, self.relinquish_default == BinaryPv::Active)
    }

    fn effective_value(&self) -> (r: bool)
        ensures
            r == self.effective(),
    {
        let mut i: usize = 0;
        assert(self.priority_array@.skip(0) =~= self.priority_array@);
        while i < 16
            invariant
                i <= 16,
                self.effective() == commanded_bool(self.priority_array@.skip(i as int), self.relinquish_default == BinaryPv::Active),
            decreases 16 - i,
        {
            assert(self.priority_array@.skip(i as int).drop_first() =~= self.priority_array@.skip(i + 1));
            if let Some(v) = self.priority_array[i] {
                return v;
            }
            i = i + 1;
        }
        assert(self.priority_array@.skip(16).len() == 0);
        match self.relinquish_default {
            BinaryPv::Active => true,
            BinaryPv::Inactive => false,
        }
    }

    /// The value of property `p`, `None` when the object has no such property.
    pub open spec fn property(&self, p: PropertyIdentifier) -> Option<PValue> {
        match p {
            PropertyIdentifier::ObjectIdentifier => Some(PValue::ObjectId(self.object_id)),
            PropertyIdentifier::ObjectName => Some(PValue::CharacterString(self.object_name@)),
            PropertyIdentifier::ObjectType => Some(PValue::Enumerated(4)),
            PropertyIdentifier::Description => Some(PValue::CharacterString(self.description@)),
            PropertyIdentifier::PresentValue => Some(PValue::Enumerated(if self.effective() { 1 } else { 0 })),
            PropertyIdentifier::StatusFlags => Some(PValue::BitString(status_bits(self.status_flags))),
            PropertyIdentifier::EventState => Some(PValue::Enumerated(event_state_code(self.event_state))),
            PropertyIdentifier::Reliability => Some(PValue::Enumerated(reliability_code(self.reliability))),
            PropertyIdentifier::OutOfService => Some(PValue::Boolean(self.out_of_service)),
            _ => None,
        }
    }

    /// The properties listed for RPM `ALL`, in order.
    pub open spec fn property_list(&self) -> Seq<(PropertyIdentifier, PValue)> {
        seq![
            (PropertyIdentifier::ObjectIdentifier, PValue::ObjectId(self.object_id)),
            (PropertyIdentifier::ObjectName, PValue::CharacterString(self.object_name@)),
            (PropertyIdentifier::ObjectType, PValue::Enumerated(4)),
            (PropertyIdentifier::Description, PValue::CharacterString(self.description@)),
            (PropertyIdentifier::PresentValue, PValue::Enumerated(if self.effective() { 1 } else { 0 })),
            (PropertyIdentifier::StatusFlags, PValue::BitString(status_bits(self.status_flags))),
            (PropertyIdentifier::EventState, PValue::Enumerated(event_state_code(self.event_state))),
            (PropertyIdentifier::Reliability, PValue::Enumerated(reliability_code(self.reliability))),
            (PropertyIdentifier::OutOfService, PValue::Boolean(self.out_of_service)),
        ]
    }

    /// Whether `new` and `r` are what a write of `v` to `p` at `priority`
    /// leaves.  A present-value write sets the slot from a Boolean, or from an
    /// Enumerated or Unsigned number (non-zero meaning active), or frees it
    /// with `Null`, and renews the change instant.
    pub open spec fn write_outcome(&self, p: PropertyIdentifier, v: PropertyValue, priority: Option<u8>, new: BinaryOutput, r: Result<(), BacnetError>) -> bool {
        let k = binary_write_slot(priority);
        match p {
            PropertyIdentifier::PresentValue => {
                let slot: Option<Option<bool>> = match v {
                    PropertyValue::Null => Some(None),
                    PropertyValue::Enumerated(n) => Some(Some(n != 0)),
                    PropertyValue::Unsigned(n) => Some(Some(n != 0)),
                    PropertyValue::Boolean(b) => Some(Some(b)),
                    _ => None,
                };
                match slot {
                    Some(s) => r is Ok && new == (BinaryOutput { priority_array: new.priority_array, last_changed: new.last_changed, ..*self })
                        && new.priority_array@ == self.priority_array@.update(k, s),
                    None => r == Err::<(), BacnetError>(BacnetError::InvalidDataType) && new == *self,
                }
            },
            PropertyIdentifier::OutOfService => match v {
                PropertyValue::Boolean(b) => r is Ok && new == (BinaryOutput { out_of_service: b, ..*self }),
                _ => r == Err::<(), BacnetError>(BacnetError::InvalidDataType) && new == *self,
            },
            _ => r == Err::<(), BacnetError>(BacnetError::WriteAccessDenied) && new == *self,
        }
    }
}

impl BacnetObject for BinaryOutput {
    fn object_id(&self) -> (r: ObjectId)
        ensures
            r == self.object_id,
    {
        self.object_id
    }

    fn device_id(&self) -> (r: DeviceId)
        ensures
            r == self.device_id,
    {
        self.device_id
    }
    fn read_property(&self, property_id: PropertyIdentifier, array_index: Option<u32>) -> (r: Result<PropertyValue, BacnetError>)
        ensures
            read_outcome(r, self.property(property_id)),
    {
        match property_id {
            PropertyIdentifier::ObjectIdentifier => Ok(PropertyValue::ObjectId(self.object_id)),
            PropertyIdentifier::ObjectName => Ok(PropertyValue::CharacterString(self.object_name.clone())),
            PropertyIdentifier::ObjectType => Ok(PropertyValue::Enumerated(ObjectType::BinaryOutput.to_u32())),
            PropertyIdentifier::Description => Ok(PropertyValue::CharacterString(self.description.clone())),
            PropertyIdentifier::PresentValue => Ok(PropertyValue::Enumerated(if self.effective_value() { 1 } else { 0 })),
            PropertyIdentifier::StatusFlags => Ok(PropertyValue::BitString(status_flags_bits(&self.status_flags))),
            PropertyIdentifier::EventState => Ok(PropertyValue::Enumerated(self.event_state.to_u32())),
            PropertyIdentifier::Reliability => Ok(PropertyValue::Enumerated(self.reliability.to_u32())),
            PropertyIdentifier::OutOfService => Ok(PropertyValue::Boolean(self.out_of_service)),
            _ => Err(BacnetError::UnknownProperty),
        }
    }

    /// The present value is commanded through the priority array;
    /// Out_Of_Service is writable too.
    fn write_property(&mut self, property_id: PropertyIdentifier, array_index: Option<u32>, value: PropertyValue, priority: Option<u8>) -> (r: Result<(), BacnetError>)
        ensures
            old(self).write_outcome(property_id, value, priority, *final(self), r),
    {
        if property_id == PropertyIdentifier::PresentValue {
            let p: u8 = match priority {
                Some(p) => p,
                None => 16,
            };
            let pri: usize = if p == 0 {
                0
            } else if p - 1 > 15 {
                15
            } else {
                (p - 1) as usize
            };
            match value {
                PropertyValue::Null => {
                    self.priority_array[pri] = None;
                },
                PropertyValue::Enumerated(n) => {
                    self.priority_array[pri] = Some(n != 0);
                },
                PropertyValue::Unsigned(n) => {
                    self.priority_array[pri] = Some(n != 0);
                },
                PropertyValue::Boolean(b) => {
                    self.priority_array[pri] = Some(b);
                },
                _ => {
                    return Err(BacnetError::InvalidDataType);
                },
            }
            self.last_changed = instant_now();
            Ok(())
        } else if property_id == PropertyIdentifier::OutOfService {
            match value {
                PropertyValue::Boolean(b) => {
                    self.out_of_service = b;
                    Ok(())
                },
                _ => Err(BacnetError::InvalidDataType),
            }
        } else {
            Err(BacnetError::WriteAccessDenied)
        }
    }

    /// No guard to pass: a write at the lowest priority.
    fn force_write_property(&mut self, property_id: PropertyIdentifier, value: PropertyValue) -> (r: Result<(), BacnetError>)
        ensures
            old(self).write_outcome(property_id, value, None, *final(self), r),
    {
        self.write_property(property_id, None, value, None)
    }

    fn tick(&mut self, now: SystemTime, delta: Duration)
        ensures
            *final(self) == *old(self),
    {
    }
    fn changed_since(&self, since: Instant) -> (r: Vec<PropertyIdentifier>)
        ensures
            r@ == (if instant_gt(self.last_changed, since) {
                seq![PropertyIdentifier::PresentValue]
            } else {
                Seq::empty()
            }),
    {
        if instant_after(&self.last_changed, &since) {
            let r = vec![PropertyIdentifier::PresentValue];
            assert(r@ =~= seq![PropertyIdentifier::PresentValue]);
            r
        } else {
            Vec::new()
        }
    }
    fn all_properties(&self) -> (r: Vec<(PropertyIdentifier, PropertyValue)>)
        ensures
            props_view(r@) == self.property_list(),
    {
        let mut props: Vec<(PropertyIdentifier, PropertyValue)> = Vec::new();
        props.push(entry(PropertyIdentifier::ObjectIdentifier, PropertyValue::ObjectId(self.object_id)));
        props.push(entry(PropertyIdentifier::ObjectName, PropertyValue::CharacterString(self.object_name.clone())));
        props.push(entry(PropertyIdentifier::ObjectType, PropertyValue::Enumerated(ObjectType::BinaryOutput.to_u32())));
        props.push(entry(PropertyIdentifier::Description, PropertyValue::CharacterString(self.description.clone())));
        props.push(entry(PropertyIdentifier::PresentValue, PropertyValue::Enumerated(if self.effective_value() { 1 } else { 0 })));
        props.push(entry(PropertyIdentifier::StatusFlags, PropertyValue::BitString(status_flags_bits(&self.status_flags))));
        props.push(entry(PropertyIdentifier::EventState, PropertyValue::Enumerated(self.event_state.to_u32())));
        props.push(entry(PropertyIdentifier::Reliability, PropertyValue::Enumerated(self.reliability.to_u32())));
        props.push(entry(PropertyIdentifier::OutOfService, PropertyValue::Boolean(self.out_of_service)));
        assert(props_view(props@) =~= self.property_list());
        props
    }
}

/// Every property that RPM `ALL` lists reads back as the value it is listed
/// with.
pub proof fn lemma_binary_output_list_reads_back(a: BinaryOutput)
    ensures
        forall|i: int| 0 <= i < a.property_list().len() ==> #[trigger] a.property(a.property_list()[i].0) == Some(
            a.property_list()[i].1,
        ),
{
}

} // verus!
