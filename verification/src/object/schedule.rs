//! Schedule object (ASHRAE 135 Clause 12.24), simplified: a weekly
//! time-value schedule with a list of the properties it drives.
use vstd::prelude::*;
use std::time::{Duration, Instant, SystemTime};
use crate::object::clock::{secs_since_epoch, unix_secs};
use crate::object::property::{entry, props_view, read_outcome, BacnetObject};
use crate::types::{BacnetError, DeviceId, ObjectId, ObjectType, PValue, PropertyIdentifier, PropertyValue};

verus! {

/// A time-value slot of a day.
#[derive(Debug, Clone)]
pub struct TimeValue {
    /// Seconds from midnight (0..86400).
    pub time_of_day_secs: u32,
    pub value: PropertyValue,
}

/// The slots of one day of the week.
#[derive(Debug, Clone)]
pub struct DailySchedule {
    pub slots: Vec<TimeValue>,
}

/// The value of the last slot of `slots` that has started at
/// `time_of_day_secs`, `None` when none has.
pub open spec fn active_value(slots: Seq<TimeValue>, time_of_day_secs: u32) -> Option<PValue>
    decreases slots.len(),
{
    if slots.len() == 0 {
        None
    } else if time_of_day_secs >= slots.last().time_of_day_secs {
        Some(slots.last().value@)
    } else {
        active_value(slots.drop_last(), time_of_day_secs)
    }
}

impl DailySchedule {
    /// The value of the last slot that has started at `time_of_day_secs`;
    /// `None` when no slot has started yet (the schedule default applies).
    pub fn active_at(&self, time_of_day_secs: u32) -> (r: Option<&PropertyValue>)
        ensures
            match r {
                Some(v) => active_value(self.slots@, time_of_day_secs) == Some(v@),
                None => active_value(self.slots@, time_of_day_secs) is None,
            },
    {
        let mut active: Option<&PropertyValue> = None;
        let n = self.slots.len();
        let mut i: usize = 0;
        while i < n
            invariant
                n == self.slots@.len(),
                i <= n,
                match active {
                    Some(v) => active_value(self.slots@.take(i as int), time_of_day_secs) == Some(v@),
                    None => active_value(self.slots@.take(i as int), time_of_day_secs) is None,
                },
            decreases n - i,
        {
            assert(self.slots@.take(i + 1).drop_last() =~= self.slots@.take(i as int));
            let slot = &self.slots[i];
            if time_of_day_secs >= slot.time_of_day_secs {
                active = Some(&slot.value);
            }
            i = i + 1;
        }
        assert(self.slots@.take(n as int) =~= self.slots@);
        active
    }
}

pub struct Schedule {
    pub device_id: DeviceId,
    pub object_id: ObjectId,
    pub object_name: String,
    pub description: String,
    pub present_value: PropertyValue,
    pub out_of_service: bool,
    /// Monday = 0 ... Sunday = 6.
    pub weekly_schedule: [DailySchedule; 7],
    pub schedule_default: PropertyValue,
    /// The object properties written when the present value changes.
    pub list_of_object_property_references: Vec<(ObjectId, PropertyIdentifier)>,
}

/// The day of the week (Monday = 0) of `secs` seconds after the epoch, a
/// Thursday.
pub open spec fn day_of_week(secs: u64) -> int {
    ((secs / 86400 + 3) % 7) as int
}

/// The seconds since midnight of `secs` seconds after the epoch.
pub open spec fn time_of_day(secs: u64) -> u32 {
    (secs % 86400) as u32
}

impl Schedule {
    /// A fresh schedule: no slots, present value and default `Null`.
    pub fn new(device_id: DeviceId, instance: u32, name: &str) -> (r: Schedule)
        ensures
            r.device_id == device_id,
            r.object_id == (ObjectId { object_type: ObjectType::Schedule, instance }),
            r.object_name@ == name@,
            r.description@ == Seq::<char>::empty(),
            r.present_value@ == PValue::Null,
            !r.out_of_service,
            forall|d: int| 0 <= d < 7 ==> r.weekly_schedule@[d].slots@.len() == 0,
            r.schedule_default@ == PValue::Null,
            r.list_of_object_property_references@.len() == 0,
    {
        Schedule {
            device_id,
            object_id: ObjectId { object_type: ObjectType::Schedule, instance },
            object_name: String::from_str(name),
            description: String::new(),
            present_value: PropertyValue::Null,
            out_of_service: false,
            weekly_schedule: [
                DailySchedule { slots: Vec::new() },
                DailySchedule { slots: Vec::new() },
                DailySchedule { slots: Vec::new() },
                DailySchedule { slots: Vec::new() },
                DailySchedule { slots: Vec::new() },
                DailySchedule { slots: Vec::new() },
                DailySchedule { slots: Vec::new() },
            ],
            schedule_default: PropertyValue::Null,
            list_of_object_property_references: Vec::new(),
        }
    }

    /// The value the schedule gives at `secs`: the active slot of that day,
    /// else the schedule default.
    pub open spec fn value_at(&self, secs: u64) -> PValue {
        match active_value(self.weekly_schedule@[day_of_week(secs)].slots@, time_of_day(secs)) {
            Some(v) => v,
            None => self.schedule_default@,
        }
    }

    /// The active value at `secs_since_epoch`.
    pub fn evaluate_at(&self, secs_since_epoch: u64) -> (r: &PropertyValue)
        ensures
            r@ == self.value_at(secs_since_epoch),
    {
        let day = ((secs_since_epoch / 86400 + 3) % 7) as usize;
        let tod = (secs_since_epoch % 86400) as u32;
        match self.weekly_schedule[day].active_at(tod) {
            Some(v) => v,
            None => &self.schedule_default,
        }
    }

    /// The value of property `p`, `None` when the object has no such property.
    pub open spec fn property(&self, p: PropertyIdentifier) -> Option<PValue> {
        match p {
            PropertyIdentifier::ObjectIdentifier => Some(PValue::ObjectId(self.object_id)),
            PropertyIdentifier::ObjectName => Some(PValue::CharacterString(self.object_name@)),
            PropertyIdentifier::ObjectType => Some(PValue::Enumerated(17)),
            PropertyIdentifier::Description => Some(PValue::CharacterString(self.description@)),
            PropertyIdentifier::PresentValue => Some(self.present_value@),
            PropertyIdentifier::OutOfService => Some(PValue::Boolean(self.out_of_service)),
            PropertyIdentifier::ScheduleDefault => Some(self.schedule_default@),
            _ => None,
        }
    }

    /// The properties listed for RPM `ALL`, in order.
    pub open spec fn property_list(&self) -> Seq<(PropertyIdentifier, PValue)> {
        seq![
            (PropertyIdentifier::ObjectIdentifier, PValue::ObjectId(self.object_id)),
            (PropertyIdentifier::ObjectName, PValue::CharacterString(self.object_name@)),
            (PropertyIdentifier::ObjectType, PValue::Enumerated(17)),
            (PropertyIdentifier::Description, PValue::CharacterString(self.description@)),
            (PropertyIdentifier::PresentValue, self.present_value@),
            (PropertyIdentifier::OutOfService, PValue::Boolean(self.out_of_service)),
            (PropertyIdentifier::ScheduleDefault, self.schedule_default@),
        ]
    }

    /// Whether `new` and `r` are what a write of `v` to `p` leaves; `forced`
    /// writes pass the out-of-service guard of the present value.
    pub open spec fn write_outcome(&self, p: PropertyIdentifier, v: PropertyValue, forced: bool, new: Schedule, r: Result<(), BacnetError>) -> bool {
        match p {
            PropertyIdentifier::PresentValue => if self.out_of_service || forced {
                r is Ok && new == (Schedule { present_value: v, ..*self })
            } else {
                r == Err::<(), BacnetError>(BacnetError::WriteAccessDenied) && new == *self
            },
            PropertyIdentifier::OutOfService => match v {
                PropertyValue::Boolean(b) => r is Ok && new == (Schedule { out_of_service: b, ..*self }),
                _ => r == Err::<(), BacnetError>(BacnetError::InvalidDataType) && new == *self,
            },
            PropertyIdentifier::ScheduleDefault => r is Ok && new == (Schedule { schedule_default: v, ..*self }),
            _ => r == Err::<(), BacnetError>(BacnetError::WriteAccessDenied) && new == *self,
        }
    }

    fn write_impl(&mut self, property_id: PropertyIdentifier, value: PropertyValue, forced: bool) -> (r: Result<(), BacnetError>)
        ensures
            old(self).write_outcome(property_id, value, forced, *final(self), r),
    {
        match property_id {
            PropertyIdentifier::PresentValue => {
                if self.out_of_service || forced {
                    self.present_value = value;
                    Ok(())
                } else {
                    Err(BacnetError::WriteAccessDenied)
                }
            },
            PropertyIdentifier::OutOfService => match value {
                PropertyValue::Boolean(b) => {
                    self.out_of_service = b;
                    Ok(())
                },
                _ => Err(BacnetError::InvalidDataType),
            },
            PropertyIdentifier::ScheduleDefault => {
                self.schedule_default = value;
                Ok(())
            },
            _ => Err(BacnetError::WriteAccessDenied),
        }
    }
}

impl BacnetObject for Schedule {
    fn object_id(&self) -> (r: ObjectId)
        ensures
            r == self.object_id,
    {
        self.object_id
    }

    fn device_id(&self) -> (r: DeviceId)
        ensures
            r == self.device_id,
    {
        self.device_id
    }

    fn read_property(&self, property_id: PropertyIdentifier, array_index: Option<u32>) -> (r: Result<PropertyValue, BacnetError>)
        ensures
            read_outcome(r, self.property(property_id)),
    {
        match property_id {
            PropertyIdentifier::ObjectIdentifier => Ok(PropertyValue::ObjectId(self.object_id)),
            PropertyIdentifier::ObjectName => Ok(PropertyValue::CharacterString(self.object_name.clone())),
            PropertyIdentifier::ObjectType => Ok(PropertyValue::Enumerated(ObjectType::Schedule.to_u32())),
            PropertyIdentifier::Description => Ok(PropertyValue::CharacterString(self.description.clone())),
            PropertyIdentifier::PresentValue => Ok(self.present_value.clone()),
            PropertyIdentifier::OutOfService => Ok(PropertyValue::Boolean(self.out_of_service)),
            PropertyIdentifier::ScheduleDefault => Ok(self.schedule_default.clone()),
            _ => Err(BacnetError::UnknownProperty),
        }
    }

    /// The present value is writable only while out of service;
    /// Out_Of_Service and Schedule_Default are writable.
    fn write_property(&mut self, property_id: PropertyIdentifier, array_index: Option<u32>, value: PropertyValue, priority: Option<u8>) -> (r: Result<(), BacnetError>)
        ensures
            old(self).write_outcome(property_id, value, false, *final(self), r),
    {
        self.write_impl(property_id, value, false)
    }

    fn force_write_property(&mut self, property_id: PropertyIdentifier, value: PropertyValue) -> (r: Result<(), BacnetError>)
        ensures
            old(self).write_outcome(property_id, value, true, *final(self), r),
    {
        self.write_impl(property_id, value, true)
    }

    /// In service, the present value becomes the schedule's value at `now`.
    fn tick(&mut self, now: SystemTime, delta: Duration)
        ensures
            old(self).out_of_service ==> *final(self) == *old(self),
            !old(self).out_of_service ==> *final(self) == (Schedule { present_value: final(self).present_value, ..*old(self) })
                && final(self).present_value@ == old(self).value_at(unix_secs(now)),
    {
        if self.out_of_service {
            return;
        }
        let secs = secs_since_epoch(&now);
        let v = self.evaluate_at(secs).clone();
        self.present_value = v;
    }

    fn changed_since(&self, since: Instant) -> (r: Vec<PropertyIdentifier>)
        ensures
            r@ == Seq::<PropertyIdentifier>::empty(),
    {
        Vec::new()
    }

    fn all_properties(&self) -> (r: Vec<(PropertyIdentifier, PropertyValue)>)
        ensures
            props_view(r@) == self.property_list(),
    {
        let mut props: Vec<(PropertyIdentifier, PropertyValue)> = Vec::new();
        props.push(entry(PropertyIdentifier::ObjectIdentifier, PropertyValue::ObjectId(self.object_id)));
        props.push(entry(PropertyIdentifier::ObjectName, PropertyValue::CharacterString(self.object_name.clone())));
        props.push(entry(PropertyIdentifier::ObjectType, PropertyValue::Enumerated(ObjectType::Schedule.to_u32())));
        props.push(entry(PropertyIdentifier::Description, PropertyValue::CharacterString(self.description.clone())));
        props.push(entry(PropertyIdentifier::PresentValue, self.present_value.clone()));
        props.push(entry(PropertyIdentifier::OutOfService, PropertyValue::Boolean(self.out_of_service)));
        props.push(entry(PropertyIdentifier::ScheduleDefault, self.schedule_default.clone()));
        assert(props_view(props@) =~= self.property_list());
        props
    }
}

/// Every property that RPM `ALL` lists reads back as the value it is listed
/// with.
pub proof fn lemma_schedule_list_reads_back(a: Schedule)
    ensures
        forall|i: int| 0 <= i < a.property_list().len() ==> #[trigger] a.property(a.property_list()[i].0) == Some(
            a.property_list()[i].1,
        ),
{
}

/// Days follow the calendar: second 0 (1970-01-01) falls on a Thursday
/// (Monday = 0, Sunday = 6); an instant is its day's midnight plus its time
/// of day; every second of a day has the same weekday, and the same second
/// of the day a day later falls on the next weekday.
pub proof fn lemma_day_of_week_calendar(secs: u64, t: u64)
    ensures
        day_of_week(0) == 3,
        0 <= day_of_week(secs) < 7,
        time_of_day(secs) < 86400,
        (secs / 86400) * 86400 + time_of_day(secs) == secs,
        secs / 86400 == t / 86400 ==> day_of_week(t) == day_of_week(secs),
        t == secs + 86400 ==> day_of_week(t) == (day_of_week(secs) + 1) % 7 && time_of_day(t) == time_of_day(secs),
{
    if t == secs + 86400 {
        assert(t / 86400 == secs / 86400 + 1 && t % 86400 == secs % 86400) by (nonlinear_arith)
            requires
                t == secs + 86400,
        ;
    }
}

/// Before the first slot of the day starts, the schedule gives its default.
pub proof fn lemma_default_before_first_slot(slots: Seq<TimeValue>, t: u32)
    requires
        forall|i: int| 0 <= i < slots.len() ==> t < #[trigger] slots[i].time_of_day_secs,
    ensures
        active_value(slots, t) is None,
    decreases slots.len(),
{
    if slots.len() > 0 {
        lemma_default_before_first_slot(slots.drop_last(), t);
    }
}

/// With slots in increasing order of start time, the active value is that
/// of the latest slot that has started.
pub proof fn lemma_latest_started_slot_wins(slots: Seq<TimeValue>, t: u32, k: int)
    requires
        0 <= k < slots.len(),
        slots[k].time_of_day_secs <= t,
        forall|i: int| k < i < slots.len() ==> t < #[trigger] slots[i].time_of_day_secs,
    ensures
        active_value(slots, t) == Some(slots[k].value@),
    decreases slots.len(),
{
    if k < slots.len() - 1 {
        lemma_latest_started_slot_wins(slots.drop_last(), t, k);
    }
}

} // verus!
