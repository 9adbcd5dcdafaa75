//! TrendLog object (ASHRAE 135 Clause 12.25): a bounded log of timestamped
//! property values.
use vstd::prelude::*;
use std::collections::VecDeque;
use std::time::{Duration, Instant, SystemTime};
use crate::object::clock::{
    duration_as_secs, duration_at_least, duration_ge, instant_elapsed, duration_from_secs, duration_secs, instant_duration_since, instant_now,
    system_now,
};
use crate::object::property::{entry, props_view, read_outcome, BacnetObject};
use crate::types::{BacnetError, DeviceId, ObjectId, ObjectType, PValue, PropertyIdentifier, PropertyValue};

verus! {

broadcast use vstd::std_specs::vecdeque::group_vec_dequeue_axioms;

/// One logged record.
pub struct TrendLogEntry {
    pub timestamp: SystemTime,
    pub value: PropertyValue,
}

pub struct TrendLog {
    pub device_id: DeviceId,
    pub object_id: ObjectId,
    pub object_name: String,
    pub description: String,
    /// Whether logging is active.
    pub enable: bool,
    /// Interval between automatic samples.
    pub log_interval: Duration,
    /// The most entries the log keeps.
    pub buffer_size: usize,
    /// The log, oldest entry first.
    pub log_buffer: VecDeque<TrendLogEntry>,
    /// The object and property being logged, when configured.
    pub monitored_object: Option<ObjectId>,
    pub monitored_property: Option<PropertyIdentifier>,
    pub record_count: u32,
    pub total_record_count: u32,
    pub out_of_service: bool,
    pub last_sample: Instant,
}

impl TrendLog {
    /// A fresh, enabled log: one-minute interval, room for 1000 entries.
    pub fn new(device_id: DeviceId, instance: u32, name: &str) -> (r: TrendLog)
        ensures
            r.device_id == device_id,
            r.object_id == (ObjectId { object_type: ObjectType::TrendLog, instance }),
            r.object_name@ == name@,
            r.description@ == Seq::<char>::empty(),
            r.enable,
            duration_secs(r.log_interval) == 60,
            r.buffer_size == 1000,
            r.log_buffer@.len() == 0,
            r.monitored_object is None,
            r.monitored_property is None,
            r.record_count == 0,
            r.total_record_count == 0,
            !r.out_of_service,
    {
        TrendLog {
            device_id,
            object_id: ObjectId { object_type: ObjectType::TrendLog, instance },
            object_name: String::from_str(name),
            description: String::new(),
            enable: true,
            log_interval: duration_from_secs(60),
            buffer_size: 1000,
            log_buffer: VecDeque::with_capacity(1000),
            monitored_object: None,
            monitored_property: None,
            record_count: 0,
            total_record_count: 0,
            out_of_service: false,
            last_sample: instant_now(),
        }
    }

    /// The entries kept when one more is appended: the oldest is dropped
    /// when the log is full.
    pub open spec fn kept_entries(&self) -> Seq<TrendLogEntry> {
        if self.log_buffer@.len() >= self.buffer_size && self.log_buffer@.len() > 0 {
            self.log_buffer@.drop_first()
        } else {
            self.log_buffer@
        }
    }

    /// Appends `value`, stamped with the current time, evicting the oldest
    /// entry when the log is full.  Nothing is logged while disabled or out
    /// of service.
    pub fn record(&mut self, value: PropertyValue)
        ensures
            !old(self).enable || old(self).out_of_service ==> *final(self) == *old(self),
            old(self).enable && !old(self).out_of_service ==> {
                &&& *final(self) == (TrendLog {
                    log_buffer: final(self).log_buffer,
                    record_count: final(self).record_count,
                    total_record_count: final(self).total_record_count,
                    ..*old(self)
                })
                &&& final(self).log_buffer@.drop_last() == old(self).kept_entries()
                &&& final(self).log_buffer@.len() == old(self).kept_entries().len() + 1
                &&& final(self).log_buffer@.last().value == value
                &&& final(self).record_count == final(self).log_buffer@.len() as u32
                &&& final(self).total_record_count == (if old(self).total_record_count == u32::MAX {
                    u32::MAX
                } else {
                    (old(self).total_record_count + 1) as u32
                })
            },
            1 <= old(self).buffer_size && old(self).log_buffer@.len() <= old(self).buffer_size
                ==> final(self).log_buffer@.len() <= final(self).buffer_size,
    {
        if !self.enable || self.out_of_service {
            return;
        }
        if self.log_buffer.len() >= self.buffer_size {
            let _ = self.log_buffer.pop_front();
        }
        let timestamp = system_now();
        self.log_buffer.push_back(TrendLogEntry { timestamp, value });
        self.record_count = self.log_buffer.len() as u32;
        self.total_record_count = self.total_record_count.saturating_add(1);
        assert(self.log_buffer@.drop_last() =~= old(self).kept_entries());
    }

    /// The value of property `p`, `None` when the object has no such property.
    pub open spec fn property(&self, p: PropertyIdentifier) -> Option<PValue> {
        match p {
            PropertyIdentifier::ObjectIdentifier => Some(PValue::ObjectId(self.object_id)),
            PropertyIdentifier::ObjectName => Some(PValue::CharacterString(self.object_name@)),
            PropertyIdentifier::ObjectType => Some(PValue::Enumerated(20)),
            PropertyIdentifier::Description => Some(PValue::CharacterString(self.description@)),
            PropertyIdentifier::Enable => Some(PValue::Boolean(self.enable)),
            PropertyIdentifier::LogInterval => Some(PValue::Unsigned(duration_secs(self.log_interval) as u32)),
            PropertyIdentifier::BufferSize => Some(PValue::Unsigned(self.buffer_size as u32)),
            PropertyIdentifier::RecordCount => Some(PValue::Unsigned(self.record_count)),
            PropertyIdentifier::TotalRecordCount => Some(PValue::Unsigned(self.total_record_count)),
            PropertyIdentifier::OutOfService => Some(PValue::Boolean(self.out_of_service)),
            PropertyIdentifier::StopWhenFull => Some(PValue::Boolean(false)),
            _ => None,
        }
    }

    /// The properties listed for RPM `ALL`, in order.
    pub open spec fn property_list(&self) -> Seq<(PropertyIdentifier, PValue)> {
        seq![
            (PropertyIdentifier::ObjectIdentifier, PValue::ObjectId(self.object_id)),
            (PropertyIdentifier::ObjectName, PValue::CharacterString(self.object_name@)),
            (PropertyIdentifier::ObjectType, PValue::Enumerated(20)),
            (PropertyIdentifier::Description, PValue::CharacterString(self.description@)),
            (PropertyIdentifier::Enable, PValue::Boolean(self.enable)),
            (PropertyIdentifier::BufferSize, PValue::Unsigned(self.buffer_size as u32)),
            (PropertyIdentifier::LogInterval, PValue::Unsigned(duration_secs(self.log_interval) as u32)),
            (PropertyIdentifier::RecordCount, PValue::Unsigned(self.record_count)),
            (PropertyIdentifier::TotalRecordCount, PValue::Unsigned(self.total_record_count)),
            (PropertyIdentifier::OutOfService, PValue::Boolean(self.out_of_service)),
            (PropertyIdentifier::StopWhenFull, PValue::Boolean(false)),
        ]
    }

    /// Whether `new` and `r` are what a write of `v` to `p` leaves.  Writing
    /// Unsigned 0 to Record_Count clears the log; any other value written
    /// there is accepted and ignored.
    pub open spec fn write_outcome(&self, p: PropertyIdentifier, v: PropertyValue, new: TrendLog, r: Result<(), BacnetError>) -> bool {
        match p {
            PropertyIdentifier::Enable => match v {
                PropertyValue::Boolean(b) => r is Ok && new == (TrendLog { enable: b, ..*self }),
                _ => r == Err::<(), BacnetError>(BacnetError::InvalidDataType) && new == *self,
            },
            PropertyIdentifier::OutOfService => match v {
                PropertyValue::Boolean(b) => r is Ok && new == (TrendLog { out_of_service: b, ..*self }),
                _ => r == Err::<(), BacnetError>(BacnetError::InvalidDataType) && new == *self,
            },
            PropertyIdentifier::RecordCount => r is Ok && (if v == PropertyValue::Unsigned(0) {
                new == (TrendLog { log_buffer: new.log_buffer, record_count: 0, ..*self }) && new.log_buffer@.len() == 0
            } else {
                new == *self
            }),
            PropertyIdentifier::LogInterval => match v {
                PropertyValue::Unsigned(s) => r is Ok && new == (TrendLog { log_interval: new.log_interval, ..*self })
                    && duration_secs(new.log_interval) == s,
                _ => r == Err::<(), BacnetError>(BacnetError::InvalidDataType) && new == *self,
            },
            _ => r == Err::<(), BacnetError>(BacnetError::WriteAccessDenied) && new == *self,
        }
    }
}

impl BacnetObject for TrendLog {
    fn object_id(&self) -> (r: ObjectId)
        ensures
            r == self.object_id,
    {
        self.object_id
    }

    fn device_id(&self) -> (r: DeviceId)
        ensures
            r == self.device_id,
    {
        self.device_id
    }

    fn read_property(&self, property_id: PropertyIdentifier, array_index: Option<u32>) -> (r: Result<PropertyValue, BacnetError>)
        ensures
            read_outcome(r, self.property(property_id)),
    {
        match property_id {
            PropertyIdentifier::ObjectIdentifier => Ok(PropertyValue::ObjectId(self.object_id)),
            PropertyIdentifier::ObjectName => Ok(PropertyValue::CharacterString(self.object_name.clone())),
            PropertyIdentifier::ObjectType => Ok(PropertyValue::Enumerated(ObjectType::TrendLog.to_u32())),
            PropertyIdentifier::Description => Ok(PropertyValue::CharacterString(self.description.clone())),
            PropertyIdentifier::Enable => Ok(PropertyValue::Boolean(self.enable)),
            PropertyIdentifier::LogInterval => Ok(PropertyValue::Unsigned(duration_as_secs(&self.log_interval) as u32)),
            PropertyIdentifier::BufferSize => Ok(PropertyValue::Unsigned(self.buffer_size as u32)),
            PropertyIdentifier::RecordCount => Ok(PropertyValue::Unsigned(self.record_count)),
            PropertyIdentifier::TotalRecordCount => Ok(PropertyValue::Unsigned(self.total_record_count)),
            PropertyIdentifier::OutOfService => Ok(PropertyValue::Boolean(self.out_of_service)),
            PropertyIdentifier::StopWhenFull => Ok(PropertyValue::Boolean(false)),
            _ => Err(BacnetError::UnknownProperty),
        }
    }

    /// Enable, Out_Of_Service, Record_Count (0 clears the log) and
    /// Log_Interval are writable.
    fn write_property(&mut self, property_id: PropertyIdentifier, array_index: Option<u32>, value: PropertyValue, priority: Option<u8>) -> (r: Result<(), BacnetError>)
        ensures
            old(self).write_outcome(property_id, value, *final(self), r),
    {
        match property_id {
            PropertyIdentifier::Enable => match value {
                PropertyValue::Boolean(b) => {
                    self.enable = b;
                    Ok(())
                },
                _ => Err(BacnetError::InvalidDataType),
            },
            PropertyIdentifier::OutOfService => match value {
                PropertyValue::Boolean(b) => {
                    self.out_of_service = b;
                    Ok(())
                },
                _ => Err(BacnetError::InvalidDataType),
            },
            PropertyIdentifier::RecordCount => {
                if let PropertyValue::Unsigned(0) = value {
                    self.log_buffer.clear();
                    self.record_count = 0;
                }
                Ok(())
            },
            PropertyIdentifier::LogInterval => match value {
                PropertyValue::Unsigned(s) => {
                    self.log_interval = duration_from_secs(s as u64);
                    Ok(())
                },
                _ => Err(BacnetError::InvalidDataType),
            },
            _ => Err(BacnetError::WriteAccessDenied),
        }
    }

    /// No guard to pass: the same as a client write.
    fn force_write_property(&mut self, property_id: PropertyIdentifier, value: PropertyValue) -> (r: Result<(), BacnetError>)
        ensures
            old(self).write_outcome(property_id, value, *final(self), r),
    {
        self.write_property(property_id, None, value, None)
    }

    /// Marks a sample once a log interval has passed since the last one; the
    /// values themselves are logged by `record`.
    fn tick(&mut self, now: SystemTime, delta: Duration)
        ensures
            *final(self) == (TrendLog { last_sample: final(self).last_sample, ..*old(self) }),
            !old(self).enable || old(self).out_of_service ==> final(self).last_sample == old(self).last_sample,
            old(self).enable && !old(self).out_of_service ==> exists|inst: Instant|
                if duration_ge(instant_elapsed(inst, old(self).last_sample), old(self).log_interval) {
                    final(self).last_sample == inst
                } else {
                    final(self).last_sample == old(self).last_sample
                },
    {
        if !self.enable || self.out_of_service {
            return;
        }
        let inst = instant_now();
        let elapsed = instant_duration_since(&inst, &self.last_sample);
        if duration_at_least(&elapsed, &self.log_interval) {
            self.last_sample = inst;
        }
        assert(if duration_ge(instant_elapsed(inst, old(self).last_sample), old(self).log_interval) {
            self.last_sample == inst
        } else {
            self.last_sample == old(self).last_sample
        });
    }

    fn changed_since(&self, since: Instant) -> (r: Vec<PropertyIdentifier>)
        ensures
            r@ == Seq::<PropertyIdentifier>::empty(),
    {
        Vec::new()
    }

    fn all_properties(&self) -> (r: Vec<(PropertyIdentifier, PropertyValue)>)
        ensures
            props_view(r@) == self.property_list(),
    {
        let mut props: Vec<(PropertyIdentifier, PropertyValue)> = Vec::new();
        props.push(entry(PropertyIdentifier::ObjectIdentifier, PropertyValue::ObjectId(self.object_id)));
        props.push(entry(PropertyIdentifier::ObjectName, PropertyValue::CharacterString(self.object_name.clone())));
        props.push(entry(PropertyIdentifier::ObjectType, PropertyValue::Enumerated(ObjectType::TrendLog.to_u32())));
        props.push(entry(PropertyIdentifier::Description, PropertyValue::CharacterString(self.description.clone())));
        props.push(entry(PropertyIdentifier::Enable, PropertyValue::Boolean(self.enable)));
        props.push(entry(PropertyIdentifier::BufferSize, PropertyValue::Unsigned(self.buffer_size as u32)));
        props.push(entry(PropertyIdentifier::LogInterval, PropertyValue::Unsigned(duration_as_secs(&self.log_interval) as u32)));
        props.push(entry(PropertyIdentifier::RecordCount, PropertyValue::Unsigned(self.record_count)));
        props.push(entry(PropertyIdentifier::TotalRecordCount, PropertyValue::Unsigned(self.total_record_count)));
        props.push(entry(PropertyIdentifier::OutOfService, PropertyValue::Boolean(self.out_of_service)));
        props.push(entry(PropertyIdentifier::StopWhenFull, PropertyValue::Boolean(false)));
        assert(props_view(props@) =~= self.property_list());
        props
    }
}

/// Every property that RPM `ALL` lists reads back as the value it is listed
/// with.
pub proof fn lemma_trend_log_list_reads_back(a: TrendLog)
    ensures
        forall|i: int| 0 <= i < a.property_list().len() ==> #[trigger] a.property(a.property_list()[i].0) == Some(
            a.property_list()[i].1,
        ),
{
}

} // verus!
