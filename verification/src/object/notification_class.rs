//! Notification Class object (ASHRAE 135 Clause 12.21): alarm routing
//! configuration, read-only over the network.
use vstd::prelude::*;
use std::time::{Duration, Instant, SystemTime};
use crate::object::property::{entry, props_view, read_outcome, BacnetObject};
use crate::types::{BacnetError, DeviceId, ObjectId, ObjectType, PValue, PropertyIdentifier, PropertyValue};

verus! {

pub struct NotificationClass {
    pub device_id: DeviceId,
    pub object_id: ObjectId,
    pub object_name: String,
    pub description: String,
    /// Priorities of the to-offnormal, to-fault and to-normal transitions.
    pub priority: [u8; 3],
    /// Which transitions need an acknowledgement.
    pub ack_required: [bool; 3],
    pub notification_class: u32,
}

impl NotificationClass {
    /// A fresh class numbered like its instance, every priority 111, no
    /// acknowledgement required.
    pub fn new(device_id: DeviceId, instance: u32, name: &str) -> (r: NotificationClass)
        ensures
            r.device_id == device_id,
            r.object_id == (ObjectId { object_type: ObjectType::NotificationClass, instance }),
            r.object_name@ == name@,
            r.description@ == Seq::<char>::empty(),
            r.priority@ == seq![111u8, 111u8, 111u8],
            r.ack_required@ == seq![false, false, false],
            r.notification_class == instance,
    {
        let r = NotificationClass {
            device_id,
            object_id: ObjectId { object_type: ObjectType::NotificationClass, instance },
            object_name: String::from_str(name),
            description: String::new(),
            priority: [111, 111, 111],
            ack_required: [false, false, false],
            notification_class: instance,
        };
        assert(r.priority@ =~= seq![111u8, 111u8, 111u8]);
        assert(r.ack_required@ =~= seq![false, false, false]);
        r
    }

    /// The value of property `p`, `None` when the object has no such property.
    pub open spec fn property(&self, p: PropertyIdentifier) -> Option<PValue> {
        match p {
            PropertyIdentifier::ObjectIdentifier => Some(PValue::ObjectId(self.object_id)),
            PropertyIdentifier::ObjectName => Some(PValue::CharacterString(self.object_name@)),
            PropertyIdentifier::ObjectType => Some(PValue::Enumerated(15)),
            PropertyIdentifier::Description => Some(PValue::CharacterString(self.description@)),
            PropertyIdentifier::NotificationClass => Some(PValue::Unsigned(self.notification_class)),
            _ => None,
        }
    }

    /// The properties listed for RPM `ALL`, in order.
    pub open spec fn property_list(&self) -> Seq<(PropertyIdentifier, PValue)> {
        seq![
            (PropertyIdentifier::ObjectIdentifier, PValue::ObjectId(self.object_id)),
            (PropertyIdentifier::ObjectName, PValue::CharacterString(self.object_name@)),
            (PropertyIdentifier::ObjectType, PValue::Enumerated(15)),
            (PropertyIdentifier::Description, PValue::CharacterString(self.description@)),
            (PropertyIdentifier::NotificationClass, PValue::Unsigned(self.notification_class)),
        ]
    }
}

impl BacnetObject for NotificationClass {
    fn object_id(&self) -> (r: ObjectId)
        ensures
            r == self.object_id,
    {
        self.object_id
    }

    fn device_id(&self) -> (r: DeviceId)
        ensures
            r == self.device_id,
    {
        self.device_id
    }

    fn read_property(&self, property_id: PropertyIdentifier, array_index: Option<u32>) -> (r: Result<PropertyValue, BacnetError>)
        ensures
            read_outcome(r, self.property(property_id)),
    {
        match property_id {
            PropertyIdentifier::ObjectIdentifier => Ok(PropertyValue::ObjectId(self.object_id)),
            PropertyIdentifier::ObjectName => Ok(PropertyValue::CharacterString(self.object_name.clone())),
            PropertyIdentifier::ObjectType => Ok(PropertyValue::Enumerated(ObjectType::NotificationClass.to_u32())),
            PropertyIdentifier::Description => Ok(PropertyValue::CharacterString(self.description.clone())),
            PropertyIdentifier::NotificationClass => Ok(PropertyValue::Unsigned(self.notification_class)),
            _ => Err(BacnetError::UnknownProperty),
        }
    }

    /// Nothing is writable.
    fn write_property(&mut self, property_id: PropertyIdentifier, array_index: Option<u32>, value: PropertyValue, priority: Option<u8>) -> (r: Result<(), BacnetError>)
        ensures
            r == Err::<(), BacnetError>(BacnetError::WriteAccessDenied),
            *final(self) == *old(self),
    {
        Err(BacnetError::WriteAccessDenied)
    }

    fn force_write_property(&mut self, property_id: PropertyIdentifier, value: PropertyValue) -> (r: Result<(), BacnetError>)
        ensures
            r == Err::<(), BacnetError>(BacnetError::WriteAccessDenied),
            *final(self) == *old(self),
    {
        Err(BacnetError::WriteAccessDenied)
    }

    fn tick(&mut self, now: SystemTime, delta: Duration)
        ensures
            *final(self) == *old(self),
    {
    }

    fn changed_since(&self, since: Instant) -> (r: Vec<PropertyIdentifier>)
        ensures
            r@ == Seq::<PropertyIdentifier>::empty(),
    {
        Vec::new()
    }

    fn all_properties(&self) -> (r: Vec<(PropertyIdentifier, PropertyValue)>)
        ensures
            props_view(r@) == self.property_list(),
    {
        let mut props: Vec<(PropertyIdentifier, PropertyValue)> = Vec::new();
        props.push(entry(PropertyIdentifier::ObjectIdentifier, PropertyValue::ObjectId(self.object_id)));
        props.push(entry(PropertyIdentifier::ObjectName, PropertyValue::CharacterString(self.object_name.clone())));
        props.push(entry(PropertyIdentifier::ObjectType, PropertyValue::Enumerated(ObjectType::NotificationClass.to_u32())));
        props.push(entry(PropertyIdentifier::Description, PropertyValue::CharacterString(self.description.clone())));
        props.push(entry(PropertyIdentifier::NotificationClass, PropertyValue::Unsigned(self.notification_class)));
        assert(props_view(props@) =~= self.property_list());
        props
    }
}

/// Every property that RPM `ALL` lists reads back as the value it is listed
/// with.
pub proof fn lemma_notification_class_list_reads_back(a: NotificationClass)
    ensures
        forall|i: int| 0 <= i < a.property_list().len() ==> #[trigger] a.property(a.property_list()[i].0) == Some(
            a.property_list()[i].1,
        ),
{
}

} // verus!
