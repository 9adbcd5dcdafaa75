//! The logic behind the management API: names in request paths, and what
//! the API reports of a device.  The HTTP server itself runs outside.
use vstd::prelude::*;
use crate::object::device::device_object_id;
use crate::object::property::BacnetObject;
use crate::object::store::{ObjectStore, StoredObject};
use crate::text::{chars_are, lowercase, to_lowercase, underscore, underscoring};
use crate::types::{lemma_values_view, pv_model, values_view, DeviceId, ObjectId, ObjectType, PValue, PropertyIdentifier, PropertyValue};

verus! {

/// The object type a normalised path segment names.
pub open spec fn object_type_named(n: Seq<char>) -> Option<ObjectType> {
    if n == "analog_input"@ || n == "analoginput"@ {
        Some(ObjectType::AnalogInput)
    } else if n == "analog_output"@ || n == "analogoutput"@ {
        Some(ObjectType::AnalogOutput)
    } else if n == "analog_value"@ || n == "analogvalue"@ {
        Some(ObjectType::AnalogValue)
    } else if n == "binary_input"@ || n == "binaryinput"@ {
        Some(ObjectType::BinaryInput)
    } else if n == "binary_output"@ || n == "binaryoutput"@ {
        Some(ObjectType::BinaryOutput)
    } else if n == "binary_value"@ || n == "binaryvalue"@ {
        Some(ObjectType::BinaryValue)
    } else if n == "device"@ {
        Some(ObjectType::Device)
    } else if n == "multi_state_input"@ || n == "multistateinput"@ {
        Some(ObjectType::MultiStateInput)
    } else if n == "multi_state_output"@ || n == "multistateoutput"@ {
        Some(ObjectType::MultiStateOutput)
    } else if n == "multi_state_value"@ || n == "multistatevalue"@ {
        Some(ObjectType::MultiStateValue)
    } else if n == "notification_class"@ || n == "notificationclass"@ {
        Some(ObjectType::NotificationClass)
    } else if n == "schedule"@ {
        Some(ObjectType::Schedule)
    } else if n == "trend_log"@ || n == "trendlog"@ {
        Some(ObjectType::TrendLog)
    } else {
        None
    }
}

/// The object type a request path names: case-insensitive, hyphens read as
/// underscores; `None` for an unknown type.
pub fn parse_object_type(s: &str) -> (r: Option<ObjectType>)
    ensures
        r == object_type_named(underscoring(lowercase(s@), false)),
{
    let n = underscore(&to_lowercase(s), false);
    if chars_are(&n, "analog_input") || chars_are(&n, "analoginput") {
        Some(ObjectType::AnalogInput)
    } else if chars_are(&n, "analog_output") || chars_are(&n, "analogoutput") {
        Some(ObjectType::AnalogOutput)
    } else if chars_are(&n, "analog_value") || chars_are(&n, "analogvalue") {
        Some(ObjectType::AnalogValue)
    } else if chars_are(&n, "binary_input") || chars_are(&n, "binaryinput") {
        Some(ObjectType::BinaryInput)
    } else if chars_are(&n, "binary_output") || chars_are(&n, "binaryoutput") {
        Some(ObjectType::BinaryOutput)
    } else if chars_are(&n, "binary_value") || chars_are(&n, "binaryvalue") {
        Some(ObjectType::BinaryValue)
    } else if chars_are(&n, "device") {
        Some(ObjectType::Device)
    } else if chars_are(&n, "multi_state_input") || chars_are(&n, "multistateinput") {
        Some(ObjectType::MultiStateInput)
    } else if chars_are(&n, "multi_state_output") || chars_are(&n, "multistateoutput") {
        Some(ObjectType::MultiStateOutput)
    } else if chars_are(&n, "multi_state_value") || chars_are(&n, "multistatevalue") {
        Some(ObjectType::MultiStateValue)
    } else if chars_are(&n, "notification_class") || chars_are(&n, "notificationclass") {
        Some(ObjectType::NotificationClass)
    } else if chars_are(&n, "schedule") {
        Some(ObjectType::Schedule)
    } else if chars_are(&n, "trend_log") || chars_are(&n, "trendlog") {
        Some(ObjectType::TrendLog)
    } else {
        None
    }
}

/// The property a normalised path segment names; the API writes only
/// these.
pub open spec fn property_named(n: Seq<char>) -> Option<PropertyIdentifier> {
    if n == "present_value"@ || n == "presentvalue"@ {
        Some(PropertyIdentifier::PresentValue)
    } else if n == "object_name"@ || n == "objectname"@ {
        Some(PropertyIdentifier::ObjectName)
    } else if n == "description"@ {
        Some(PropertyIdentifier::Description)
    } else if n == "out_of_service"@ || n == "outofservice"@ {
        Some(PropertyIdentifier::OutOfService)
    } else if n == "units"@ {
        Some(PropertyIdentifier::Units)
    } else if n == "status_flags"@ || n == "statusflags"@ {
        Some(PropertyIdentifier::StatusFlags)
    } else {
        None
    }
}

/// The property a request path names: case-insensitive, hyphens read as
/// underscores; `None` for an unknown property.
pub fn parse_property_id(s: &str) -> (r: Option<PropertyIdentifier>)
    ensures
        r == property_named(underscoring(lowercase(s@), false)),
{
    let n = underscore(&to_lowercase(s), false);
    if chars_are(&n, "present_value") || chars_are(&n, "presentvalue") {
        Some(PropertyIdentifier::PresentValue)
    } else if chars_are(&n, "object_name") || chars_are(&n, "objectname") {
        Some(PropertyIdentifier::ObjectName)
    } else if chars_are(&n, "description") {
        Some(PropertyIdentifier::Description)
    } else if chars_are(&n, "out_of_service") || chars_are(&n, "outofservice") {
        Some(PropertyIdentifier::OutOfService)
    } else if chars_are(&n, "units") {
        Some(PropertyIdentifier::Units)
    } else if chars_are(&n, "status_flags") || chars_are(&n, "statusflags") {
        Some(PropertyIdentifier::StatusFlags)
    } else {
        None
    }
}

/// The objects device `dev` lists: the Object_List of its Device object,
/// nothing when it has none.
pub open spec fn listed_objects(store: &ObjectStore, dev: DeviceId) -> Seq<ObjectId> {
    match store.object(dev, device_object_id(dev)) {
        Some(StoredObject::Device(d)) => d.object_list@,
        _ => Seq::empty(),
    }
}

/// The number of objects device `dev` lists, as its Object_List reports
/// it at index 0 (a 32-bit count); 0 when it has no Device object.
pub fn count_objects_for_device(store: &ObjectStore, dev: DeviceId) -> (r: usize)
    requires
        store.wf(),
    ensures
        r == (listed_objects(store, dev).len() as u32) as usize,
{
    let oid = ObjectId { object_type: ObjectType::Device, instance: dev.0 };
    if let Some(obj) = store.get(dev, oid) {
        if let Ok(PropertyValue::Unsigned(n)) = obj.read_property(PropertyIdentifier::ObjectList, Some(0)) {
            return n as usize;
        }
    }
    0
}

/// The objects device `dev` lists, in the order of its Object_List.
pub fn collect_objects(store: &ObjectStore, dev: DeviceId) -> (r: Vec<ObjectId>)
    requires
        store.wf(),
    ensures
        r@ == listed_objects(store, dev),
{
    let oid = ObjectId { object_type: ObjectType::Device, instance: dev.0 };
    if let Some(obj) = store.get(dev, oid) {
        if let Ok(PropertyValue::Array(list)) = obj.read_property(PropertyIdentifier::ObjectList, None) {
            let ghost objs = listed_objects(store, dev);
            proof {
                lemma_values_view(list@);
                match obj {
                    StoredObject::Device(d) => {
                        assert(values_view(list@) == objs.map_values(|o: ObjectId| PValue::ObjectId(o)));
                        assert forall|j: int| 0 <= j < list@.len() implies (#[trigger] list@[j])@ == PValue::ObjectId(objs[j]) by {
                            assert(values_view(list@)[j] == pv_model(list@[j]));
                        }
                    },
                    _ => {},
                }
            }
            let mut out: Vec<ObjectId> = Vec::new();
            let n = list.len();
            let mut i: usize = 0;
            while i < n
                invariant
                    n == list@.len(),
                    i <= n,
                    n == objs.len(),
                    forall|j: int| 0 <= j < n ==> (#[trigger] list@[j])@ == PValue::ObjectId(objs[j]),
                    out@ == objs.take(i as int),
                decreases n - i,
            {
                if let PropertyValue::ObjectId(o) = &list[i] {
                    out.push(*o);
                }
                i = i + 1;
                assert(out@ =~= objs.take(i as int));
            }
            assert(objs.take(n as int) =~= objs);
            return out;
        }
    }
    Vec::new()
}

/// Adds `id` to the registered device numbers unless already there.
pub fn register_device_id(ids: &mut Vec<u32>, id: u32)
    ensures
        old(ids)@.contains(id) ==> final(ids)@ == old(ids)@,
        !old(ids)@.contains(id) ==> final(ids)@ == old(ids)@.push(id),
{
    let n = ids.len();
    let mut i: usize = 0;
    while i < n
        invariant
            n == ids@.len(),
            i <= n,
            forall|j: int| 0 <= j < i ==> ids@[j] != id,
        decreases n - i,
    {
        if ids[i] == id {
            return;
        }
        i = i + 1;
    }
    ids.push(id);
}

} // verus!
