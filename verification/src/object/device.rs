//! Device object (ASHRAE 135 Clause 12.11).
use vstd::prelude::*;
use std::time::{Duration, Instant, SystemTime};
use crate::object::clock::{current_utc, is_utc_of};
use crate::object::property::{entry, props_view, BacnetObject};
use crate::types::{
    property_code, property_from_code, values_view, BacnetDate, BacnetError, BacnetTime, BitString, DeviceId, ObjectId, ObjectType, PValue,
    PropertyIdentifier, PropertyValue,
};

verus! {

/// The version reported as firmware and application software revision.
pub const SOFTWARE_VERSION: &'static str = "0.1.0";

pub struct DeviceObject {
    pub device_id: DeviceId,
    pub object_name: String,
    pub vendor_name: String,
    pub vendor_identifier: u16,
    pub model_name: String,
    pub firmware_revision: String,
    pub application_software_version: String,
    pub description: String,
    pub max_apdu_length_accepted: u16,
    pub database_revision: u32,
    pub object_list: Vec<ObjectId>,
}

/// The identifier of the Device object of `d`.
pub open spec fn device_object_id(d: DeviceId) -> ObjectId {
    ObjectId { object_type: ObjectType::Device, instance: d.0 }
}

/// The protocol services supported: subscribeCOV (5), readProperty (12),
/// readPropertyMultiple (14), writeProperty (15), i-Am (26), who-Is (34), of
/// 40 bits.
pub open spec fn services_supported_bits() -> Seq<bool> {
    Seq::new(40, |i: int| i == 5 || i == 12 || i == 14 || i == 15 || i == 26 || i == 34)
}

/// The object types supported: analog-input (0), binary-input (3), device
/// (8), of 32 bits.
pub open spec fn object_types_supported_bits() -> Seq<bool> {
    Seq::new(32, |i: int| i == 0 || i == 3 || i == 8)
}

/// The Property_List of a device: every property it implements but the
/// object identifier, name and type and Property_List itself.
pub open spec fn device_property_ids() -> Seq<u32> {
    seq![112u32, 121, 120, 70, 44, 12, 98, 139, 97, 96, 76, 62, 107, 11, 73, 155, 28, 56, 57, 119, 24]
}

/// The outcome of reading a list property with array index `idx`: index 0
/// is the length, index `i` the `i`-th element (from 1), no index the whole
/// array.
pub open spec fn list_entry<T>(s: Seq<T>, idx: Option<u32>, f: spec_fn(T) -> PValue) -> Result<PValue, BacnetError> {
    match idx {
        Some(i) => if i == 0 {
            Ok(PValue::Unsigned(s.len() as u32))
        } else if i - 1 < s.len() {
            Ok(f(s[i - 1]))
        } else {
            Err(BacnetError::ValueOutOfRange)
        },
        None => Ok(PValue::Array(s.map_values(f))),
    }
}

fn services_supported() -> (r: BitString)
    ensures
        r.bits@ == services_supported_bits(),
{
    let mut bits: Vec<bool> = vec![false; 40];
    bits.set(5, true);
    bits.set(12, true);
    bits.set(14, true);
    bits.set(15, true);
    bits.set(26, true);
    bits.set(34, true);
    let r = BitString::from_bits(bits.as_slice());
    assert(r.bits@ =~= services_supported_bits());
    r
}

fn object_types_supported() -> (r: BitString)
    ensures
        r.bits@ == object_types_supported_bits(),
{
    let mut bits: Vec<bool> = vec![false; 32];
    bits.set(0, true);
    bits.set(3, true);
    bits.set(8, true);
    let r = BitString::from_bits(bits.as_slice());
    assert(r.bits@ =~= object_types_supported_bits());
    r
}

fn property_list_array() -> (r: Vec<PropertyValue>)
    ensures
        values_view(r@) == device_property_ids().map_values(|id: u32| PValue::Enumerated(id)),
{
    let props: [u32; 21] = [112, 121, 120, 70, 44, 12, 98, 139, 97, 96, 76, 62, 107, 11, 73, 155, 28, 56, 57, 119, 24];
    assert(props@ =~= device_property_ids());
    let mut arr: Vec<PropertyValue> = Vec::new();
    let mut k: usize = 0;
    while k < 21
        invariant
            k <= 21,
            props@ == device_property_ids(),
            values_view(arr@) =~= device_property_ids().take(k as int).map_values(|id: u32| PValue::Enumerated(id)),
        decreases 21 - k,
    {
        let ghost before = arr@;
        let v = PropertyValue::Enumerated(props[k]);
        assert(v@ == PValue::Enumerated(props@[k as int]));
        arr.push(v);
        assert(arr@.drop_last() =~= before);
        assert(values_view(arr@) == values_view(before).push(PValue::Enumerated(props@[k as int])));
        k = k + 1;
        assert(values_view(arr@) =~= device_property_ids().take(k as int).map_values(|id: u32| PValue::Enumerated(id)));
    }
    assert(device_property_ids().take(21) =~= device_property_ids());
    arr
}

fn object_list_array(list: &Vec<ObjectId>) -> (r: Vec<PropertyValue>)
    ensures
        values_view(r@) == list@.map_values(|o: ObjectId| PValue::ObjectId(o)),
{
    let mut out: Vec<PropertyValue> = Vec::new();
    let n = list.len();
    let mut i: usize = 0;
    while i < n
        invariant
            n == list@.len(),
            i <= n,
            values_view(out@) =~= list@.take(i as int).map_values(|o: ObjectId| PValue::ObjectId(o)),
        decreases n - i,
    {
        let ghost before = out@;
        let v = PropertyValue::ObjectId(list[i]);
        assert(v@ == PValue::ObjectId(list@[i as int]));
        out.push(v);
        assert(out@.drop_last() =~= before);
        assert(values_view(out@) == values_view(before).push(PValue::ObjectId(list@[i as int])));
        i = i + 1;
        assert(values_view(out@) =~= list@.take(i as int).map_values(|o: ObjectId| PValue::ObjectId(o)));
    }
    assert(list@.take(n as int) =~= list@);
    out
}

impl DeviceObject {
    /// A fresh device whose object list holds its own Device object.
    pub fn new(device_id: DeviceId, name: &str) -> (r: DeviceObject)
        ensures
            r.device_id == device_id,
            r.object_name@ == name@,
            r.vendor_name@ == "bacnet-sim"@,
            r.vendor_identifier == 999,
            r.model_name@ == "bacnet-sim"@,
            r.firmware_revision@ == SOFTWARE_VERSION@,
            r.application_software_version@ == SOFTWARE_VERSION@,
            r.description@ == Seq::<char>::empty(),
            r.max_apdu_length_accepted == 1476,
            r.database_revision == 0,
            r.object_list@ == seq![device_object_id(device_id)],
    {
        let oid = ObjectId { object_type: ObjectType::Device, instance: device_id.0 };
        let r = DeviceObject {
            device_id,
            object_name: String::from_str(name),
            vendor_name: String::from_str("bacnet-sim"),
            vendor_identifier: 999,
            model_name: String::from_str("bacnet-sim"),
            firmware_revision: String::from_str(SOFTWARE_VERSION),
            application_software_version: String::from_str(SOFTWARE_VERSION),
            description: String::new(),
            max_apdu_length_accepted: 1476,
            database_revision: 0,
            object_list: vec![oid],
        };
        assert(r.object_list@ =~= seq![device_object_id(device_id)]);
        r
    }

    /// The outcome of reading property `p` with array index `idx`, for every
    /// property but Local_Date and Local_Time (which read the clock).
    pub open spec fn property(&self, p: PropertyIdentifier, idx: Option<u32>) -> Result<PValue, BacnetError> {
        match p {
            PropertyIdentifier::ObjectIdentifier => Ok(PValue::ObjectId(device_object_id(self.device_id))),
            PropertyIdentifier::ObjectName => Ok(PValue::CharacterString(self.object_name@)),
            PropertyIdentifier::ObjectType => Ok(PValue::Enumerated(8)),
            PropertyIdentifier::VendorName => Ok(PValue::CharacterString(self.vendor_name@)),
            PropertyIdentifier::VendorIdentifier => Ok(PValue::Unsigned(self.vendor_identifier as u32)),
            PropertyIdentifier::ModelName => Ok(PValue::CharacterString(self.model_name@)),
            PropertyIdentifier::FirmwareRevision => Ok(PValue::CharacterString(self.firmware_revision@)),
            PropertyIdentifier::ApplicationSoftwareVersion => Ok(PValue::CharacterString(self.application_software_version@)),
            PropertyIdentifier::ProtocolVersion => Ok(PValue::Unsigned(1)),
            PropertyIdentifier::ProtocolRevision => Ok(PValue::Unsigned(22)),
            PropertyIdentifier::MaxApduLengthAccepted => Ok(PValue::Unsigned(self.max_apdu_length_accepted as u32)),
            PropertyIdentifier::SegmentationSupported => Ok(PValue::Enumerated(3)),
            PropertyIdentifier::DatabaseRevision => Ok(PValue::Unsigned(self.database_revision)),
            PropertyIdentifier::SystemStatus => Ok(PValue::Enumerated(0)),
            PropertyIdentifier::Description => Ok(PValue::CharacterString(self.description@)),
            PropertyIdentifier::ObjectList => list_entry(self.object_list@, idx, |o: ObjectId| PValue::ObjectId(o)),
            PropertyIdentifier::ApduTimeout => Ok(PValue::Unsigned(6000)),
            PropertyIdentifier::NumberOfApduRetries => Ok(PValue::Unsigned(3)),
            PropertyIdentifier::ProtocolServicesSupported => Ok(PValue::BitString(services_supported_bits())),
            PropertyIdentifier::ProtocolObjectTypesSupported => Ok(PValue::BitString(object_types_supported_bits())),
            PropertyIdentifier::UtcOffset => Ok(PValue::Integer(0)),
            PropertyIdentifier::DaylightSavingsStatus => Ok(PValue::Boolean(false)),
            PropertyIdentifier::PropertyList => list_entry(device_property_ids(), idx, |id: u32| PValue::Enumerated(id)),
            _ => Err(BacnetError::UnknownProperty),
        }
    }

    /// The properties listed for RPM `ALL`, in order, with the local date
    /// and time `date` and `time`: every property the device answers.
    pub open spec fn property_list_at(&self, date: BacnetDate, time: BacnetTime) -> Seq<(PropertyIdentifier, PValue)> {
        seq![
            (PropertyIdentifier::ObjectIdentifier, PValue::ObjectId(device_object_id(self.device_id))),
            (PropertyIdentifier::ObjectName, PValue::CharacterString(self.object_name@)),
            (PropertyIdentifier::ObjectType, PValue::Enumerated(8)),
            (PropertyIdentifier::VendorName, PValue::CharacterString(self.vendor_name@)),
            (PropertyIdentifier::VendorIdentifier, PValue::Unsigned(self.vendor_identifier as u32)),
            (PropertyIdentifier::ModelName, PValue::CharacterString(self.model_name@)),
            (PropertyIdentifier::FirmwareRevision, PValue::CharacterString(self.firmware_revision@)),
            (PropertyIdentifier::ApplicationSoftwareVersion, PValue::CharacterString(self.application_software_version@)),
            (PropertyIdentifier::ProtocolVersion, PValue::Unsigned(1)),
            (PropertyIdentifier::ProtocolRevision, PValue::Unsigned(22)),
            (PropertyIdentifier::MaxApduLengthAccepted, PValue::Unsigned(self.max_apdu_length_accepted as u32)),
            (PropertyIdentifier::SegmentationSupported, PValue::Enumerated(3)),
            (PropertyIdentifier::DatabaseRevision, PValue::Unsigned(self.database_revision)),
            (PropertyIdentifier::SystemStatus, PValue::Enumerated(0)),
            (PropertyIdentifier::Description, PValue::CharacterString(self.description@)),
            (PropertyIdentifier::ApduTimeout, PValue::Unsigned(6000)),
            (PropertyIdentifier::NumberOfApduRetries, PValue::Unsigned(3)),
            (PropertyIdentifier::ObjectList, PValue::Array(self.object_list@.map_values(|o: ObjectId| PValue::ObjectId(o)))),
            (PropertyIdentifier::ProtocolServicesSupported, PValue::BitString(services_supported_bits())),
            (PropertyIdentifier::ProtocolObjectTypesSupported, PValue::BitString(object_types_supported_bits())),
            (PropertyIdentifier::LocalDate, PValue::Date(date)),
            (PropertyIdentifier::LocalTime, PValue::Time(time)),
            (PropertyIdentifier::UtcOffset, PValue::Integer(0)),
            (PropertyIdentifier::DaylightSavingsStatus, PValue::Boolean(false)),
            (PropertyIdentifier::PropertyList, PValue::Array(device_property_ids().map_values(|id: u32| PValue::Enumerated(id)))),
        ]
    }

    /// Whether `list` is what RPM `ALL` lists: the property list at the
    /// UTC date and time of some instant.
    pub open spec fn lists_all(&self, list: Seq<(PropertyIdentifier, PValue)>) -> bool {
        exists|secs: u64, date: BacnetDate, time: BacnetTime| is_utc_of(secs, (date, time)) && list == self.property_list_at(date, time)
    }
}

/// Whether `r` is the outcome of reading property `p` with index `idx`:
/// the clock for the local date and time, else the stated value or error.
pub open spec fn device_read_outcome(d: DeviceObject, p: PropertyIdentifier, idx: Option<u32>, r: Result<PropertyValue, BacnetError>) -> bool {
    if p == PropertyIdentifier::LocalDate {
        exists|secs: u64, date: BacnetDate, time: BacnetTime| is_utc_of(secs, (date, time)) && r == Ok::<PropertyValue, BacnetError>(PropertyValue::Date(date))
    } else if p == PropertyIdentifier::LocalTime {
        exists|secs: u64, date: BacnetDate, time: BacnetTime| is_utc_of(secs, (date, time)) && r == Ok::<PropertyValue, BacnetError>(PropertyValue::Time(time))
    } else {
        match d.property(p, idx) {
            Ok(v) => r matches Ok(x) && x@ == v,
            Err(e) => r == Err::<PropertyValue, BacnetError>(e),
        }
    }
}

impl BacnetObject for DeviceObject {
    fn object_id(&self) -> (r: ObjectId)
        ensures
            r == device_object_id(self.device_id),
    {
        ObjectId { object_type: ObjectType::Device, instance: self.device_id.0 }
    }

    fn device_id(&self) -> (r: DeviceId)
        ensures
            r == self.device_id,
    {
        self.device_id
    }

    fn read_property(&self, property_id: PropertyIdentifier, array_index: Option<u32>) -> (r: Result<PropertyValue, BacnetError>)
        ensures
            device_read_outcome(*self, property_id, array_index, r),
    {
        match property_id {
            PropertyIdentifier::ObjectIdentifier => Ok(PropertyValue::ObjectId(self.object_id())),
            PropertyIdentifier::ObjectName => Ok(PropertyValue::CharacterString(self.object_name.clone())),
            PropertyIdentifier::ObjectType => Ok(PropertyValue::Enumerated(ObjectType::Device.to_u32())),
            PropertyIdentifier::VendorName => Ok(PropertyValue::CharacterString(self.vendor_name.clone())),
            PropertyIdentifier::VendorIdentifier => Ok(PropertyValue::Unsigned(self.vendor_identifier as u32)),
            PropertyIdentifier::ModelName => Ok(PropertyValue::CharacterString(self.model_name.clone())),
            PropertyIdentifier::FirmwareRevision => Ok(PropertyValue::CharacterString(self.firmware_revision.clone())),
            PropertyIdentifier::ApplicationSoftwareVersion => Ok(PropertyValue::CharacterString(self.application_software_version.clone())),
            PropertyIdentifier::ProtocolVersion => Ok(PropertyValue::Unsigned(1)),
            PropertyIdentifier::ProtocolRevision => Ok(PropertyValue::Unsigned(22)),
            PropertyIdentifier::MaxApduLengthAccepted => Ok(PropertyValue::Unsigned(self.max_apdu_length_accepted as u32)),
            PropertyIdentifier::SegmentationSupported => Ok(PropertyValue::Enumerated(3)),
            PropertyIdentifier::DatabaseRevision => Ok(PropertyValue::Unsigned(self.database_revision)),
            PropertyIdentifier::SystemStatus => Ok(PropertyValue::Enumerated(0)),
            PropertyIdentifier::Description => Ok(PropertyValue::CharacterString(self.description.clone())),
            PropertyIdentifier::ObjectList => match array_index {
                Some(i) => {
                    if i == 0 {
                        Ok(PropertyValue::Unsigned(self.object_list.len() as u32))
                    } else if ((i - 1) as usize) < self.object_list.len() {
                        Ok(PropertyValue::ObjectId(self.object_list[(i - 1) as usize]))
                    } else {
                        Err(BacnetError::ValueOutOfRange)
                    }
                },
                None => Ok(PropertyValue::Array(object_list_array(&self.object_list))),
            },
            PropertyIdentifier::ApduTimeout => Ok(PropertyValue::Unsigned(6000)),
            PropertyIdentifier::NumberOfApduRetries => Ok(PropertyValue::Unsigned(3)),
            PropertyIdentifier::ProtocolServicesSupported => Ok(PropertyValue::BitString(services_supported())),
            PropertyIdentifier::ProtocolObjectTypesSupported => Ok(PropertyValue::BitString(object_types_supported())),
            PropertyIdentifier::LocalDate => {
                let (date, time) = current_utc();
                Ok(PropertyValue::Date(date))
            },
            PropertyIdentifier::LocalTime => {
                let (date, time) = current_utc();
                Ok(PropertyValue::Time(time))
            },
            PropertyIdentifier::UtcOffset => Ok(PropertyValue::Integer(0)),
            PropertyIdentifier::DaylightSavingsStatus => Ok(PropertyValue::Boolean(false)),
            PropertyIdentifier::PropertyList => {
                let props: [u32; 21] = [112, 121, 120, 70, 44, 12, 98, 139, 97, 96, 76, 62, 107, 11, 73, 155, 28, 56, 57, 119, 24];
                assert(props@ =~= device_property_ids());
                match array_index {
                    Some(i) => {
                        if i == 0 {
                            Ok(PropertyValue::Unsigned(21))
                        } else if i - 1 < 21 {
                            Ok(PropertyValue::Enumerated(props[(i - 1) as usize]))
                        } else {
                            Err(BacnetError::ValueOutOfRange)
                        }
                    },
                    None => Ok(PropertyValue::Array(property_list_array())),
                }
            },
            _ => Err(BacnetError::UnknownProperty),
        }
    }

    /// Nothing is writable.
    fn write_property(&mut self, property_id: PropertyIdentifier, array_index: Option<u32>, value: PropertyValue, priority: Option<u8>) -> (r: Result<(), BacnetError>)
        ensures
            r == Err::<(), BacnetError>(BacnetError::WriteAccessDenied),
            *final(self) == *old(self),
    {
        Err(BacnetError::WriteAccessDenied)
    }

    fn force_write_property(&mut self, property_id: PropertyIdentifier, value: PropertyValue) -> (r: Result<(), BacnetError>)
        ensures
            r == Err::<(), BacnetError>(BacnetError::WriteAccessDenied),
            *final(self) == *old(self),
    {
        Err(BacnetError::WriteAccessDenied)
    }

    fn tick(&mut self, now: SystemTime, delta: Duration)
        ensures
            *final(self) == *old(self),
    {
    }

    fn changed_since(&self, since: Instant) -> (r: Vec<PropertyIdentifier>)
        ensures
            r@ == Seq::<PropertyIdentifier>::empty(),
    {
        Vec::new()
    }

    fn all_properties(&self) -> (r: Vec<(PropertyIdentifier, PropertyValue)>)
        ensures
            self.lists_all(props_view(r@)),
    {
        let (date, time) = current_utc();
        let mut props: Vec<(PropertyIdentifier, PropertyValue)> = Vec::new();
        props.push(entry(PropertyIdentifier::ObjectIdentifier, PropertyValue::ObjectId(self.object_id())));
        props.push(entry(PropertyIdentifier::ObjectName, PropertyValue::CharacterString(self.object_name.clone())));
        props.push(entry(PropertyIdentifier::ObjectType, PropertyValue::Enumerated(ObjectType::Device.to_u32())));
        props.push(entry(PropertyIdentifier::VendorName, PropertyValue::CharacterString(self.vendor_name.clone())));
        props.push(entry(PropertyIdentifier::VendorIdentifier, PropertyValue::Unsigned(self.vendor_identifier as u32)));
        props.push(entry(PropertyIdentifier::ModelName, PropertyValue::CharacterString(self.model_name.clone())));
        props.push(entry(PropertyIdentifier::FirmwareRevision, PropertyValue::CharacterString(self.firmware_revision.clone())));
        props.push(entry(PropertyIdentifier::ApplicationSoftwareVersion, PropertyValue::CharacterString(self.application_software_version.clone())));
        props.push(entry(PropertyIdentifier::ProtocolVersion, PropertyValue::Unsigned(1)));
        props.push(entry(PropertyIdentifier::ProtocolRevision, PropertyValue::Unsigned(22)));
        props.push(entry(PropertyIdentifier::MaxApduLengthAccepted, PropertyValue::Unsigned(self.max_apdu_length_accepted as u32)));
        props.push(entry(PropertyIdentifier::SegmentationSupported, PropertyValue::Enumerated(3)));
        props.push(entry(PropertyIdentifier::DatabaseRevision, PropertyValue::Unsigned(self.database_revision)));
        props.push(entry(PropertyIdentifier::SystemStatus, PropertyValue::Enumerated(0)));
        props.push(entry(PropertyIdentifier::Description, PropertyValue::CharacterString(self.description.clone())));
        props.push(entry(PropertyIdentifier::ApduTimeout, PropertyValue::Unsigned(6000)));
        props.push(entry(PropertyIdentifier::NumberOfApduRetries, PropertyValue::Unsigned(3)));
        props.push(entry(PropertyIdentifier::ObjectList, PropertyValue::Array(object_list_array(&self.object_list))));
        props.push(entry(PropertyIdentifier::ProtocolServicesSupported, PropertyValue::BitString(services_supported())));
        props.push(entry(PropertyIdentifier::ProtocolObjectTypesSupported, PropertyValue::BitString(object_types_supported())));
        props.push(entry(PropertyIdentifier::LocalDate, PropertyValue::Date(date)));
        props.push(entry(PropertyIdentifier::LocalTime, PropertyValue::Time(time)));
        props.push(entry(PropertyIdentifier::UtcOffset, PropertyValue::Integer(0)));
        props.push(entry(PropertyIdentifier::DaylightSavingsStatus, PropertyValue::Boolean(false)));
        props.push(entry(PropertyIdentifier::PropertyList, PropertyValue::Array(property_list_array())));
        assert(props_view(props@) =~= self.property_list_at(date, time));
        props
    }
}

/// Every property that RPM `ALL` lists, but the local date and time (which
/// read the clock anew), reads back (without an array index) as the value it
/// is listed with.
pub proof fn lemma_device_list_reads_back(d: DeviceObject, date: BacnetDate, time: BacnetTime)
    ensures
        forall|i: int|
            0 <= i < d.property_list_at(date, time).len() && d.property_list_at(date, time)[i].0 != PropertyIdentifier::LocalDate
                && d.property_list_at(date, time)[i].0 != PropertyIdentifier::LocalTime ==> #[trigger] d.property(
                d.property_list_at(date, time)[i].0,
                None,
            ) == Ok::<PValue, BacnetError>(d.property_list_at(date, time)[i].1),
{
}

/// The Property_List names, each once, every property the device answers
/// but its identifier, name and type and the list itself.
pub proof fn lemma_property_list_complete(d: DeviceObject, p: PropertyIdentifier)
    requires
        property_from_code(property_code(p)) == p,
        p != PropertyIdentifier::ObjectIdentifier,
        p != PropertyIdentifier::ObjectName,
        p != PropertyIdentifier::ObjectType,
        p != PropertyIdentifier::PropertyList,
    ensures
        device_property_ids().contains(property_code(p)) <==> (d.property(p, None) is Ok
            || p == PropertyIdentifier::LocalDate || p == PropertyIdentifier::LocalTime),
        device_property_ids().no_duplicates(),
{
    let ids = device_property_ids();
    assert(ids.len() == 21);
    assert(ids[0] == 112 && ids[1] == 121 && ids[2] == 120 && ids[3] == 70 && ids[4] == 44 && ids[5] == 12
        && ids[6] == 98 && ids[7] == 139 && ids[8] == 97 && ids[9] == 96 && ids[10] == 76 && ids[11] == 62
        && ids[12] == 107 && ids[13] == 11 && ids[14] == 73 && ids[15] == 155 && ids[16] == 28 && ids[17] == 56
        && ids[18] == 57 && ids[19] == 119 && ids[20] == 24);
    if ids.contains(property_code(p)) {
        let i = choose|i: int| 0 <= i < ids.len() && ids[i] == property_code(p);
        assert(p == property_from_code(ids[i]));
        assert(i == 0 || i == 1 || i == 2 || i == 3 || i == 4 || i == 5 || i == 6 || i == 7 || i == 8 || i == 9 || i == 10 || i == 11 || i == 12 || i == 13 || i == 14 || i == 15 || i == 16 || i == 17 || i == 18 || i == 19 || i == 20);
    }
    assert forall|i: int| 0 <= i < 21 implies #[trigger] property_list_position(ids[i]) == i by {
        assert(i == 0 || i == 1 || i == 2 || i == 3 || i == 4 || i == 5 || i == 6 || i == 7 || i == 8 || i == 9 || i == 10 || i == 11 || i == 12 || i == 13 || i == 14 || i == 15 || i == 16 || i == 17 || i == 18 || i == 19 || i == 20);
    }
    assert forall|i: int, j: int| 0 <= i < ids.len() && 0 <= j < ids.len() && i != j implies ids[i] != ids[j] by {
        assert(property_list_position(ids[i]) == i && property_list_position(ids[j]) == j);
    }
}

/// The place of `c` in the Property_List of a device.
spec fn property_list_position(c: u32) -> int {
    if c == 112 { 0 } else if c == 121 { 1 } else if c == 120 { 2 } else if c == 70 { 3 } else if c == 44 { 4 }
    else if c == 12 { 5 } else if c == 98 { 6 } else if c == 139 { 7 } else if c == 97 { 8 } else if c == 96 { 9 }
    else if c == 76 { 10 } else if c == 62 { 11 } else if c == 107 { 12 } else if c == 11 { 13 } else if c == 73 { 14 }
    else if c == 155 { 15 } else if c == 28 { 16 } else if c == 56 { 17 } else if c == 57 { 18 } else if c == 119 { 19 }
    else if c == 24 { 20 } else { -1 }
}

/// Index 0 of a list property gives its length, and the indices from 1 to
/// the length give its elements in order.
pub proof fn lemma_list_indexing<T>(s: Seq<T>, f: spec_fn(T) -> PValue, i: u32)
    requires
        s.len() < 0x1_0000_0000,
    ensures
        list_entry(s, Some(0), f) == Ok::<PValue, BacnetError>(PValue::Unsigned(s.len() as u32)),
        1 <= i <= s.len() ==> list_entry(s, Some(i), f) == Ok::<PValue, BacnetError>(f(s[i - 1])),
        i > s.len() ==> list_entry(s, Some(i), f) == Err::<PValue, BacnetError>(BacnetError::ValueOutOfRange),
{
}

} // verus!
