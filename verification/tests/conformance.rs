use bacnet_sim::object::analog_input::AnalogInput;
use bacnet_sim::object::binary_input::BinaryInput;
use bacnet_sim::object::device::DeviceObject;
use bacnet_sim::object::property::BacnetObject;
use bacnet_sim::object::store::{ObjectStore, StoredObject};
use bacnet_sim::types::{BacnetError, DeviceId, EngineeringUnits, ObjectId, ObjectType, PropertyIdentifier, PropertyValue};

fn make_store_with_ai() -> (ObjectStore, DeviceId, ObjectId) {
    let mut store = ObjectStore::new();
    let did = DeviceId(500);
    let oid = ObjectId { object_type: ObjectType::AnalogInput, instance: 1 };
    store.insert(did, StoredObject::Device(DeviceObject::new(did, "test-device")));
    store.insert(did, StoredObject::AnalogInput(AnalogInput::new(did, 1, "AI-01", EngineeringUnits::DegreesCelsius)));
    (store, did, oid)
}

fn read(store: &ObjectStore, did: DeviceId, oid: ObjectId, prop: PropertyIdentifier) -> Option<PropertyValue> {
    let obj = store.get(did, oid)?;
    obj.read_property(prop, None).ok()
}

#[test]
fn device_object_has_all_required_properties() {
    let mut store = ObjectStore::new();
    let did = DeviceId(1234);
    let dev_oid = ObjectId { object_type: ObjectType::Device, instance: 1234 };
    store.insert(did, StoredObject::Device(DeviceObject::new(did, "conformance-dev")));

    let required = [
        PropertyIdentifier::ObjectIdentifier,
        PropertyIdentifier::ObjectName,
        PropertyIdentifier::ObjectType,
        PropertyIdentifier::SystemStatus,
        PropertyIdentifier::VendorName,
        PropertyIdentifier::VendorIdentifier,
        PropertyIdentifier::ModelName,
        PropertyIdentifier::FirmwareRevision,
        PropertyIdentifier::ApplicationSoftwareVersion,
        PropertyIdentifier::ProtocolVersion,
        PropertyIdentifier::ProtocolRevision,
        PropertyIdentifier::MaxApduLengthAccepted,
        PropertyIdentifier::SegmentationSupported,
        PropertyIdentifier::ObjectList,
        PropertyIdentifier::DatabaseRevision,
    ];

    let obj = store.get(did, dev_oid).expect("Device object not found");
    for &prop in &required {
        let result = obj.read_property(prop, None);
        assert!(result.is_ok(), "CONFORMANCE §12.10: Device required property {prop:?} is missing");
    }
}

#[test]
fn analog_input_has_all_required_properties() {
    let (store, did, oid) = make_store_with_ai();
    let required = [
        PropertyIdentifier::ObjectIdentifier,
        PropertyIdentifier::ObjectName,
        PropertyIdentifier::ObjectType,
        PropertyIdentifier::PresentValue,
        PropertyIdentifier::StatusFlags,
        PropertyIdentifier::EventState,
        PropertyIdentifier::OutOfService,
        PropertyIdentifier::Units,
    ];
    let obj = store.get(did, oid).expect("AI not found");
    for &prop in &required {
        let result = obj.read_property(prop, None);
        assert!(result.is_ok(), "CONFORMANCE §12.2: AI required property {prop:?} missing");
    }
}

#[test]
fn analog_input_present_value_is_real() {
    let (store, did, oid) = make_store_with_ai();
    let val = read(&store, did, oid, PropertyIdentifier::PresentValue).expect("PresentValue missing");
    assert!(matches!(val, PropertyValue::Real(_)), "PresentValue must be Real, got {val:?}");
}

#[test]
fn analog_input_object_type_is_correct() {
    let (store, did, oid) = make_store_with_ai();
    let val = read(&store, did, oid, PropertyIdentifier::ObjectType).expect("ObjectType missing");
    assert_eq!(val, PropertyValue::Enumerated(0), "ObjectType must be AnalogInput (0)");
}

#[test]
fn analog_input_out_of_service_defaults_false() {
    let (store, did, oid) = make_store_with_ai();
    let val = read(&store, did, oid, PropertyIdentifier::OutOfService).expect("OutOfService missing");
    assert_eq!(val, PropertyValue::Boolean(false));
}

#[test]
fn analog_input_units_match_construction() {
    let (store, did, oid) = make_store_with_ai();
    let val = read(&store, did, oid, PropertyIdentifier::Units).expect("Units missing");
    assert_eq!(val, PropertyValue::Enumerated(62));
}

#[test]
fn binary_input_has_all_required_properties() {
    let mut store = ObjectStore::new();
    let did = DeviceId(501);
    let oid = ObjectId { object_type: ObjectType::BinaryInput, instance: 1 };
    store.insert(did, StoredObject::BinaryInput(BinaryInput::new(did, 1, "BI-01")));
    let required = [
        PropertyIdentifier::ObjectIdentifier,
        PropertyIdentifier::ObjectName,
        PropertyIdentifier::ObjectType,
        PropertyIdentifier::PresentValue,
        PropertyIdentifier::StatusFlags,
        PropertyIdentifier::EventState,
        PropertyIdentifier::OutOfService,
    ];
    let obj = store.get(did, oid).expect("BI not found");
    for &prop in &required {
        let result = obj.read_property(prop, None);
        assert!(result.is_ok(), "CONFORMANCE §12.6: BI required property {prop:?} missing");
    }
}

#[test]
fn unknown_object_returns_error() {
    let store = ObjectStore::new();
    let did = DeviceId(999);
    let missing_oid = ObjectId { object_type: ObjectType::AnalogInput, instance: 9999 };
    let result = store.get(did, missing_oid);
    assert!(result.is_none(), "Non-existent object should not be found");
}

#[test]
fn unknown_property_returns_error() {
    let (store, did, oid) = make_store_with_ai();
    let obj = store.get(did, oid).expect("AI not found");
    let err = obj.read_property(PropertyIdentifier::Unknown(9999), None);
    assert!(err.is_err(), "Unknown property must return an error");
    let e = err.unwrap_err();
    assert!(matches!(e, BacnetError::UnknownProperty), "Expected UnknownProperty error, got {e:?}");
}

#[test]
fn object_identifier_encodes_type_and_instance() {
    let (store, did, oid) = make_store_with_ai();
    let val = read(&store, did, oid, PropertyIdentifier::ObjectIdentifier).expect("ObjectIdentifier missing");
    match val {
        PropertyValue::ObjectId(returned) => {
            assert_eq!(returned.object_type, ObjectType::AnalogInput);
            assert_eq!(returned.instance, 1);
        }
        other => panic!("Expected ObjectId, got {other:?}"),
    }
}

#[test]
fn object_store_multi_device_range() {
    let mut store = ObjectStore::new();
    for id in 1000u32..=1009 {
        let did = DeviceId(id);
        store.insert(did, StoredObject::Device(DeviceObject::new(did, &format!("DEV-{id}"))));
        store.insert(did, StoredObject::AnalogInput(AnalogInput::new(did, 1, "AI-01", EngineeringUnits::Kelvin)));
    }
    assert_eq!(store.count(), 20, "10 devices × 2 objects each = 20 total objects");
    for id in 1000u32..=1009 {
        let did = DeviceId(id);
        let dev_oid = ObjectId { object_type: ObjectType::Device, instance: id };
        let obj = store.get(did, dev_oid);
        assert!(obj.is_some(), "Device {id} should be in store");
    }
}

#[test]
fn write_present_value_denied_when_in_service() {
    let (mut store, did, oid) = make_store_with_ai();
    assert!(store.get(did, oid).is_some(), "AI not found");
    let result = store.write_property(
        did,
        oid,
        PropertyIdentifier::PresentValue,
        None,
        PropertyValue::Real(99.0f32.to_bits()),
        None,
        false,
    );
    assert!(result.is_err());
    let e = result.unwrap_err();
    assert!(matches!(e, BacnetError::WriteAccessDenied), "Expected WriteAccessDenied, got {e:?}");
}

#[test]
fn write_present_value_allowed_when_out_of_service() {
    let (mut store, did, oid) = make_store_with_ai();
    assert!(store.get(did, oid).is_some(), "AI not found");
    store
        .write_property(did, oid, PropertyIdentifier::OutOfService, None, PropertyValue::Boolean(true), None, false)
        .expect("should allow writing OutOfService");
    store
        .write_property(did, oid, PropertyIdentifier::PresentValue, None, PropertyValue::Real(42.0f32.to_bits()), None, false)
        .expect("should allow writing PresentValue when OOS");
    let obj = store.get(did, oid).unwrap();
    let pv = obj.read_property(PropertyIdentifier::PresentValue, None).unwrap();
    assert_eq!(pv, PropertyValue::Real(42.0f32.to_bits()));
}
