use bacnet_sim::engine::cov::{CovEngine, CovSubKey, CovSubscription};
use bacnet_sim::object::analog_input::AnalogInput;
use bacnet_sim::object::property::BacnetObject;
use bacnet_sim::object::store::{ObjectStore, StoredObject};
use bacnet_sim::types::{
    DeviceId, EngineeringUnits, Ipv4Endpoint, MacAddr, NetworkAddress, ObjectId, ObjectType, PropertyIdentifier,
    PropertyValue,
};
use std::time::{Duration, Instant};

#[test]
fn chaos_bulk_insert_1000_objects() {
    let mut store = ObjectStore::new();
    let did = DeviceId(10);

    let objects: Vec<(DeviceId, StoredObject)> = (1u32..=1000)
        .map(|i| {
            let obj = StoredObject::AnalogInput(AnalogInput::new(
                did,
                i,
                &format!("AI-{i:04}"),
                EngineeringUnits::DegreesCelsius,
            ));
            (did, obj)
        })
        .collect();

    let start = Instant::now();
    store.bulk_insert(objects);
    let elapsed = start.elapsed();

    assert_eq!(store.count(), 1000);
    for instance in [1u32, 500, 1000] {
        let oid = ObjectId { object_type: ObjectType::AnalogInput, instance };
        assert!(store.get(did, oid).is_some(), "AI-{instance} should be in store");
    }
    assert!(elapsed < Duration::from_secs(1), "bulk_insert took {elapsed:?}, expected < 1s");
}

#[test]
fn chaos_duplicate_insert_overwrites_not_grows() {
    let mut store = ObjectStore::new();
    let did = DeviceId(30);
    let oid = ObjectId { object_type: ObjectType::AnalogInput, instance: 1 };

    store.insert(did, StoredObject::AnalogInput(AnalogInput::new(did, 1, "first", EngineeringUnits::NoUnits)));
    store.insert(did, StoredObject::AnalogInput(AnalogInput::new(did, 1, "second", EngineeringUnits::NoUnits)));

    assert_eq!(store.count(), 1, "Duplicate insert should overwrite, not add a second entry");
    let obj = store.get(did, oid).expect("Object not found after duplicate insert");
    let name = obj.read_property(PropertyIdentifier::ObjectName, None).unwrap();
    assert_eq!(name, PropertyValue::CharacterString("second".to_string()));
}

fn sub_key(process_id: u32, device_id: u32, instance: u32) -> CovSubKey {
    CovSubKey {
        subscriber: NetworkAddress {
            network_number: 0,
            mac: MacAddr::Ip(Ipv4Endpoint { octets: [127, 0, 0, 1], port: 47808 }),
        },
        process_id,
        object_id: ObjectId { object_type: ObjectType::AnalogInput, instance },
        device_id: DeviceId(device_id),
    }
}

fn make_sub(lifetime_secs: Option<u32>) -> CovSubscription {
    CovSubscription {
        confirmed: false,
        lifetime_secs,
        subscribed_at: Instant::now(),
        cov_increment: Some(0.5f32.to_bits()),
        monitored_prop: None,
        last_notified_at: Instant::now(),
        last_value: PropertyValue::Real(0.0f32.to_bits()),
    }
}

#[test]
fn chaos_10k_cov_subscriptions_all_active() {
    let mut engine = CovEngine::new();
    for i in 0u32..10_000 {
        engine.subscribe(sub_key(i, i % 1000, i % 100), make_sub(Some(3600)));
    }
    let count = engine.active_count();
    assert!(count > 0, "Expected subscriptions to be active");
    assert_eq!(count, 10_000);
}

#[test]
fn chaos_expired_subscriptions_are_removed() {
    let mut engine = CovEngine::new();
    let mut sub = make_sub(Some(1));
    sub.subscribed_at = Instant::now() - Duration::from_secs(5);
    let key = sub_key(1, 1, 1);
    engine.subscribe(key.clone(), sub);
    assert_eq!(engine.active_count(), 1);
    let removed = engine.expire_old();
    assert_eq!(removed, 1, "Should have removed 1 expired subscription");
    assert_eq!(engine.active_count(), 0);
}

#[test]
fn chaos_perpetual_subscriptions_survive_expire_old() {
    let mut engine = CovEngine::new();
    engine.subscribe(sub_key(1, 1, 1), make_sub(None));
    engine.expire_old();
    assert_eq!(engine.active_count(), 1);
}

#[test]
fn chaos_rapid_subscribe_unsubscribe_leaves_clean_state() {
    let mut engine = CovEngine::new();
    let key = sub_key(99, 99, 99);
    for _ in 0..1_000 {
        engine.subscribe(key.clone(), make_sub(Some(60)));
        engine.unsubscribe(&key);
    }
    assert_eq!(engine.active_count(), 0, "All subscriptions should be removed");
}

#[test]
fn cov_resubscribe_replaces_and_expiry_keeps_live_ones() {
    let mut engine = CovEngine::default();
    let key = sub_key(7, 1, 1);
    engine.subscribe(key.clone(), make_sub(Some(1)));
    engine.subscribe(key.clone(), make_sub(Some(3600)));
    assert_eq!(engine.active_count(), 1);
    let mut old = make_sub(Some(2));
    old.subscribed_at = Instant::now() - Duration::from_secs(10);
    engine.subscribe(sub_key(8, 1, 1), old);
    let mut other_mac = sub_key(7, 1, 1);
    other_mac.subscriber.mac = MacAddr::MsTP(3);
    engine.subscribe(other_mac.clone(), make_sub(None));
    assert_eq!(engine.active_count(), 3);
    assert_eq!(engine.expire_old(), 1);
    assert_eq!(engine.active_count(), 2);
    engine.unsubscribe(&sub_key(8, 1, 1));
    assert_eq!(engine.active_count(), 2);
    engine.unsubscribe(&other_mac);
    assert_eq!(engine.active_count(), 1);
}
