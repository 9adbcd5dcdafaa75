use bacnet_sim::config::{DeviceGroupConfig, ObjectSpec, ProfileConfig};
use bacnet_sim::object::store::ObjectStore;
use bacnet_sim::sim::builder::{build_simulation, parse_units};
use bacnet_sim::stack::dispatcher::ApduDispatcher;
use bacnet_sim::types::EngineeringUnits;

fn make_config(devices: u32, objects_per_device: u32) -> (Vec<DeviceGroupConfig>, Vec<(String, ProfileConfig)>) {
    let profiles = vec![(
        "test_profile".to_string(),
        ProfileConfig {
            description: None,
            objects: vec![ObjectSpec {
                object_type: "AnalogInput".to_string(),
                count: objects_per_device,
                name_prefix: "AI".to_string(),
                units: Some("DegreesCelsius".to_string()),
            }],
        },
    )];
    let groups = vec![DeviceGroupConfig { id_range: [1, devices], network: 1, profile: "test_profile".to_string() }];
    (groups, profiles)
}

#[test]
fn bulk_build_correct_count() {
    let (groups, profiles) = make_config(10, 5);
    let mut store = ObjectStore::new();
    let mut dispatcher = ApduDispatcher::new();
    build_simulation(&groups, &profiles, &mut store, &mut dispatcher);
    assert_eq!(store.count(), 60);
}

#[test]
fn bulk_build_1000_devices_10_objects() {
    let (groups, profiles) = make_config(1000, 10);
    let mut store = ObjectStore::new();
    let mut dispatcher = ApduDispatcher::new();
    build_simulation(&groups, &profiles, &mut store, &mut dispatcher);
    assert_eq!(store.count(), 11_000);
}

#[test]
fn parse_units_case_insensitive() {
    assert_eq!(parse_units(Some("DegreesCelsius")), EngineeringUnits::DegreesCelsius);
    assert_eq!(parse_units(Some("celsius")), EngineeringUnits::DegreesCelsius);
    assert_eq!(parse_units(Some("percent")), EngineeringUnits::Percent);
    assert_eq!(parse_units(None), EngineeringUnits::NoUnits);
}
