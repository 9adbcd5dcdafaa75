use bacnet_sim::object::device::DeviceObject;
use bacnet_sim::object::property::BacnetObject;
use bacnet_sim::object::schedule::{Schedule, TimeValue};
use bacnet_sim::object::trend_log::TrendLog;
use bacnet_sim::types::{DeviceId, PropertyIdentifier, PropertyValue};

fn real_value(v: f32) -> PropertyValue {
    PropertyValue::Real(v.to_bits())
}

fn make_schedule() -> Schedule {
    let mut sched = Schedule::new(DeviceId(1), 1, "SCHED-01");
    sched.schedule_default = real_value(18.0);
    sched.weekly_schedule[0].slots = vec![
        TimeValue { time_of_day_secs: 8 * 3600, value: real_value(21.0) },
        TimeValue { time_of_day_secs: 18 * 3600, value: real_value(18.0) },
    ];
    sched
}

#[test]
fn schedule_default_before_first_slot() {
    let sched = make_schedule();
    let val = sched.evaluate_at(1_704_067_200 + 7 * 3600);
    assert_eq!(val, &real_value(18.0));
}

#[test]
fn schedule_occupied_slot() {
    let sched = make_schedule();
    let val = sched.evaluate_at(1_704_067_200 + 9 * 3600);
    assert_eq!(val, &real_value(21.0));
}

#[test]
fn schedule_unoccupied_slot() {
    let sched = make_schedule();
    let val = sched.evaluate_at(1_704_067_200 + 19 * 3600);
    assert_eq!(val, &real_value(18.0));
}

#[test]
fn trend_log_record_and_cap() {
    let dev = DeviceId(1);
    let mut tl = TrendLog::new(dev, 1, "TL-01");
    tl.buffer_size = 3;
    for i in 0..5u32 {
        tl.record(PropertyValue::Unsigned(i));
    }
    assert_eq!(tl.log_buffer.len(), 3);
    assert_eq!(tl.record_count, 3);
    assert_eq!(tl.total_record_count, 5);
    if let PropertyValue::Unsigned(v) = &tl.log_buffer.back().unwrap().value {
        assert_eq!(*v, 4);
    } else {
        panic!("unexpected value type");
    }
}

#[test]
fn trend_log_clear_via_write() {
    let dev = DeviceId(1);
    let mut tl = TrendLog::new(dev, 1, "TL-01");
    tl.record(real_value(1.0));
    tl.record(real_value(2.0));
    tl.write_property(PropertyIdentifier::RecordCount, None, PropertyValue::Unsigned(0), None).unwrap();
    assert_eq!(tl.record_count, 0);
    assert!(tl.log_buffer.is_empty());
}

#[test]
fn trend_log_disabled_does_not_record() {
    let dev = DeviceId(1);
    let mut tl = TrendLog::new(dev, 1, "TL-01");
    tl.enable = false;
    tl.record(real_value(1.0));
    assert_eq!(tl.record_count, 0);
}

#[test]
fn device_property_list_names_readable_properties_but_itself() {

    let d = DeviceObject::new(DeviceId(1234), "dev");
    let list = match d.read_property(PropertyIdentifier::PropertyList, None).unwrap() {
        PropertyValue::Array(a) => a,
        other => panic!("expected an array, got {:?}", other),
    };
    assert_eq!(list.len(), 21);
    for excluded in [75u32, 77, 79, 371] {
        assert!(!list.contains(&PropertyValue::Enumerated(excluded)));
    }
    assert!(list.contains(&PropertyValue::Enumerated(12)));
    assert!(list.contains(&PropertyValue::Enumerated(56)));
    assert_eq!(d.read_property(PropertyIdentifier::PropertyList, Some(0)).unwrap(), PropertyValue::Unsigned(21));
    let all = d.all_properties();
    for p in [
        PropertyIdentifier::ApplicationSoftwareVersion,
        PropertyIdentifier::LocalDate,
        PropertyIdentifier::LocalTime,
        PropertyIdentifier::UtcOffset,
        PropertyIdentifier::DaylightSavingsStatus,
        PropertyIdentifier::PropertyList,
    ] {
        assert!(all.iter().any(|(q, _)| *q == p));
        assert!(d.read_property(p, None).is_ok());
    }
}
