use bacnet_sim::api::{collect_objects, count_objects_for_device, parse_object_type, parse_property_id, register_device_id};
use bacnet_sim::codec::apdu::ack::ComplexAckService;
use bacnet_sim::codec::apdu::confirmed::{ReadPropertyRequest, WhoIsRequest, WritePropertyRequest};
use bacnet_sim::stack::services::{handle_read_property, handle_read_property_multiple, handle_write_property};
use bacnet_sim::codec::apdu::unconfirmed::{IAmRequest, UnconfirmedRequest};
use bacnet_sim::codec::apdu::confirmed::Segmentation;
use bacnet_sim::codec::bvll::BvllFrame;
use bacnet_sim::codec::mstp::{MstpDecodeError, MstpFrame, MstpFrameType};
use bacnet_sim::codec::npdu::{Npdu, NpduAddress, NpduControl};
use bacnet_sim::stack::router::{NpduRouter, PortId, RoutingDecision};
use bacnet_sim::codec::sc::ScFrame;
use bacnet_sim::config::{DeviceGroupConfig, ObjectSpec, ProfileConfig};
use bacnet_sim::engine::alarm::{out_of_range_target, AlarmTransition, EventState};
use bacnet_sim::engine::cov::subscription_expired;
use bacnet_sim::object::analog_input::AnalogInput;
use bacnet_sim::object::analog_value::AnalogValue;
use bacnet_sim::object::device::DeviceObject;
use bacnet_sim::object::multistate::MultiStateInput;
use bacnet_sim::object::property::BacnetObject;
use bacnet_sim::object::schedule::{Schedule, TimeValue};
use bacnet_sim::object::store::{ObjectStore, StoredObject};
use bacnet_sim::sim::builder::build_simulation;
use bacnet_sim::sim::reload::reload_due;
use bacnet_sim::stack::dispatcher::{ApduDispatcher, DeviceInfo};
use bacnet_sim::transport::mstp::{FrameAction, MasterCore};
use bacnet_sim::transport::sc::{handshake_step, hub_route, next_retry_delay_ms, HubAction};
use bacnet_sim::transport::{Destination, InboundFrame};
use bacnet_sim::types::{
    BacnetError, DeviceId, EngineeringUnits, MacAddr, NetworkAddress, ObjectId, ObjectType, PropertyIdentifier,
    PropertyValue, ScNodeId,
};
use bytes::{Bytes, BytesMut};
use std::time::{Duration, Instant, SystemTime, UNIX_EPOCH};

fn real_bits(v: f32) -> PropertyValue {
    PropertyValue::Real(v.to_bits())
}

fn one_group(first: u32, last: u32, profile: &str, object_type: &str, count: u32) -> (Vec<DeviceGroupConfig>, Vec<(String, ProfileConfig)>) {
    let profiles = vec![(
        "p".to_string(),
        ProfileConfig {
            description: None,
            objects: vec![ObjectSpec {
                object_type: object_type.to_string(),
                count,
                name_prefix: "AI".to_string(),
                units: Some("Percent".to_string()),
            }],
        },
    )];
    let groups = vec![DeviceGroupConfig { id_range: [first, last], network: 1, profile: profile.to_string() }];
    (groups, profiles)
}

#[test]
fn whois_with_one_limit_reads_back_without_limits() {
    let req = UnconfirmedRequest::WhoIs(WhoIsRequest { low_limit: Some(5), high_limit: None });
    let mut buf = BytesMut::new();
    req.encode(&mut buf);
    assert_eq!(&buf[..], &[0x10, 0x08]);
    match UnconfirmedRequest::decode(&buf).unwrap() {
        UnconfirmedRequest::WhoIs(w) => {
            assert_eq!(w.low_limit, None);
            assert_eq!(w.high_limit, None);
        }
        _ => panic!("expected WhoIs"),
    }
}

#[test]
fn whois_with_large_limits_reads_back() {
    let req = UnconfirmedRequest::WhoIs(WhoIsRequest { low_limit: Some(0), high_limit: Some(4_194_302) });
    let mut buf = BytesMut::new();
    req.encode(&mut buf);
    match UnconfirmedRequest::decode(&buf).unwrap() {
        UnconfirmedRequest::WhoIs(w) => {
            assert_eq!(w.low_limit, Some(0));
            assert_eq!(w.high_limit, Some(4_194_302));
        }
        _ => panic!("expected WhoIs"),
    }
}

#[test]
fn iam_instance_reads_back_modulo_instance_width() {
    let iam = UnconfirmedRequest::IAm(IAmRequest {
        device_instance: 0x400000 + 7,
        max_apdu_length_accepted: 1476,
        segmentation_supported: Segmentation::NoSegmentation,
        vendor_id: 999,
    });
    let mut buf = BytesMut::new();
    iam.encode(&mut buf);
    match UnconfirmedRequest::decode(&buf).unwrap() {
        UnconfirmedRequest::IAm(i) => assert_eq!(i.device_instance, 7),
        _ => panic!("expected IAm"),
    }
}

#[test]
fn unconfirmed_decode_rejects_unknown_service() {
    let r = UnconfirmedRequest::decode(&[0x10, 0x55]);
    assert!(matches!(r, Err(BacnetError::DecodeError(_))));
}

#[test]
fn npdu_local_roundtrip() {
    let apdu = [0x10u8, 0x08];
    let encoded = Npdu::encode_local(true, &apdu);
    assert_eq!(&encoded[..], &[0x01, 0x04, 0x10, 0x08]);
    let npdu = Npdu::decode(&encoded).unwrap();
    assert!(npdu.control.expecting_reply);
    assert!(npdu.destination.is_none());
    assert_eq!(&npdu.apdu[..], &apdu);
}

#[test]
fn bvll_forwarded_npdu_roundtrip() {
    let frame = BvllFrame::ForwardedNpdu {
        originating_address: bacnet_sim::types::Ipv4Endpoint { octets: [10, 0, 0, 1], port: 47809 },
        npdu: Bytes::from_static(b"\x01\x00\x10\x08"),
    };
    let encoded = frame.encode();
    assert_eq!(BvllFrame::decode(&encoded).unwrap(), frame);
}

#[test]
fn bvll_decode_rejects_other_type() {
    let r = BvllFrame::decode(&[0x82, 0x10, 0x00, 0x04]);
    assert!(matches!(r, Err(BacnetError::DecodeError(_))));
}

#[test]
fn mstp_decode_error_variants() {
    let mut good = MstpFrame {
        frame_type: MstpFrameType::BacnetDataNotExpectingReply,
        destination: 1,
        source: 2,
        data: Bytes::from_static(b"\x01\x02"),
    }
    .encode()
    .to_vec();
    let mut bad_header = good.clone();
    bad_header[7] ^= 0xFF;
    assert_eq!(MstpFrame::decode(&bad_header), Err(MstpDecodeError::BadHeaderCrc));
    let last = good.len() - 1;
    good[last] ^= 0xFF;
    assert_eq!(MstpFrame::decode(&good), Err(MstpDecodeError::BadDataCrc));
    let unknown = vec![0x55u8, 0xFF, 0x09, 0x01, 0x02, 0x00, 0x00, 0x00];
    assert_eq!(MstpFrame::decode(&unknown), Err(MstpDecodeError::UnknownFrameType(9)));
}

#[test]
fn sc_encapsulated_npdu_roundtrip() {
    let frame = ScFrame::encapsulated_npdu(7, Some([1, 2, 3, 4, 5, 6]), Some([6, 5, 4, 3, 2, 1]), Bytes::from_static(b"\x01\x00"));
    let encoded = frame.encode();
    let decoded = ScFrame::decode(&encoded).unwrap();
    assert_eq!(decoded.function, 0x01);
    assert_eq!(decoded.message_id, 7);
    assert_eq!(decoded.originating_vmac, Some([1, 2, 3, 4, 5, 6]));
    assert_eq!(decoded.destination_vmac, Some([6, 5, 4, 3, 2, 1]));
    assert_eq!(&decoded.payload[..], b"\x01\x00");
}

#[test]
fn hub_routes_npdu_answers_heartbeat_and_drops_rest() {
    let frame = ScFrame::encapsulated_npdu(3, Some([1; 6]), Some([2; 6]), Bytes::from_static(b"\x01\x00"));
    match hub_route(&frame.encode()) {
        HubAction::Forward(v) => assert_eq!(v, [2; 6]),
        _ => panic!("expected forward"),
    }
    let heartbeat = [0x0Au8, 0x00, 0x00, 0x2A];
    match hub_route(&heartbeat) {
        HubAction::Reply(ack) => {
            let ack = ScFrame::decode(&ack).unwrap();
            assert_eq!(ack.function, 0x0B);
            assert_eq!(ack.message_id, 0x2A);
        }
        _ => panic!("expected heartbeat ack"),
    }
    assert!(matches!(hub_route(&[0xFF]), HubAction::Ignore));
}

#[test]
fn handshake_reads_identity_and_rejects_short_request() {
    let req = bacnet_sim::transport::sc::connect_request_frame(ScNodeId([9; 16]), [4; 6]).encode();
    match handshake_step(&req) {
        Ok(Some((id, vmac))) => {
            assert_eq!(id, ScNodeId([9; 16]));
            assert_eq!(vmac, [4; 6]);
        }
        other => panic!("unexpected {other:?}"),
    }
    let short = [0x06u8, 0x00, 0x00, 0x01, 0xAA];
    assert!(matches!(handshake_step(&short), Err(BacnetError::DecodeError(_))));
    let other = [0x0Au8, 0x00, 0x00, 0x01];
    assert_eq!(handshake_step(&other), Ok(None));
}

#[test]
fn retry_delay_doubles_up_to_thirty_seconds() {
    assert_eq!(next_retry_delay_ms(100), 200);
    assert_eq!(next_retry_delay_ms(20_000), 30_000);
    assert_eq!(next_retry_delay_ms(30_000), 30_000);
}

#[test]
fn token_reaches_every_master_and_returns() {
    let max_master = 4u8;
    let masters: Vec<MasterCore> = (0..=max_master).map(|a| MasterCore::join(a, max_master)).collect();
    let mut holder = 0usize;
    let mut visited = vec![false; masters.len()];
    for _ in 0..=max_master {
        visited[holder] = true;
        let token = masters[holder].token_frame();
        holder = token.destination as usize;
    }
    assert!(visited.iter().all(|v| *v));
    assert_eq!(holder, 0);
}

#[test]
fn master_answers_poll_and_sends_one_queued_frame() {
    let mut m = MasterCore::join(3, 10);
    let poll = MstpFrame { frame_type: MstpFrameType::PollForMaster, destination: 3, source: 0, data: Bytes::new() };
    match m.on_frame(&poll) {
        FrameAction::Reply(f) => {
            assert_eq!(f.frame_type, MstpFrameType::ReplyToPollForMaster);
            assert_eq!(f.destination, 0);
            assert_eq!(f.source, 3);
        }
        _ => panic!("expected reply"),
    }
    let frames = m.use_token(Some((7, Bytes::from_static(b"\x01\x00"))));
    assert_eq!(frames.len(), 2);
    assert_eq!(frames[0].frame_type, MstpFrameType::BacnetDataNotExpectingReply);
    assert_eq!(frames[0].destination, 7);
    assert_eq!(frames[1].frame_type, MstpFrameType::Token);
    assert_eq!(frames[1].destination, 4);
    assert_eq!(m.ring_timeout_ms(), 200 * 12);
}

#[test]
fn duplicate_and_fresh_inserts_change_count_by_zero_and_one() {
    let mut store = ObjectStore::new();
    let d = DeviceId(3);
    store.insert(d, StoredObject::AnalogValue(AnalogValue::new(d, 1, "AV-1", EngineeringUnits::NoUnits)));
    assert_eq!(store.count(), 1);
    store.insert(d, StoredObject::AnalogValue(AnalogValue::new(d, 1, "AV-1b", EngineeringUnits::NoUnits)));
    assert_eq!(store.count(), 1);
    store.insert(DeviceId(4), StoredObject::AnalogValue(AnalogValue::new(DeviceId(4), 1, "AV-1", EngineeringUnits::NoUnits)));
    assert_eq!(store.count(), 2);
}

#[test]
fn analog_value_write_reads_back() {
    let mut store = ObjectStore::new();
    let d = DeviceId(3);
    let oid = ObjectId { object_type: ObjectType::AnalogValue, instance: 1 };
    store.insert(d, StoredObject::AnalogValue(AnalogValue::new(d, 1, "AV-1", EngineeringUnits::NoUnits)));
    store.write_property(d, oid, PropertyIdentifier::PresentValue, None, real_bits(12.5), Some(8), false).unwrap();
    let pv = store.get(d, oid).unwrap().read_property(PropertyIdentifier::PresentValue, None).unwrap();
    assert_eq!(pv, real_bits(12.5));
}

#[test]
fn write_to_missing_object_is_unknown_object() {
    let mut store = ObjectStore::new();
    let oid = ObjectId { object_type: ObjectType::AnalogValue, instance: 1 };
    let r = store.write_property(DeviceId(1), oid, PropertyIdentifier::PresentValue, None, real_bits(1.0), None, false);
    assert_eq!(r, Err(BacnetError::UnknownObject));
}

#[test]
fn object_list_index_past_end_is_out_of_range() {
    let d = DeviceObject::new(DeviceId(5), "dev");
    assert_eq!(d.read_property(PropertyIdentifier::ObjectList, Some(0)), Ok(PropertyValue::Unsigned(1)));
    assert_eq!(d.read_property(PropertyIdentifier::ObjectList, Some(2)), Err(BacnetError::ValueOutOfRange));
}

#[test]
fn analog_value_rejects_wrong_type() {
    let mut av = AnalogValue::new(DeviceId(1), 1, "AV", EngineeringUnits::NoUnits);
    let r = av.write_property(PropertyIdentifier::PresentValue, None, PropertyValue::Boolean(true), None);
    assert_eq!(r, Err(BacnetError::InvalidDataType));
}

#[test]
fn multistate_state_texts_are_numbered() {
    let m = MultiStateInput::new(DeviceId(1), 1, "MSI", 2);
    assert_eq!(m.state_text, vec!["State 1".to_string(), "State 2".to_string()]);
}

#[test]
fn device_info_describes_device() {
    let info = DeviceInfo::new(42);
    assert_eq!(info.description, "Simulated device 42");
}

#[test]
fn built_objects_are_named_and_devices_listed() {
    let (groups, profiles) = one_group(7, 8, "p", "analog-input", 2);
    let mut store = ObjectStore::new();
    let mut dispatcher = ApduDispatcher::new();
    build_simulation(&groups, &profiles, &mut store, &mut dispatcher);
    assert_eq!(store.count(), 6);
    let oid = ObjectId { object_type: ObjectType::AnalogInput, instance: 2 };
    let name = store.get(DeviceId(8), oid).unwrap().read_property(PropertyIdentifier::ObjectName, None).unwrap();
    assert_eq!(name, PropertyValue::CharacterString("AI-002".to_string()));
    let units = store.get(DeviceId(8), oid).unwrap().read_property(PropertyIdentifier::Units, None).unwrap();
    assert_eq!(units, PropertyValue::Enumerated(98));
    let dev = ObjectId { object_type: ObjectType::Device, instance: 7 };
    let dev_name = store.get(DeviceId(7), dev).unwrap().read_property(PropertyIdentifier::ObjectName, None).unwrap();
    assert_eq!(dev_name, PropertyValue::CharacterString("device-7".to_string()));
}

#[test]
fn unknown_profile_or_type_builds_nothing() {
    let (groups, profiles) = one_group(1, 3, "missing", "AnalogInput", 2);
    let mut store = ObjectStore::new();
    let mut dispatcher = ApduDispatcher::new();
    build_simulation(&groups, &profiles, &mut store, &mut dispatcher);
    assert_eq!(store.count(), 0);

    let (groups, profiles) = one_group(1, 3, "p", "Thermostat", 2);
    let mut store = ObjectStore::new();
    build_simulation(&groups, &profiles, &mut store, &mut dispatcher);
    assert_eq!(store.count(), 3);
}

#[test]
fn api_names_and_device_listing() {
    assert_eq!(parse_object_type("Analog-Input"), Some(ObjectType::AnalogInput));
    assert_eq!(parse_object_type("TRENDLOG"), Some(ObjectType::TrendLog));
    assert_eq!(parse_object_type("analog input"), None);
    assert_eq!(parse_property_id("Present-Value"), Some(PropertyIdentifier::PresentValue));
    assert_eq!(parse_property_id("priority_array"), None);

    let mut store = ObjectStore::new();
    let d = DeviceId(11);
    store.insert(d, StoredObject::Device(DeviceObject::new(d, "dev")));
    assert_eq!(count_objects_for_device(&store, d), 1);
    assert_eq!(collect_objects(&store, d), vec![ObjectId { object_type: ObjectType::Device, instance: 11 }]);
    assert_eq!(count_objects_for_device(&store, DeviceId(12)), 0);
    assert!(collect_objects(&store, DeviceId(12)).is_empty());

    let mut ids = vec![3u32];
    register_device_id(&mut ids, 3);
    register_device_id(&mut ids, 4);
    assert_eq!(ids, vec![3, 4]);
}

#[test]
fn out_of_range_states_with_deadband() {
    assert_eq!(out_of_range_target(EventState::Normal, true, false, true, false), EventState::HighLimit);
    assert_eq!(out_of_range_target(EventState::Normal, false, true, false, true), EventState::LowLimit);
    assert_eq!(out_of_range_target(EventState::HighLimit, false, false, true, false), EventState::HighLimit);
    assert_eq!(out_of_range_target(EventState::HighLimit, false, false, false, false), EventState::Normal);
    assert_eq!(out_of_range_target(EventState::LowLimit, false, false, false, true), EventState::LowLimit);
}

#[test]
fn alarm_transition_waits_for_its_delay() {
    let now = Instant::now();
    let oid = ObjectId { object_type: ObjectType::AnalogInput, instance: 1 };
    let mut gate = AlarmTransition { current_state: EventState::Normal, time_delay: Duration::from_secs(3600), transition_start: None };
    assert!(gate.advance(EventState::HighLimit, now, oid).is_none());
    assert_eq!(gate.transition_start, Some(now));
    assert_eq!(gate.current_state, EventState::Normal);
    assert!(gate.advance(EventState::Normal, now, oid).is_none());
    assert_eq!(gate.transition_start, None);

    let mut quick = AlarmTransition { current_state: EventState::Normal, time_delay: Duration::ZERO, transition_start: None };
    let n = quick.advance(EventState::HighLimit, now, oid).unwrap();
    assert_eq!(n.from_state, EventState::Normal);
    assert_eq!(n.to_state, EventState::HighLimit);
    assert_eq!(n.event_object, oid);
    assert_eq!(quick.current_state, EventState::HighLimit);
}

#[test]
fn subscriptions_expire_after_their_lifetime() {
    assert!(subscription_expired(5, Some(1)));
    assert!(subscription_expired(60, Some(60)));
    assert!(!subscription_expired(59, Some(60)));
    assert!(!subscription_expired(u64::MAX, None));
}

#[test]
fn reload_notices_are_debounced() {
    assert!(reload_due(true, true, 500));
    assert!(!reload_due(true, true, 499));
    assert!(!reload_due(false, true, 10_000));
    assert!(!reload_due(true, false, 10_000));
}

#[test]
fn tick_all_sets_schedules_and_leaves_others() {
    let mut store = ObjectStore::new();
    let d = DeviceId(1);
    let mut sched = Schedule::new(d, 1, "S");
    sched.schedule_default = real_bits(18.0);
    for day in 0..7 {
        sched.weekly_schedule[day].slots = vec![TimeValue { time_of_day_secs: 0, value: real_bits(21.0) }];
    }
    store.insert(d, StoredObject::Schedule(sched));
    store.insert(d, StoredObject::AnalogInput(AnalogInput::new(d, 1, "AI", EngineeringUnits::NoUnits)));
    let now = UNIX_EPOCH + Duration::from_secs(1_704_067_200 + 3600);
    store.tick_all(now, Duration::from_secs(1));
    let s = ObjectId { object_type: ObjectType::Schedule, instance: 1 };
    assert_eq!(store.get(d, s).unwrap().read_property(PropertyIdentifier::PresentValue, None).unwrap(), real_bits(21.0));
    let a = ObjectId { object_type: ObjectType::AnalogInput, instance: 1 };
    assert_eq!(store.get(d, a).unwrap().read_property(PropertyIdentifier::PresentValue, None).unwrap(), real_bits(0.0));
    assert_eq!(store.count(), 2);
    let _ = SystemTime::now();
}

#[test]
fn dispatcher_answers_whois_with_iam_per_matching_device() {
    let mut store = ObjectStore::new();
    let mut dispatcher = ApduDispatcher::new();
    dispatcher.register_device(DeviceInfo::new(10));
    dispatcher.register_device(DeviceInfo::new(20));
    let mut apdu = BytesMut::new();
    UnconfirmedRequest::WhoIs(WhoIsRequest { low_limit: Some(15), high_limit: Some(25) }).encode(&mut apdu);
    let frame = InboundFrame {
        src: NetworkAddress { network_number: 0, mac: MacAddr::MsTP(1) },
        npdu: Npdu::encode_local(false, &apdu),
    };
    let out = dispatcher.handle_frame(&mut store, &frame).unwrap();
    assert_eq!(out.len(), 1);
    assert!(matches!(out[0].dst, Destination::Broadcast { .. }));
    let npdu = Npdu::decode(&out[0].npdu).unwrap();
    match UnconfirmedRequest::decode(&npdu.apdu).unwrap() {
        UnconfirmedRequest::IAm(i) => assert_eq!(i.device_instance, 20),
        _ => panic!("expected IAm"),
    }
}

#[test]
fn dispatcher_answers_read_of_missing_object_with_error() {
    let mut store = ObjectStore::new();
    let mut dispatcher = ApduDispatcher::new();
    dispatcher.register_device(DeviceInfo::new(10));
    let mut apdu = vec![0x00u8, 0x05, 0x21, 12, 0x0C];
    apdu.extend_from_slice(&((2u32 << 22) | 9).to_be_bytes());
    apdu.extend_from_slice(&[0x19, 85]);
    let src = NetworkAddress { network_number: 0, mac: MacAddr::MsTP(1) };
    let frame = InboundFrame { src, npdu: Npdu::encode_local(true, &apdu) };
    let out = dispatcher.handle_frame(&mut store, &frame).unwrap();
    assert_eq!(out.len(), 1);
    assert!(matches!(out[0].dst, Destination::Unicast(a) if a == src));
    let npdu = Npdu::decode(&out[0].npdu).unwrap();
    assert_eq!(npdu.apdu[0], 0x50);
    assert_eq!(npdu.apdu[1], 0x21);
    assert_eq!(npdu.apdu[2], 12);
}

#[test]
fn dispatcher_read_ack_carries_request_invoke_id() {
    let mut store = ObjectStore::new();
    let d = DeviceId(10);
    store.insert(d, StoredObject::AnalogValue(AnalogValue::new(d, 4, "AV-4", EngineeringUnits::NoUnits)));
    let mut dispatcher = ApduDispatcher::new();
    dispatcher.register_device(DeviceInfo::new(10));
    let mut apdu = vec![0x00u8, 0x05, 0x21, 12, 0x0C];
    apdu.extend_from_slice(&((2u32 << 22) | 4).to_be_bytes());
    apdu.extend_from_slice(&[0x19, 85]);
    let src = NetworkAddress { network_number: 0, mac: MacAddr::MsTP(1) };
    let frame = InboundFrame { src, npdu: Npdu::encode_local(true, &apdu) };
    let out = dispatcher.handle_frame(&mut store, &frame).unwrap();
    assert_eq!(out.len(), 1);
    assert!(matches!(out[0].dst, Destination::Unicast(a) if a == src));
    let npdu = Npdu::decode(&out[0].npdu).unwrap();
    assert_eq!(npdu.apdu[0], 0x30);
    assert_eq!(npdu.apdu[1], 0x21);
    assert_eq!(npdu.apdu[2], 12);
}

#[test]
fn service_read_gives_back_what_write_wrote() {
    let mut store = ObjectStore::new();
    let d = DeviceId(9);
    let oid = ObjectId { object_type: ObjectType::AnalogValue, instance: 4 };
    store.insert(d, StoredObject::AnalogValue(AnalogValue::new(d, 4, "AV-4", EngineeringUnits::NoUnits)));
    let w = WritePropertyRequest {
        object_id: oid,
        property_id: PropertyIdentifier::PresentValue,
        array_index: None,
        value: real_bits(-3.25),
        priority: None,
    };
    handle_write_property(w, &mut store, d).unwrap();
    let r = ReadPropertyRequest { object_id: oid, property_id: PropertyIdentifier::PresentValue, array_index: None };
    let ack = handle_read_property(r, &store, d).unwrap();
    match ack.service {
        ComplexAckService::ReadProperty(a) => {
            assert_eq!(a.object_id, oid);
            assert_eq!(a.value, real_bits(-3.25));
        }
        _ => panic!("expected a ReadProperty ACK"),
    }
}

#[test]
fn rpm_all_agrees_with_single_reads() {
    let mut store = ObjectStore::new();
    let d = DeviceId(2);
    let oid = ObjectId { object_type: ObjectType::AnalogInput, instance: 1 };
    store.insert(d, StoredObject::AnalogInput(AnalogInput::new(d, 1, "AI-1", EngineeringUnits::Kelvin)));
    let ack = handle_read_property_multiple(vec![(oid, vec![(PropertyIdentifier::All, None)])], &store, d, 5);
    assert_eq!(ack.invoke_id, 5);
    let results = match ack.service {
        ComplexAckService::ReadPropertyMultiple(r) => r,
        _ => panic!("expected an RPM ACK"),
    };
    assert_eq!(results.len(), 1);
    assert!(results[0].property_results.len() >= 8);
    let obj = store.get(d, oid).unwrap();
    for pr in &results[0].property_results {
        let single = obj.read_property(pr.property_id, None).unwrap();
        assert_eq!(pr.value.as_ref().unwrap(), &single);
    }
}

#[test]
fn added_route_forwards_on_its_port() {
    let mut router = NpduRouter::new(1);
    router.add_route(7, PortId(3), 1);
    let npdu = Npdu {
        version: 1,
        control: NpduControl {
            network_message: false,
            destination_specifier: true,
            source_specifier: false,
            expecting_reply: false,
            priority: 0,
        },
        destination: Some(NpduAddress { network: 7, mac: vec![42] }),
        source: None,
        hop_count: Some(5),
        apdu: Bytes::new(),
    };
    let out = router.route(&npdu, PortId(0));
    assert_eq!(out.len(), 1);
    assert_eq!(out[0].0, PortId(3));
    match &out[0].1 {
        RoutingDecision::Forward { next_hop, decrement_hop } => {
            assert_eq!(next_hop.network_number, 7);
            assert_eq!(next_hop.mac, MacAddr::MsTP(42));
            assert!(*decrement_hop);
        }
        other => panic!("unexpected {other:?}"),
    }
}
