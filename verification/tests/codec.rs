use bacnet_sim::codec::apdu::confirmed::{decode_read_property, decode_rpm, decode_write_property, Segmentation, WhoIsRequest};
use bacnet_sim::codec::apdu::unconfirmed::{IAmRequest, UnconfirmedRequest};
use bacnet_sim::codec::apdu::segmentation::SegmentBuffer;
use bacnet_sim::codec::bvll::BvllFrame;
use bacnet_sim::codec::mstp::{crc16, crc8, MstpDecodeError, MstpFrame, MstpFrameType};
use bacnet_sim::types::{Ipv4Endpoint, ObjectType, PropertyIdentifier, PropertyValue};
use bytes::{Bytes, BytesMut};

#[test]
fn decode_read_property_request() {
    let mut buf = vec![0x0C_u8];
    let oid_raw: u32 = (0u32 << 22) | 1;
    buf.extend_from_slice(&oid_raw.to_be_bytes());
    buf.push(0x19);
    buf.push(85);

    let req = decode_read_property(&buf).unwrap();
    assert_eq!(req.object_id.object_type, ObjectType::AnalogInput);
    assert_eq!(req.object_id.instance, 1);
    assert_eq!(req.property_id, PropertyIdentifier::PresentValue);
    assert_eq!(req.array_index, None);
}

#[test]
fn decode_read_property_with_array_index() {
    let mut buf = vec![0x0C_u8];
    let dev_type: u32 = 8;
    let oid_raw: u32 = (dev_type << 22) | 1234;
    buf.extend_from_slice(&oid_raw.to_be_bytes());
    buf.extend_from_slice(&[0x19, 76]);
    buf.extend_from_slice(&[0x29, 5]);
    let req = decode_read_property(&buf).unwrap();
    assert_eq!(req.object_id.object_type, ObjectType::Device);
    assert_eq!(req.array_index, Some(5));
}

#[test]
fn decode_write_property_request() {
    let oid_raw: u32 = (0u32 << 22) | 1;
    let val: f32 = 22.5;
    let mut buf = vec![0x0C_u8];
    buf.extend_from_slice(&oid_raw.to_be_bytes());
    buf.extend_from_slice(&[0x19, 85]);
    buf.push(0x3E);
    buf.push(0x44);
    buf.extend_from_slice(&val.to_be_bytes());
    buf.push(0x3F);

    let req = decode_write_property(&buf).unwrap();
    assert_eq!(req.property_id, PropertyIdentifier::PresentValue);
    assert_eq!(req.value, PropertyValue::Real(22.5f32.to_bits()));
    assert_eq!(req.priority, None);
}

#[test]
fn decode_write_property_with_priority() {
    let oid_raw: u32 = (1u32 << 22) | 2;
    let val: f32 = 75.0;
    let mut buf = vec![0x0C_u8];
    buf.extend_from_slice(&oid_raw.to_be_bytes());
    buf.extend_from_slice(&[0x19, 85]);
    buf.push(0x3E);
    buf.push(0x44);
    buf.extend_from_slice(&val.to_be_bytes());
    buf.push(0x3F);
    buf.extend_from_slice(&[0x49, 8]);

    let req = decode_write_property(&buf).unwrap();
    assert_eq!(req.priority, Some(8));
    assert_eq!(req.value, PropertyValue::Real(75.0f32.to_bits()));
}

#[test]
fn decode_rpm_two_properties() {
    let oid_raw: u32 = 1;
    let mut buf = vec![0x0C_u8];
    buf.extend_from_slice(&oid_raw.to_be_bytes());
    buf.push(0x1E);
    buf.extend_from_slice(&[0x09, 85]);
    buf.extend_from_slice(&[0x09, 111]);
    buf.push(0x1F);

    let specs = decode_rpm(&buf).unwrap();
    assert_eq!(specs.len(), 1);
    assert_eq!(specs[0].1.len(), 2);
    assert_eq!(specs[0].1[0].0, PropertyIdentifier::PresentValue);
    assert_eq!(specs[0].1[1].0, PropertyIdentifier::StatusFlags);
}

#[test]
fn whois_encode_decode_roundtrip() {
    let req = UnconfirmedRequest::WhoIs(WhoIsRequest { low_limit: Some(1000), high_limit: Some(2000) });
    let mut buf = BytesMut::new();
    req.encode(&mut buf);
    let decoded = UnconfirmedRequest::decode(&buf).unwrap();
    match decoded {
        UnconfirmedRequest::WhoIs(w) => {
            assert_eq!(w.low_limit, Some(1000));
            assert_eq!(w.high_limit, Some(2000));
        }
        _ => panic!("expected WhoIs"),
    }
}

#[test]
fn iam_encode_decode_roundtrip() {
    let iam = UnconfirmedRequest::IAm(IAmRequest {
        device_instance: 42,
        max_apdu_length_accepted: 1476,
        segmentation_supported: Segmentation::NoSegmentation,
        vendor_id: 999,
    });
    let mut buf = BytesMut::new();
    iam.encode(&mut buf);
    let decoded = UnconfirmedRequest::decode(&buf).unwrap();
    match decoded {
        UnconfirmedRequest::IAm(i) => assert_eq!(i.device_instance, 42),
        _ => panic!("expected IAm"),
    }
}

#[test]
fn original_unicast_npdu_encode_decode() {
    let npdu_data = vec![0x01u8, 0x20, 0x00, 0x00];
    let frame = BvllFrame::OriginalUnicastNpdu(Bytes::from(npdu_data.clone()));
    let encoded = frame.encode();
    assert_eq!(encoded[0], 0x81);
    assert_eq!(encoded[1], 0x10);
    let decoded = BvllFrame::decode(&encoded).unwrap();
    assert!(matches!(decoded, BvllFrame::OriginalUnicastNpdu(_)));
}

#[test]
fn register_foreign_device_roundtrip() {
    let frame = BvllFrame::RegisterForeignDevice { ttl: 300 };
    let encoded = frame.encode();
    assert_eq!(encoded[1], 0x0B);
}

#[test]
fn forwarded_npdu_has_originator_address() {
    let orig = Ipv4Endpoint { octets: [192, 168, 1, 10], port: 47808 };
    let npdu = Bytes::from_static(b"\x01\x00");
    let frame = BvllFrame::ForwardedNpdu { originating_address: orig, npdu };
    let encoded = frame.encode();
    assert_eq!(encoded[1], 0x0A);
    assert_eq!(&encoded[4..8], &[192, 168, 1, 10]);
    assert_eq!(u16::from_be_bytes([encoded[8], encoded[9]]), 47808);
}

#[test]
fn token_frame_encode_header_crc() {
    let frame = MstpFrame { frame_type: MstpFrameType::Token, destination: 2, source: 1, data: Bytes::new() };
    let encoded = frame.encode();
    assert_eq!(encoded[0], 0x55);
    assert_eq!(encoded[1], 0xFF);
    assert_eq!(encoded[2], 0x00);
    assert_eq!(encoded[3], 0x02);
    assert_eq!(encoded[4], 0x01);
    let expected_crc = crc8(&encoded[2..7]);
    assert_eq!(encoded[7], expected_crc);
}

#[test]
fn data_frame_crc16_correct() {
    let data = Bytes::from_static(b"Hello BACnet");
    let frame = MstpFrame {
        frame_type: MstpFrameType::BacnetDataNotExpectingReply,
        destination: 5,
        source: 1,
        data: data.clone(),
    };
    let encoded = frame.encode();
    let crc16_pos = encoded.len() - 2;
    let expected = crc16(&encoded[8..crc16_pos]);
    let actual = u16::from_le_bytes([encoded[crc16_pos], encoded[crc16_pos + 1]]);
    assert_eq!(expected, actual);
}

#[test]
fn decode_incomplete_frame() {
    let partial = vec![0x55u8, 0xFF, 0x00];
    assert_eq!(MstpFrame::decode(&partial), Err(MstpDecodeError::Incomplete));
}

#[test]
fn decode_bad_preamble() {
    let bad = vec![0xAAu8, 0xBB, 0x00, 0x01, 0x02, 0x00, 0x00, 0x00];
    assert_eq!(MstpFrame::decode(&bad), Err(MstpDecodeError::BadPreamble));
}

#[test]
fn roundtrip_data_frame() {
    let original = MstpFrame {
        frame_type: MstpFrameType::BacnetDataExpectingReply,
        destination: 3,
        source: 0,
        data: Bytes::from_static(b"\x01\x00\x00\xFF"),
    };
    let encoded = original.encode();
    let decoded = MstpFrame::decode(&encoded).unwrap();
    assert_eq!(decoded, original);
}

#[test]
fn segment_buffer_waits_for_every_sequence_number() {
    let mut b = SegmentBuffer::new(1, 4);
    assert!(b.add_segment(3, true, Bytes::from_static(&[0xCC])).is_none());
    // The last segment names a total of two, but segment 0 is still missing.
    assert!(b.add_segment(1, false, Bytes::from_static(&[0xBB])).is_none());
    let done = b.add_segment(0, true, Bytes::from_static(&[0xAA])).unwrap();
    assert_eq!(&done[..], &[0xAA, 0xBB]);
}

#[test]
fn segment_buffer_reassembles_in_sequence_order() {
    let mut b = SegmentBuffer::new(7, 2);
    assert!(b.add_segment(2, false, Bytes::from_static(&[5, 6])).is_none());
    assert!(b.add_segment(0, true, Bytes::from_static(&[1, 2])).is_none());
    let done = b.add_segment(1, true, Bytes::from_static(&[3, 4])).unwrap();
    assert_eq!(&done[..], &[1, 2, 3, 4, 5, 6]);
    assert_eq!(b.total_expected, Some(3));
}

#[test]
fn segment_buffer_single_segment() {
    let mut b = SegmentBuffer::new(0, 1);
    let done = b.add_segment(0, false, Bytes::from_static(&[9])).unwrap();
    assert_eq!(&done[..], &[9]);
}

#[test]
fn crc8_of_header_with_its_crc_is_constant() {
    for header in [vec![0x00u8, 0x10, 0x05, 0x00, 0x00], vec![0x06, 0xFF, 0x01, 0x00, 0x12], vec![]] {
        let mut framed = header.clone();
        framed.push(crc8(&header));
        assert_eq!(crc8(&framed), crc8(&[0x00]));
    }
}

#[test]
fn crc16_of_data_with_its_crc_is_constant() {
    for data in [vec![0x01u8, 0x02, 0x03], vec![0xFF; 7], vec![0x80]] {
        let mut framed = data.clone();
        framed.extend_from_slice(&crc16(&data).to_le_bytes());
        assert_eq!(crc16(&framed), crc16(&[0x00, 0x00]));
    }
}
