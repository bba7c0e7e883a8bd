use qingping_mqtt_interceptor::mqtt::{
    decode, encode_remaining_length, DecodeError, MqttControlPacket, PacketType,
};

fn publish_frame(flags: u8, topic: &[u8], pid: Option<u16>, payload: &[u8]) -> Vec<u8> {
    let mut body: Vec<u8> = Vec::new();
    body.push((topic.len() >> 8) as u8);
    body.push((topic.len() & 0xFF) as u8);
    body.extend_from_slice(topic);
    if let Some(p) = pid {
        body.push((p >> 8) as u8);
        body.push((p & 0xFF) as u8);
    }
    body.extend_from_slice(payload);
    let mut frame: Vec<u8> = Vec::new();
    frame.push(0x30 | flags);
    let rl = encode_remaining_length(body.len() as u32).unwrap();
    frame.extend_from_slice(&rl);
    frame.extend_from_slice(&body);
    frame
}

#[test]
fn varint_round_trip() {
    for &value in &[0u32, 127, 128, 16383, 16384, 2097151, 268435455] {
        let enc = encode_remaining_length(value).expect("value must encode");
        // Wrap the varint in a PUBLISH-like frame with that many body bytes.
        let mut frame: Vec<u8> = vec![0xC0];
        frame.extend_from_slice(&enc);
        frame.resize(frame.len() + value as usize, 0);
        match decode(&frame) {
            Ok(Some(MqttControlPacket::Other(PacketType::Pingreq))) => {}
            other => panic!("expected a complete PINGREQ, got {:?}", other),
        }
        // One byte short must be incomplete, confirming the decoded length.
        frame.pop();
        if value > 0 {
            assert!(matches!(decode(&frame), Ok(None)));
        }
    }
}

#[test]
fn varint_fifth_byte_rejected() {
    assert!(encode_remaining_length(268435456).is_none());
    let frame = [0xC0, 0x80, 0x80, 0x80, 0x80, 0x01];
    assert_eq!(decode(&frame), Err(DecodeError::RemainingLengthTooLong));
}

#[test]
fn incomplete_prefixes_of_publish() {
    let frame = publish_frame(0, b"sensors/qp", None, br#"{"hello":1}"#);
    for k in 0..frame.len() {
        let prefix = &frame[..k];
        match decode(prefix) {
            Ok(None) => {}
            other => panic!("prefix of length {} gave {:?}", k, other),
        }
    }
    assert!(matches!(
        decode(&frame),
        Ok(Some(MqttControlPacket::Publish(_)))
    ));
}

#[test]
fn publish_fields_decoded() {
    let frame = publish_frame(0x0B, b"topic/a", Some(7), b"payload-bytes");
    match decode(&frame) {
        Ok(Some(MqttControlPacket::Publish(p))) => {
            assert_eq!(p.topic_name, "topic/a");
            assert_eq!(p.qos, 1);
            assert!(p.dup);
            assert!(p.retain);
            assert_eq!(p.pid, Some(7));
            assert_eq!(p.payload, b"payload-bytes".to_vec());
        }
        other => panic!("expected publish, got {:?}", other),
    }
}

#[test]
fn unknown_packet_type_rejected() {
    assert_eq!(decode(&[0x00, 0x00]), Err(DecodeError::UnknownPacketType));
    assert_eq!(decode(&[0xF0, 0x00]), Err(DecodeError::UnknownPacketType));
}

#[test]
fn reserved_qos_rejected() {
    let frame = publish_frame(0x06, b"t", None, b"x");
    assert_eq!(decode(&frame), Err(DecodeError::InvalidQos));
}

#[test]
fn invalid_topic_utf8_rejected() {
    let frame = publish_frame(0, &[0xFF, 0xFE], None, b"x");
    assert_eq!(decode(&frame), Err(DecodeError::TopicNotUtf8));
}

#[test]
fn truncated_topic_length_rejected() {
    // Remaining length 3, but the declared topic length needs 300 bytes.
    let frame = [0x30, 0x03, 0x01, 0x2C, 0x00];
    assert_eq!(decode(&frame), Err(DecodeError::MalformedPublish));
}

#[test]
fn other_packet_kinds_classified() {
    assert!(matches!(
        decode(&[0xC0, 0x00]),
        Ok(Some(MqttControlPacket::Other(PacketType::Pingreq)))
    ));
    assert!(matches!(
        decode(&[0xE0, 0x00]),
        Ok(Some(MqttControlPacket::Other(PacketType::Disconnect)))
    ));
    assert!(matches!(
        decode(&[0x20, 0x02, 0x00, 0x00]),
        Ok(Some(MqttControlPacket::Other(PacketType::Connack)))
    ));
}

#[test]
fn empty_buffer_is_incomplete() {
    assert!(matches!(decode(&[]), Ok(None)));
}
