use qingping_mqtt_interceptor::mqtt::{encode_remaining_length, DecodeError, PacketType};
use qingping_mqtt_interceptor::pipeline::{process_transport_payload, FrameOutcome};
use qingping_mqtt_interceptor::telemetry::ParseError;

fn publish_frame(topic: &[u8], payload: &[u8]) -> Vec<u8> {
    let mut body: Vec<u8> = Vec::new();
    body.push((topic.len() >> 8) as u8);
    body.push((topic.len() & 0xFF) as u8);
    body.extend_from_slice(topic);
    body.extend_from_slice(payload);
    let mut frame: Vec<u8> = vec![0x30];
    frame.extend_from_slice(&encode_remaining_length(body.len() as u32).unwrap());
    frame.extend_from_slice(&body);
    frame
}

#[test]
fn publish_becomes_line() {
    let json = br#"{"mac":"AA:BB:CC:DD:EE:FF","timestamp":1700000000,"sensorData":[{"temperature":{"status":1,"value":21.3},"humidity":{"status":2,"value":55.0}}]}"#;
    let frame = publish_frame(b"qingping/up", json);
    match process_transport_payload(&frame, "qingping", 1) {
        FrameOutcome::Line(line, warns) => {
            assert_eq!(
                line,
                "qingping,mac=AA:BB:CC:DD:EE:FF temperature=21.3 1700000000000000000"
            );
            assert!(warns.is_empty());
        }
        other => panic!("expected a line, got {:?}", other),
    }
}

#[test]
fn unknown_statuses_reported_with_line() {
    let json = br#"{"mac":"M","timestamp":1,"sensorData":[{"a":{"status":7,"value":1.0},"b":{"status":0,"value":2.0}}]}"#;
    let frame = publish_frame(b"t", json);
    match process_transport_payload(&frame, "m", 1) {
        FrameOutcome::Line(line, warns) => {
            assert_eq!(line, "m,mac=M b=2.0 1000000000");
            assert_eq!(warns, vec![7]);
        }
        other => panic!("expected a line, got {:?}", other),
    }
}

#[test]
fn empty_payload_skipped() {
    assert!(matches!(
        process_transport_payload(&[], "m", 1),
        FrameOutcome::NoPayload
    ));
}

#[test]
fn truncated_publish_is_incomplete() {
    let frame = publish_frame(b"topic", br#"{"sensorData":[{}]}"#);
    let prefix = &frame[..frame.len() - 1];
    assert!(matches!(
        process_transport_payload(prefix, "m", 1),
        FrameOutcome::Incomplete
    ));
}

#[test]
fn non_publish_classified() {
    match process_transport_payload(&[0xC0, 0x00], "m", 1) {
        FrameOutcome::NotPublish(PacketType::Pingreq) => {}
        other => panic!("expected PINGREQ, got {:?}", other),
    }
}

#[test]
fn malformed_header_reported() {
    match process_transport_payload(&[0x00, 0x00], "m", 1) {
        FrameOutcome::DecodeFailed(DecodeError::UnknownPacketType) => {}
        other => panic!("expected a decode failure, got {:?}", other),
    }
}

#[test]
fn non_telemetry_publish_reported() {
    let frame = publish_frame(b"some/other/topic", b"plain text");
    match process_transport_payload(&frame, "m", 1) {
        FrameOutcome::ParseFailed(ParseError::InvalidJson) => {}
        other => panic!("expected a parse failure, got {:?}", other),
    }
}
