use qingping_mqtt_interceptor::extract::{
    extract, extract_fixed_offset, extract_protocol_aware, ExtractionMode, FIXED_PREFIX_LEN,
};
use qingping_mqtt_interceptor::header::{fix_packet, fix_packet_wide, FixHeaderCodec, PacketOwned};

// An Ethernet + IPv4 (no options) + TCP frame. With `options` of length 12
// the headers fill exactly the calibrated 66-byte prefix of the fixed-offset
// strategy; with no options they fill 54 bytes.
fn synthetic_frame(options: &[u8], payload: &[u8]) -> Vec<u8> {
    assert!(options.len() % 4 == 0);
    let mut frame: Vec<u8> = Vec::new();
    // Ethernet II: destination, source, IPv4 ethertype.
    frame.extend_from_slice(&[0xAA; 6]);
    frame.extend_from_slice(&[0xBB; 6]);
    frame.extend_from_slice(&[0x08, 0x00]);
    // IPv4, no options.
    let total_len = (40 + options.len() + payload.len()) as u16;
    frame.extend_from_slice(&[0x45, 0x00]);
    frame.extend_from_slice(&total_len.to_be_bytes());
    frame.extend_from_slice(&[0x00, 0x01, 0x40, 0x00, 0x40, 0x06, 0x00, 0x00]);
    frame.extend_from_slice(&[192, 168, 0, 1]);
    frame.extend_from_slice(&[192, 168, 0, 2]);
    // TCP: ports 1883 -> 1883, PSH|ACK, the given options.
    frame.extend_from_slice(&[0x07, 0x5B, 0x07, 0x5B]);
    frame.extend_from_slice(&[0x00, 0x00, 0x00, 0x01]);
    frame.extend_from_slice(&[0x00, 0x00, 0x00, 0x02]);
    let offset = ((5 + options.len() / 4) as u8) << 4;
    frame.extend_from_slice(&[offset, 0x18, 0xFF, 0xFF, 0x00, 0x00, 0x00, 0x00]);
    frame.extend_from_slice(options);
    frame.extend_from_slice(payload);
    frame
}

fn packet_of(frame: &[u8]) -> PacketOwned {
    fix_packet(0, 0, frame.len() as u32, frame.len() as u32, frame)
}

#[test]
fn strategies_agree_on_calibrated_frame() {
    let mqtt_payload = [
        0x30, 0x0B, 0x00, 0x03, b'a', b'/', b'b', b'h', b'e', b'l', b'l', b'o', 0x21,
    ];
    // Twelve bytes of TCP options put the payload exactly at the calibrated
    // fixed offset.
    let frame = synthetic_frame(&[0x01; 12], &mqtt_payload);
    assert_eq!(frame.len(), 66 + mqtt_payload.len());
    let packet = packet_of(&frame);
    let fixed = extract_fixed_offset(&packet).expect("frame is longer than the prefix");
    let parsed = extract_protocol_aware(&packet).expect("frame is well-formed TCP");
    assert_eq!(fixed, parsed);
    assert_eq!(fixed, mqtt_payload.to_vec());
}

#[test]
fn fixed_offset_misreads_optionless_frame() {
    // Without TCP options the headers end at byte 54: the protocol-aware
    // strategy still finds the payload, the fixed-offset one slices twelve
    // bytes into it. This is the documented approximation.
    let mqtt_payload = [0u8; 12].to_vec();
    let mut with_tail = mqtt_payload.clone();
    with_tail.push(0x77);
    let frame = synthetic_frame(&[], &with_tail);
    let packet = packet_of(&frame);
    assert_eq!(extract_protocol_aware(&packet), Some(with_tail));
    assert_eq!(extract_fixed_offset(&packet), Some(vec![0x77]));
}

#[test]
fn dispatch_matches_each_strategy() {
    let frame = synthetic_frame(&[0x01; 12], b"zz");
    let packet = packet_of(&frame);
    assert_eq!(
        extract(ExtractionMode::FixedOffset, &packet),
        extract_fixed_offset(&packet)
    );
    assert_eq!(
        extract(ExtractionMode::ProtocolAware, &packet),
        extract_protocol_aware(&packet)
    );
}

#[test]
fn short_frame_yields_nothing_fixed() {
    let frame = vec![0u8; FIXED_PREFIX_LEN];
    let packet = packet_of(&frame);
    assert!(extract_fixed_offset(&packet).is_none());
}

#[test]
fn non_tcp_frame_skipped_by_protocol_aware() {
    let mut frame = synthetic_frame(&[0x01; 12], b"x");
    frame[23] = 17; // IPv4 protocol: UDP
    let packet = packet_of(&frame);
    assert!(extract_protocol_aware(&packet).is_none());
}

#[test]
fn garbage_frame_skipped_by_protocol_aware() {
    let packet = packet_of(&[0x01, 0x02, 0x03]);
    assert!(extract_protocol_aware(&packet).is_none());
}

#[test]
fn empty_tcp_payload_is_valid() {
    let frame = synthetic_frame(&[0x01; 12], b"");
    let packet = packet_of(&frame);
    assert_eq!(extract_protocol_aware(&packet), Some(Vec::new()));
}

#[test]
fn fix_packet_caps_length() {
    let data = [1u8, 2, 3, 4];
    let p = fix_packet(5, 6, 100, 200, &data);
    assert_eq!(p.header.caplen, 4);
    assert_eq!(p.header.len, 200);
    assert_eq!(p.data, vec![1, 2, 3, 4]);
    let q = fix_packet(5, 6, 2, 200, &data);
    assert_eq!(q.header.caplen, 2);
    assert_eq!(q.data, vec![1, 2]);
}

#[test]
fn wide_header_reinterpreted() {
    let mut header = Vec::new();
    header.extend_from_slice(&1700000000i64.to_le_bytes());
    header.extend_from_slice(&123456i64.to_le_bytes());
    header.extend_from_slice(&3u32.to_le_bytes());
    header.extend_from_slice(&90u32.to_le_bytes());
    let data = [9u8, 8, 7, 6, 5];
    let p = fix_packet_wide(&header, &data).expect("header holds 24 bytes");
    assert_eq!(p.header.ts_sec, 1700000000);
    assert_eq!(p.header.ts_usec, 123456);
    assert_eq!(p.header.caplen, 3);
    assert_eq!(p.header.len, 90);
    assert_eq!(p.data, vec![9, 8, 7]);
}

#[test]
fn wide_header_too_short_rejected() {
    assert!(fix_packet_wide(&[0u8; 23], &[1, 2, 3]).is_none());
}

#[test]
fn wide_header_narrows_time_fields() {
    let mut header = Vec::new();
    // A seconds value above 32 bits is narrowed as a 32-bit cast would.
    header.extend_from_slice(&0x1_0000_0005i64.to_le_bytes());
    header.extend_from_slice(&0i64.to_le_bytes());
    header.extend_from_slice(&0u32.to_le_bytes());
    header.extend_from_slice(&0u32.to_le_bytes());
    let p = fix_packet_wide(&header, &[]).unwrap();
    assert_eq!(p.header.ts_sec, 5);
}

#[test]
fn codec_decodes_one_frame() {
    let mut codec = FixHeaderCodec;
    let data = [1u8, 2, 3];
    let p = codec.decode(7, 8, 3, 3, &data);
    assert_eq!(p.header.ts_sec, 7);
    assert_eq!(p.header.caplen, 3);
    assert_eq!(p.data, vec![1, 2, 3]);
}
