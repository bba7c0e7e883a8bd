use qingping_mqtt_interceptor::pipeline::process_payload;
use qingping_mqtt_interceptor::telemetry::{parse_telemetry, ParseError};

#[test]
fn status_gating() {
    let payload = br#"{"sensorData":[{"t": {"status": 0, "value": 12.5}, "h": {"status": 2, "value": 40.0}, "x": {"status": 9, "value": 1.0}}]}"#;
    let pt = parse_telemetry("m", payload, 1).expect("payload must parse");
    let readings: Vec<(String, String)> = pt.record.readings;
    assert_eq!(readings.len(), 1);
    assert_eq!(readings[0].0, "t");
    assert_eq!(readings[0].1, "12.5");
    assert_eq!(pt.unknown_statuses, vec![9]);
}

#[test]
fn status_one_also_emits() {
    let payload = br#"{"sensorData":[{"a":{"status":1,"value":3.25}}]}"#;
    let pt = parse_telemetry("m", payload, 1).unwrap();
    assert_eq!(pt.record.readings.len(), 1);
    assert_eq!(pt.record.readings[0].1, "3.25");
}

#[test]
fn reading_without_value_suppressed() {
    let payload = br#"{"sensorData":[{"a":{"status":0}}]}"#;
    let pt = parse_telemetry("m", payload, 1).unwrap();
    assert!(pt.record.readings.is_empty());
    assert!(pt.unknown_statuses.is_empty());
}

#[test]
fn reading_without_status_suppressed() {
    let payload = br#"{"sensorData":[{"a":{"value":5.0}}]}"#;
    let pt = parse_telemetry("m", payload, 1).unwrap();
    assert!(pt.record.readings.is_empty());
}

#[test]
fn missing_field_defaults() {
    let payload = br#"{"sensorData":[{"t":{"status":0,"value":1.5}}]}"#;
    let pt = parse_telemetry("m", payload, 123456789).expect("payload must parse");
    assert_eq!(pt.record.mac, "UNKNOWN");
    assert_eq!(pt.record.timestamp_ns, 123456789);
    assert!(pt.record.timestamp_ns > 0);
}

#[test]
fn end_to_end_scenario() {
    let payload = br#"{"mac":"AA:BB:CC:DD:EE:FF","timestamp":1700000000,"sensorData":[{"temperature":{"status":1,"value":21.3},"humidity":{"status":2,"value":55.0}}]}"#;
    let line = process_payload("qingping", payload, 1).expect("payload must parse");
    assert_eq!(
        line,
        "qingping,mac=AA:BB:CC:DD:EE:FF temperature=21.3 1700000000000000000"
    );
}

#[test]
fn no_sensor_data_rejected() {
    let payload = br#"{"mac":"AA:BB:CC:DD:EE:FF","timestamp":1700000000}"#;
    assert_eq!(
        process_payload("qingping", payload, 1),
        Err(ParseError::NoSensorData)
    );
}

#[test]
fn null_sensor_data_rejected() {
    let payload = br#"{"sensorData":null}"#;
    assert_eq!(process_payload("m", payload, 1), Err(ParseError::NoSensorData));
}

#[test]
fn empty_sensor_data_rejected() {
    let payload = br#"{"sensorData":[]}"#;
    assert_eq!(process_payload("m", payload, 1), Err(ParseError::NoSensorData));
}

#[test]
fn malformed_json_rejected() {
    assert_eq!(
        process_payload("m", br#"{"sensorData":["#, 1),
        Err(ParseError::InvalidJson)
    );
    assert_eq!(process_payload("m", b"not json at all", 1), Err(ParseError::InvalidJson));
    assert_eq!(process_payload("m", b"", 1), Err(ParseError::InvalidJson));
}

#[test]
fn wrong_shapes_rejected() {
    // A non-object document, a non-array sensorData, a non-object entry, a
    // non-integral status and a string value are all shape errors.
    assert_eq!(process_payload("m", b"[1,2]", 1), Err(ParseError::InvalidJson));
    assert_eq!(
        process_payload("m", br#"{"sensorData":{"a":1}}"#, 1),
        Err(ParseError::InvalidJson)
    );
    assert_eq!(
        process_payload("m", br#"{"sensorData":[5]}"#, 1),
        Err(ParseError::InvalidJson)
    );
    assert_eq!(
        process_payload("m", br#"{"sensorData":[{"a":{"status":1.5,"value":1.0}}]}"#, 1),
        Err(ParseError::InvalidJson)
    );
    assert_eq!(
        process_payload("m", br#"{"sensorData":[{"a":{"status":0,"value":"x"}}]}"#, 1),
        Err(ParseError::InvalidJson)
    );
}

#[test]
fn second_sensor_data_element_ignored() {
    let payload =
        br#"{"sensorData":[{"a":{"status":0,"value":1.5}},{"b":{"status":0,"value":9.5}}]}"#;
    let pt = parse_telemetry("m", payload, 1).unwrap();
    assert_eq!(pt.record.readings.len(), 1);
    assert_eq!(pt.record.readings[0].0, "a");
}

#[test]
fn empty_field_set_still_formats() {
    let payload = br#"{"mac":"X","timestamp":2,"sensorData":[{}]}"#;
    let line = process_payload("m", payload, 1).unwrap();
    assert_eq!(line, "m,mac=X  2000000000");
}

#[test]
fn integer_values_keep_their_token() {
    let payload = br#"{"mac":"X","timestamp":1,"sensorData":[{"co2":{"status":0,"value":612}}]}"#;
    let line = process_payload("m", payload, 1).unwrap();
    assert_eq!(line, "m,mac=X co2=612 1000000000");
}

#[test]
fn fallback_timestamp_used_and_positive() {
    let payload = br#"{"sensorData":[{}]}"#;
    let pt = parse_telemetry("m", payload, 42).unwrap();
    assert_eq!(pt.record.timestamp_ns, 42);
}

#[test]
fn escaped_strings_decoded() {
    let payload = br#"{"mac":"a\"b\\cA","sensorData":[{}],"timestamp":1}"#;
    let pt = parse_telemetry("m", payload, 1).unwrap();
    assert_eq!(pt.record.mac, "a\"b\\cA");
}

#[test]
fn huge_timestamp_rejected() {
    // Scaling these seconds to nanoseconds would not fit 64 bits.
    let payload = br#"{"timestamp":99999999999,"sensorData":[{}]}"#;
    assert_eq!(process_payload("m", payload, 1), Err(ParseError::InvalidJson));
}
