//! Per-frame orchestration: from a candidate MQTT byte range to one
//! line-protocol line, or to the reason the frame yields none.

use crate::line::format_record;
use crate::line::sp_record_line;
use crate::mqtt::decode;
use crate::mqtt::sp_decode;
use crate::mqtt::DecodeError;
use crate::mqtt::MqttControlPacket;
use crate::mqtt::PacketType;
use crate::mqtt::PacketV;
use crate::mqtt::PublishV;
use crate::telemetry::parse_telemetry;
use crate::telemetry::sp_record;
use crate::telemetry::warns_model;
use crate::telemetry::ParseError;
use crate::json::sp_json;
use vstd::prelude::*;
use vstd::utf8::encode_utf8_decode_utf8;

verus! {

/// What one transport payload produced.
#[derive(Debug)]
pub enum FrameOutcome {
    /// The payload was empty: nothing to decode.
    NoPayload,
    /// The buffer holds fewer bytes than the declared remaining length.
    Incomplete,
    /// A well-formed control packet of a kind other than PUBLISH.
    NotPublish(PacketType),
    /// The bytes are not a well-formed control packet.
    DecodeFailed(DecodeError),
    /// A PUBLISH whose payload is not usable telemetry.
    ParseFailed(ParseError),
    /// One formatted line, and the unknown status codes seen while gating,
    /// for the caller to report.
    Line(String, Vec<u32>),
}

/// The payload of a decoded PUBLISH yields the given error.
pub open spec fn sp_publish_err(pv: PublishV, fallback_ns: u64, e: ParseError) -> bool {
    match sp_json(pv.payload) {
        None => e == ParseError::InvalidJson,
        Some(j) => sp_record(j, fallback_ns) matches Err(e2) && e == e2,
    }
}

/// The payload of a decoded PUBLISH yields the given line and diagnostics.
pub open spec fn sp_publish_line(
    pv: PublishV,
    measurement: Seq<char>,
    fallback_ns: u64,
    line: Seq<char>,
    warns: Seq<u32>,
) -> bool {
    sp_json(pv.payload) matches Some(j) && sp_record(j, fallback_ns) matches Ok(rv) && line
        == sp_record_line(measurement, rv) && warns_model(warns) == rv.warns
}

/// Parses one PUBLISH payload and formats the record it carries as one
/// line: exactly the line the payload bytes denote under the grammar, the
/// gating policy and the line format, or the error they denote.
/// `fallback_ns` is the caller's positive fallback clock reading.
pub fn process_payload(measurement: &str, payload: &[u8], fallback_ns: u64) -> (r: Result<
    String,
    ParseError,
>)
    requires
        fallback_ns >= 1,
    ensures
        match r {
            Ok(line) => (sp_json(payload@) matches Some(j) && sp_record(j, fallback_ns) matches Ok(
                rv,
            ) && line@ == sp_record_line(measurement@, rv)),
            Err(e) => match sp_json(payload@) {
                None => e == ParseError::InvalidJson,
                Some(j) => sp_record(j, fallback_ns) matches Err(e2) && e == e2,
            },
        },
{
    match parse_telemetry(measurement, payload, fallback_ns) {
        Err(e) => Err(e),
        Ok(pt) => {
            let line = format_record(&pt.record);
            proof {
                encode_utf8_decode_utf8(pt.record.mac@);
                let rv = sp_record(sp_json(payload@)->Some_0, fallback_ns)->Ok_0;
                assert(crate::line::sp_record_fields(rv.readings) =~= crate::line::rec_fields(
                    pt.record.readings@,
                )) by {
                    assert forall|k: int| 0 <= k < rv.readings.len() implies crate::line::sp_record_fields(
                        rv.readings,
                    )[k] == crate::line::rec_fields(pt.record.readings@)[k] by {
                        encode_utf8_decode_utf8(pt.record.readings@[k].0@);
                        encode_utf8_decode_utf8(pt.record.readings@[k].1@);
                    }
                }
            }
            Ok(line)
        },
    }
}

/// Runs the decode-parse-format pipeline on one transport payload and says
/// what happened: the exact taxonomy of skips and failures, or the line.
pub fn process_transport_payload(payload: &[u8], measurement: &str, fallback_ns: u64) -> (r:
    FrameOutcome)
    requires
        fallback_ns >= 1,
    ensures
        r is NoPayload <==> payload@.len() == 0,
        match r {
            FrameOutcome::NoPayload => true,
            FrameOutcome::Incomplete => sp_decode(payload@) matches Ok(o) && o is None,
            FrameOutcome::NotPublish(t) => (sp_decode(payload@) matches Ok(o) && o matches Some(pc)
                && pc.0 == PacketV::Other(t)),
            FrameOutcome::DecodeFailed(e) => sp_decode(payload@) matches Err(e2) && e == e2,
            FrameOutcome::ParseFailed(e) => (sp_decode(payload@) matches Ok(o) && o matches Some(
                pc,
            ) && pc.0 matches PacketV::Publish(pv) && sp_publish_err(pv, fallback_ns, e)),
            FrameOutcome::Line(line, warns) => (sp_decode(payload@) matches Ok(o) && o matches Some(
                pc,
            ) && pc.0 matches PacketV::Publish(pv) && sp_publish_line(
                pv,
                measurement@,
                fallback_ns,
                line@,
                warns@,
            )),
        },
{
    if payload.len() == 0 {
        return FrameOutcome::NoPayload;
    }
    match decode(payload) {
        Ok(None) => FrameOutcome::Incomplete,
        Ok(Some(MqttControlPacket::Other(t))) => FrameOutcome::NotPublish(t),
        Ok(Some(MqttControlPacket::Publish(p))) => {
            match parse_telemetry(measurement, p.payload.as_slice(), fallback_ns) {
                Err(e) => FrameOutcome::ParseFailed(e),
                Ok(pt) => {
                    let line = format_record(&pt.record);
                    proof {
                        encode_utf8_decode_utf8(pt.record.mac@);
                        let rv = sp_record(sp_json(p.payload@)->Some_0, fallback_ns)->Ok_0;
                        assert(crate::line::sp_record_fields(rv.readings)
                            =~= crate::line::rec_fields(pt.record.readings@)) by {
                            assert forall|k: int|
                                0 <= k
                                    < rv.readings.len() implies crate::line::sp_record_fields(
                                rv.readings,
                            )[k] == crate::line::rec_fields(pt.record.readings@)[k] by {
                                encode_utf8_decode_utf8(pt.record.readings@[k].0@);
                                encode_utf8_decode_utf8(pt.record.readings@[k].1@);
                            }
                        }
                        assert(warns_model(pt.unknown_statuses@) == rv.warns);
                    }
                    FrameOutcome::Line(line, pt.unknown_statuses)
                },
            }
        },
        Err(e) => FrameOutcome::DecodeFailed(e),
    }
}

} // verus!
