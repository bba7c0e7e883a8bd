//! Sensor-telemetry extraction from a PUBLISH payload.
//!
//! The payload is JSON of the shape `{ "mac": string?, "sensorData":
//! [ { name: { "status": uint?, "value": number? }, ... }, ... ],
//! "timestamp": uint? }`. Only the first `sensorData` element is consumed.
//! A missing `mac` becomes the literal `UNKNOWN`; a missing `timestamp`
//! becomes the caller's fallback clock reading; a present one is seconds and
//! is scaled to nanoseconds. Every reading is gated on its status code.

use crate::json::is_digit;
use crate::json::jv_members;
use crate::json::parse_json;
use crate::json::sp_json;
use crate::json::Json;
use crate::json::JsonV;
use crate::text::lemma_ascii_valid_utf8;
use crate::text::utf8_to_string;
use vstd::prelude::*;
use vstd::string::StringExecFns;
use vstd::utf8::encode_utf8;

verus! {

/// Why a payload yielded no telemetry record.
#[derive(Debug, Clone, Copy, PartialEq, Eq, Structural)]
pub enum ParseError {
    /// The payload is not JSON of the expected shape.
    InvalidJson,
    /// The JSON has no usable `sensorData`.
    NoSensorData,
}

/// What the gating policy does with one reading.
#[derive(Debug, Clone, Copy, PartialEq, Eq, Structural)]
pub enum GateAction {
    Emit,
    SuppressSilent,
    SuppressWarn,
}

/// The gating policy, a function of the status code and the value's
/// presence alone: a reading without a value is dropped silently whatever
/// its status; status 0 or 1 emits; status 2 (sensor warm-up) is dropped
/// silently; any other status is dropped with a diagnostic; a missing
/// status is dropped silently.
pub open spec fn sp_gate(status: Option<int>, has_value: bool) -> GateAction {
    if !has_value {
        GateAction::SuppressSilent
    } else {
        match status {
            Some(s) => if s == 0 || s == 1 {
                GateAction::Emit
            } else if s == 2 {
                GateAction::SuppressSilent
            } else {
                GateAction::SuppressWarn
            },
            None => GateAction::SuppressSilent,
        }
    }
}

pub open spec fn opt_int(o: Option<u32>) -> Option<int> {
    match o {
        Some(v) => Some(v as int),
        None => None,
    }
}

/// Applies the gating policy to one reading.
pub fn gate(status: Option<u32>, has_value: bool) -> (r: GateAction)
    ensures
        r == sp_gate(opt_int(status), has_value),
{
    if !has_value {
        GateAction::SuppressSilent
    } else {
        match status {
            Some(s) => if s == 0 || s == 1 {
                GateAction::Emit
            } else if s == 2 {
                GateAction::SuppressSilent
            } else {
                GateAction::SuppressWarn
            },
            None => GateAction::SuppressSilent,
        }
    }
}

/// The bytes of the key `mac`.
pub open spec fn key_mac() -> Seq<u8> {
    seq![0x6Du8, 0x61u8, 0x63u8]
}

/// The bytes of the key `sensorData`.
pub open spec fn key_sensor_data() -> Seq<u8> {
    seq![0x73u8, 0x65u8, 0x6Eu8, 0x73u8, 0x6Fu8, 0x72u8, 0x44u8, 0x61u8, 0x74u8, 0x61u8]
}

/// The bytes of the key `timestamp`.
pub open spec fn key_timestamp() -> Seq<u8> {
    seq![0x74u8, 0x69u8, 0x6Du8, 0x65u8, 0x73u8, 0x74u8, 0x61u8, 0x6Du8, 0x70u8]
}

/// The bytes of the key `status`.
pub open spec fn key_status() -> Seq<u8> {
    seq![0x73u8, 0x74u8, 0x61u8, 0x74u8, 0x75u8, 0x73u8]
}

/// The bytes of the key `value`.
pub open spec fn key_value() -> Seq<u8> {
    seq![0x76u8, 0x61u8, 0x6Cu8, 0x75u8, 0x65u8]
}

/// The bytes of the substitute MAC `UNKNOWN`.
pub open spec fn mac_unknown() -> Seq<u8> {
    seq![0x55u8, 0x4Eu8, 0x4Bu8, 0x4Eu8, 0x4Fu8, 0x57u8, 0x4Eu8]
}

/// The value bound to the first member named `key`, if any.
pub open spec fn sp_member(obj: Seq<(Seq<u8>, JsonV)>, key: Seq<u8>) -> Option<JsonV>
    decreases obj.len(),
{
    if obj.len() == 0 {
        None
    } else if obj[0].0 == key {
        Some(obj[0].1)
    } else {
        sp_member(obj.drop_first(), key)
    }
}

fn bytes_eq(a: &[u8], b: &[u8]) -> (r: bool)
    ensures
        r == (a@ == b@),
{
    if a.len() != b.len() {
        proof {
            assert(a@ != b@) by {
                if a@ == b@ {
                    assert(a@.len() == b@.len());
                }
            }
        }
        return false;
    }
    let mut k: usize = 0;
    while k < a.len()
        invariant
            k <= a@.len(),
            a@.len() == b@.len(),
            forall|t: int| 0 <= t < k ==> a@[t] == b@[t],
        decreases a@.len() - k,
    {
        if a[k] != b[k] {
            return false;
        }
        k += 1;
    }
    proof {
        assert(a@ =~= b@);
    }
    true
}

fn find_member<'a>(members: &'a Vec<(String, Json)>, key: &[u8]) -> (r: Option<&'a Json>)
    ensures
        match r {
            Some(v) => sp_member(jv_members(members@), key@) == Some(v.view_v()),
            None => sp_member(jv_members(members@), key@) is None,
        },
{
    let ghost model = jv_members(members@);
    proof {
        assert(model.skip(0) =~= model);
    }
    let mut k: usize = 0;
    while k < members.len()
        invariant
            k <= members@.len(),
            model == jv_members(members@),
            sp_member(model, key@) == sp_member(model.skip(k as int), key@),
        decreases members@.len() - k,
    {
        let name_bytes = members[k].0.as_str().as_bytes();
        if bytes_eq(name_bytes, key) {
            proof {
                assert(model.skip(k as int)[0] == model[k as int]);
            }
            return Some(&members[k].1);
        }
        proof {
            assert(model.skip(k as int)[0] == model[k as int]);
            assert(model.skip(k as int).drop_first() =~= model.skip(k as int + 1));
        }
        k += 1;
    }
    proof {
        assert(model.skip(members@.len() as int) =~= Seq::<(Seq<u8>, JsonV)>::empty());
    }
    None
}

/// A non-empty, all-digit token.
pub open spec fn sp_digits_only(t: Seq<u8>) -> bool {
    t.len() > 0 && forall|k: int| 0 <= k < t.len() ==> is_digit(t[k])
}

/// The decimal value of a digit token.
pub open spec fn sp_dec_val(t: Seq<u8>) -> int
    decreases t.len(),
{
    if t.len() == 0 {
        0
    } else {
        sp_dec_val(t.drop_last()) * 10 + (t.last() - 0x30)
    }
}

proof fn lemma_dec_val_nonneg(t: Seq<u8>)
    requires
        forall|k: int| 0 <= k < t.len() ==> is_digit(t[k]),
    ensures
        sp_dec_val(t) >= 0,
    decreases t.len(),
{
    if t.len() > 0 {
        lemma_dec_val_nonneg(t.drop_last());
    }
}

proof fn lemma_dec_val_prefix(t: Seq<u8>, k: int)
    requires
        0 <= k <= t.len(),
        forall|j: int| 0 <= j < t.len() ==> is_digit(t[j]),
    ensures
        sp_dec_val(t.take(k)) <= sp_dec_val(t),
    decreases t.len() - k,
{
    if k < t.len() {
        assert(t.take(k + 1).drop_last() =~= t.take(k));
        assert(forall|j: int| 0 <= j < t.take(k).len() ==> is_digit(t.take(k)[j]));
        lemma_dec_val_nonneg(t.take(k));
        assert(sp_dec_val(t.take(k + 1)) == sp_dec_val(t.take(k)) * 10 + (t[k] - 0x30));
        lemma_dec_val_prefix(t, k + 1);
    } else {
        assert(t.take(k) =~= t);
    }
}

/// Reads a decimal unsigned integer token: `Some` exactly when the token is
/// all digits and its value does not exceed `max`.
fn parse_uint(t: &[u8], max: u64) -> (r: Option<u64>)
    ensures
        match r {
            Some(v) => sp_digits_only(t@) && v as int == sp_dec_val(t@) && v <= max,
            None => !sp_digits_only(t@) || sp_dec_val(t@) > max,
        },
{
    if t.len() == 0 {
        return None;
    }
    let mut acc: u64 = 0;
    let mut k: usize = 0;
    while k < t.len()
        invariant
            k <= t@.len(),
            t@.len() > 0,
            acc <= max,
            acc as int == sp_dec_val(t@.take(k as int)),
            forall|j: int| 0 <= j < k ==> is_digit(t@[j]),
        decreases t@.len() - k,
    {
        let b = t[k];
        if !(0x30 <= b && b <= 0x39) {
            return None;
        }
        let d: u64 = (b - 0x30) as u64;
        if acc > max / 10 || (acc == max / 10 && d > max % 10) {
            proof {
                if sp_digits_only(t@) {
                    assert(t@.take(k as int + 1).drop_last() =~= t@.take(k as int));
                    assert(sp_dec_val(t@.take(k as int + 1)) == acc * 10 + d);
                    assert(sp_dec_val(t@.take(k as int + 1)) > max);
                    lemma_dec_val_prefix(t@, k as int + 1);
                }
            }
            return None;
        }
        proof {
            assert(t@.take(k as int + 1).drop_last() =~= t@.take(k as int));
        }
        acc = acc * 10 + d;
        k += 1;
    }
    proof {
        assert(t@.take(t@.len() as int) =~= t@);
    }
    Some(acc)
}

/// One reading before gating: its status code and its value token, if any,
/// or the error for an entry that is not an object of optional integral
/// `status` and optional numeric `value`.
pub open spec fn sp_reading_of(v: JsonV) -> Result<(Option<int>, Option<Seq<u8>>), ParseError> {
    match v {
        JsonV::Obj(ms) => {
            let st = match sp_member(ms, key_status()) {
                None => Ok(None::<int>),
                Some(JsonV::Null) => Ok(None::<int>),
                Some(JsonV::Num(t)) => if sp_digits_only(t) && sp_dec_val(t) <= 0xFFFF_FFFF {
                    Ok(Some(sp_dec_val(t)))
                } else {
                    Err(ParseError::InvalidJson)
                },
                Some(_) => Err(ParseError::InvalidJson),
            };
            let val = match sp_member(ms, key_value()) {
                None => Ok(None::<Seq<u8>>),
                Some(JsonV::Null) => Ok(None::<Seq<u8>>),
                Some(JsonV::Num(t)) => Ok(Some(t)),
                Some(_) => Err(ParseError::InvalidJson),
            };
            match (st, val) {
                (Ok(s), Ok(vv)) => Ok((s, vv)),
                (Err(e), _) => Err(e),
                (_, Err(e)) => Err(e),
            }
        },
        _ => Err(ParseError::InvalidJson),
    }
}

/// The gated readings (name and value token, in source order) and the
/// unknown status codes of the entries of one sensor-data object.
pub open spec fn sp_readings(entries: Seq<(Seq<u8>, JsonV)>) -> Result<
    (Seq<(Seq<u8>, Seq<u8>)>, Seq<int>),
    ParseError,
>
    decreases entries.len(),
{
    if entries.len() == 0 {
        Ok((Seq::empty(), Seq::empty()))
    } else {
        match sp_reading_of(entries[0].1) {
            Err(e) => Err(e),
            Ok((status, value)) => match sp_readings(entries.drop_first()) {
                Err(e) => Err(e),
                Ok((rs, ws)) => match sp_gate(status, value is Some) {
                    GateAction::Emit => Ok((seq![(entries[0].0, value->0)] + rs, ws)),
                    GateAction::SuppressSilent => Ok((rs, ws)),
                    GateAction::SuppressWarn => Ok((rs, seq![status->0] + ws)),
                },
            },
        }
    }
}

/// The model of gathered readings: each name and token as its UTF-8 bytes.
pub open spec fn readings_model(v: Seq<(String, String)>) -> Seq<(Seq<u8>, Seq<u8>)> {
    Seq::new(v.len(), |k: int| (encode_utf8(v[k].0@), encode_utf8(v[k].1@)))
}

/// The model of gathered diagnostics.
pub open spec fn warns_model(v: Seq<u32>) -> Seq<int> {
    Seq::new(v.len(), |k: int| v[k] as int)
}

fn reading_of(v: &Json) -> (r: Result<(Option<u32>, Option<String>), ParseError>)
    ensures
        match r {
            Ok((st, val)) => (sp_reading_of(v.view_v()) matches Ok(q) && q.0 == opt_int(st)
                && (match val {
                Some(tok) => q.1 == Some(encode_utf8(tok@)),
                None => q.1 is None,
            })),
            Err(e) => sp_reading_of(v.view_v()) matches Err(e2) && e == e2,
        },
{
    let ms = match v {
        Json::Obj(ms) => ms,
        _ => {
            return Err(ParseError::InvalidJson);
        },
    };
    proof {
        assert(v.view_v()->Obj_0 =~= jv_members(ms@));
        assert(v.view_v() == JsonV::Obj(jv_members(ms@)));
    }
    let status_key: [u8; 6] = [0x73, 0x74, 0x61, 0x74, 0x75, 0x73];
    let value_key: [u8; 5] = [0x76, 0x61, 0x6C, 0x75, 0x65];
    proof {
        assert(status_key@ =~= key_status());
        assert(value_key@ =~= key_value());
    }
    let st: Option<u32> = match find_member(ms, status_key.as_slice()) {
        None => None,
        Some(Json::Null) => None,
        Some(Json::Num(t)) => {
            match parse_uint(t.as_str().as_bytes(), 0xFFFF_FFFF) {
                Some(s) => Some(s as u32),
                None => {
                    return Err(ParseError::InvalidJson);
                },
            }
        },
        Some(_) => {
            return Err(ParseError::InvalidJson);
        },
    };
    let val: Option<String> = match find_member(ms, value_key.as_slice()) {
        None => None,
        Some(Json::Null) => None,
        Some(Json::Num(t)) => Some(t.clone()),
        Some(_) => {
            return Err(ParseError::InvalidJson);
        },
    };
    Ok((st, val))
}

fn collect_readings(entries: &Vec<(String, Json)>, idx: usize) -> (r: Result<
    (Vec<(String, String)>, Vec<u32>),
    ParseError,
>)
    requires
        idx <= entries@.len(),
    ensures
        match r {
            Ok((rs, ws)) => sp_readings(jv_members(entries@).skip(idx as int)) == Ok::<
                _,
                ParseError,
            >((readings_model(rs@), warns_model(ws@))),
            Err(e) => sp_readings(jv_members(entries@).skip(idx as int)) matches Err(e2) && e
                == e2,
        },
    decreases entries@.len() - idx,
{
    let ghost model = jv_members(entries@).skip(idx as int);
    if idx == entries.len() {
        proof {
            assert(model =~= Seq::<(Seq<u8>, JsonV)>::empty());
            assert(readings_model(Seq::<(String, String)>::empty()) =~= Seq::<(
                Seq<u8>,
                Seq<u8>,
            )>::empty());
            assert(warns_model(Seq::<u32>::empty()) =~= Seq::<int>::empty());
        }
        return Ok((Vec::new(), Vec::new()));
    }
    proof {
        assert(model[0] == jv_members(entries@)[idx as int]);
        assert(model.drop_first() =~= jv_members(entries@).skip(idx as int + 1));
    }
    let (status, value) = match reading_of(&entries[idx].1) {
        Ok(p) => p,
        Err(e) => {
            return Err(e);
        },
    };
    let (rest_rs, rest_ws) = match collect_readings(entries, idx + 1) {
        Ok(p) => p,
        Err(e) => {
            return Err(e);
        },
    };
    let has_value = match &value {
        Some(_) => true,
        None => false,
    };
    match gate(status, has_value) {
        GateAction::Emit => {
            let name = entries[idx].0.clone();
            let tok = match value {
                Some(t) => t,
                None => {
                    proof {
                        assert(false);
                    }
                    String::new()
                },
            };
            let ghost name_model = encode_utf8(name@);
            let ghost tok_model = encode_utf8(tok@);
            let ghost rest_model = readings_model(rest_rs@);
            let mut rs: Vec<(String, String)> = Vec::new();
            rs.push((name, tok));
            let mut rest_tmp = rest_rs;
            rs.append(&mut rest_tmp);
            proof {
                assert(readings_model(rs@) =~= seq![(name_model, tok_model)] + rest_model);
            }
            Ok((rs, rest_ws))
        },
        GateAction::SuppressSilent => Ok((rest_rs, rest_ws)),
        GateAction::SuppressWarn => {
            let s = match status {
                Some(s) => s,
                None => {
                    proof {
                        assert(false);
                    }
                    0
                },
            };
            let ghost rest_model = warns_model(rest_ws@);
            let mut ws: Vec<u32> = Vec::new();
            ws.push(s);
            let mut rest_tmp = rest_ws;
            ws.append(&mut rest_tmp);
            proof {
                assert(warns_model(ws@) =~= seq![s as int] + rest_model);
            }
            Ok((rest_rs, ws))
        },
    }
}

/// The MAC to report: the `mac` member's string, or `UNKNOWN` when it is
/// absent or null.
pub open spec fn sp_mac(members: Seq<(Seq<u8>, JsonV)>) -> Result<Seq<u8>, ParseError> {
    match sp_member(members, key_mac()) {
        None => Ok(mac_unknown()),
        Some(JsonV::Null) => Ok(mac_unknown()),
        Some(JsonV::Str(m)) => Ok(m),
        Some(_) => Err(ParseError::InvalidJson),
    }
}

/// The timestamp to report, in nanoseconds: the `timestamp` member's
/// integral seconds scaled by ten to the ninth, or the caller's fallback
/// reading when the member is absent or null. A non-integral timestamp, or
/// one whose scaling would not fit 64 bits, is an error.
pub open spec fn sp_timestamp(members: Seq<(Seq<u8>, JsonV)>, fallback_ns: u64) -> Result<
    int,
    ParseError,
> {
    match sp_member(members, key_timestamp()) {
        None => Ok(fallback_ns as int),
        Some(JsonV::Null) => Ok(fallback_ns as int),
        Some(JsonV::Num(t)) => if sp_digits_only(t) && sp_dec_val(t) * 1000000000
            <= 0xFFFF_FFFF_FFFF_FFFF {
            Ok(sp_dec_val(t) * 1000000000)
        } else {
            Err(ParseError::InvalidJson)
        },
        Some(_) => Err(ParseError::InvalidJson),
    }
}

/// The model of a telemetry record.
pub struct RecordV {
    pub mac: Seq<u8>,
    pub readings: Seq<(Seq<u8>, Seq<u8>)>,
    pub warns: Seq<int>,
    pub timestamp_ns: int,
}

/// The record a JSON document denotes: its first sensor-data element's
/// gated readings, the MAC and timestamp with their defaults, or the error
/// for a document without usable sensor data or of the wrong shape.
pub open spec fn sp_record(j: JsonV, fallback_ns: u64) -> Result<RecordV, ParseError> {
    match j {
        JsonV::Obj(members) => match sp_member(members, key_sensor_data()) {
            None => Err(ParseError::NoSensorData),
            Some(JsonV::Null) => Err(ParseError::NoSensorData),
            Some(JsonV::Arr(elems)) => if elems.len() == 0 {
                Err(ParseError::NoSensorData)
            } else {
                match elems[0] {
                    JsonV::Obj(entries) => match sp_readings(entries) {
                        Err(e) => Err(e),
                        Ok((rs, ws)) => match sp_mac(members) {
                            Err(e) => Err(e),
                            Ok(mac) => match sp_timestamp(members, fallback_ns) {
                                Err(e) => Err(e),
                                Ok(ts) => Ok(
                                    RecordV { mac, readings: rs, warns: ws, timestamp_ns: ts },
                                ),
                            },
                        },
                    },
                    _ => Err(ParseError::InvalidJson),
                }
            },
            Some(_) => Err(ParseError::InvalidJson),
        },
        _ => Err(ParseError::InvalidJson),
    }
}

/// A telemetry record ready for formatting.
#[derive(Debug)]
pub struct TelemetryRecord {
    pub measurement: String,
    pub mac: String,
    pub readings: Vec<(String, String)>,
    pub timestamp_ns: u64,
}

/// A parsed payload: the record and the unknown status codes seen while
/// gating, for the caller to report.
#[derive(Debug)]
pub struct ParsedTelemetry {
    pub record: TelemetryRecord,
    pub unknown_statuses: Vec<u32>,
}

/// How a parsed payload relates to the record model its bytes denote.
pub open spec fn telemetry_matches(
    pt: ParsedTelemetry,
    rv: RecordV,
    measurement: Seq<char>,
) -> bool {
    &&& pt.record.measurement@ == measurement
    &&& encode_utf8(pt.record.mac@) == rv.mac
    &&& readings_model(pt.record.readings@) == rv.readings
    &&& warns_model(pt.unknown_statuses@) == rv.warns
    &&& pt.record.timestamp_ns as int == rv.timestamp_ns
}

fn unknown_mac() -> (r: String)
    ensures
        encode_utf8(r@) == mac_unknown(),
{
    let bytes: [u8; 7] = [0x55, 0x4E, 0x4B, 0x4E, 0x4F, 0x57, 0x4E];
    let v = vstd::slice::slice_to_vec(bytes.as_slice());
    proof {
        assert(v@ =~= mac_unknown());
        lemma_ascii_valid_utf8(v@);
    }
    match utf8_to_string(v) {
        Some(s) => s,
        None => {
            proof {
                assert(false);
            }
            String::new()
        },
    }
}

/// Parses a PUBLISH payload into a telemetry record: exactly the record the
/// bytes denote under the grammar and the gating policy, or the error they
/// denote. `fallback_ns` is the caller's positive fallback clock reading,
/// used when the payload carries no timestamp.
pub fn parse_telemetry(measurement: &str, payload: &[u8], fallback_ns: u64) -> (r: Result<
    ParsedTelemetry,
    ParseError,
>)
    requires
        fallback_ns >= 1,
    ensures
        match r {
            Ok(pt) => (sp_json(payload@) matches Some(j) && sp_record(j, fallback_ns) matches Ok(
                rv,
            ) && telemetry_matches(pt, rv, measurement@)),
            Err(e) => match sp_json(payload@) {
                None => e == ParseError::InvalidJson,
                Some(j) => sp_record(j, fallback_ns) matches Err(e2) && e == e2,
            },
        },
{
    let doc = match parse_json(payload) {
        Some(d) => d,
        None => {
            return Err(ParseError::InvalidJson);
        },
    };
    let members = match &doc {
        Json::Obj(ms) => ms,
        _ => {
            return Err(ParseError::InvalidJson);
        },
    };
    proof {
        assert(doc.view_v()->Obj_0 =~= jv_members(members@));
        assert(doc.view_v() == JsonV::Obj(jv_members(members@)));
    }
    let sd_key: [u8; 10] = [0x73, 0x65, 0x6E, 0x73, 0x6F, 0x72, 0x44, 0x61, 0x74, 0x61];
    let mac_key: [u8; 3] = [0x6D, 0x61, 0x63];
    let ts_key: [u8; 9] = [0x74, 0x69, 0x6D, 0x65, 0x73, 0x74, 0x61, 0x6D, 0x70];
    proof {
        assert(sd_key@ =~= key_sensor_data());
        assert(mac_key@ =~= key_mac());
        assert(ts_key@ =~= key_timestamp());
    }
    let elems = match find_member(members, sd_key.as_slice()) {
        None => {
            return Err(ParseError::NoSensorData);
        },
        Some(Json::Null) => {
            return Err(ParseError::NoSensorData);
        },
        Some(Json::Arr(elems)) => elems,
        Some(_) => {
            return Err(ParseError::InvalidJson);
        },
    };
    proof {
        assert(sp_member(jv_members(members@), key_sensor_data()) matches Some(sd) && sd->Arr_0
            =~= crate::json::jv_seq(elems@));
        assert(sp_member(jv_members(members@), key_sensor_data()) == Some(
            JsonV::Arr(crate::json::jv_seq(elems@)),
        ));
    }
    if elems.len() == 0 {
        return Err(ParseError::NoSensorData);
    }
    let entries = match &elems[0] {
        Json::Obj(entries) => entries,
        _ => {
            return Err(ParseError::InvalidJson);
        },
    };
    proof {
        assert(crate::json::jv_seq(elems@)[0] == elems@[0].view_v());
        assert(elems@[0].view_v()->Obj_0 =~= jv_members(entries@));
        assert(elems@[0].view_v() == JsonV::Obj(jv_members(entries@)));
    }
    let (readings, warns) = match collect_readings(entries, 0) {
        Ok(p) => p,
        Err(e) => {
            proof {
                assert(jv_members(entries@).skip(0) =~= jv_members(entries@));
            }
            return Err(e);
        },
    };
    proof {
        assert(jv_members(entries@).skip(0) =~= jv_members(entries@));
    }
    let mac = match find_member(members, mac_key.as_slice()) {
        None => unknown_mac(),
        Some(Json::Null) => unknown_mac(),
        Some(Json::Str(m)) => m.clone(),
        Some(_) => {
            return Err(ParseError::InvalidJson);
        },
    };
    let ts: u64 = match find_member(members, ts_key.as_slice()) {
        None => fallback_ns,
        Some(Json::Null) => fallback_ns,
        Some(Json::Num(t)) => {
            match parse_uint(t.as_str().as_bytes(), 0xFFFF_FFFF_FFFF_FFFF) {
                Some(secs) => {
                    if secs > 0xFFFF_FFFF_FFFF_FFFFu64 / 1000000000 {
                        return Err(ParseError::InvalidJson);
                    }
                    secs * 1000000000
                },
                None => {
                    return Err(ParseError::InvalidJson);
                },
            }
        },
        Some(_) => {
            return Err(ParseError::InvalidJson);
        },
    };
    let record = TelemetryRecord {
        measurement: String::from_str(measurement),
        mac,
        readings,
        timestamp_ns: ts,
    };
    Ok(ParsedTelemetry { record, unknown_statuses: warns })
}

/// Law: no-sensor-data rejection. An object whose `sensorData` member is
/// absent, null or an empty array denotes the no-sensor-data error, never a
/// record.
pub proof fn lemma_no_sensor_data(j: JsonV, fallback_ns: u64)
    requires
        j is Obj,
        match sp_member(j->Obj_0, key_sensor_data()) {
            None => true,
            Some(JsonV::Null) => true,
            Some(JsonV::Arr(a)) => a.len() == 0,
            Some(_) => false,
        },
    ensures
        sp_record(j, fallback_ns) == Err::<RecordV, ParseError>(ParseError::NoSensorData),
{
}

/// Law: missing-field defaults. For an object without `mac` and without
/// `timestamp` members whose sensor data is usable, the record carries the
/// literal `UNKNOWN` as its MAC and the caller's fallback reading — which is
/// positive — as its timestamp.
pub proof fn lemma_missing_field_defaults(j: JsonV, fallback_ns: u64)
    requires
        fallback_ns >= 1,
        j is Obj,
        sp_member(j->Obj_0, key_mac()) is None,
        sp_member(j->Obj_0, key_timestamp()) is None,
        sp_record(j, fallback_ns) is Ok,
    ensures
        sp_record(j, fallback_ns)->Ok_0.mac == mac_unknown(),
        sp_record(j, fallback_ns)->Ok_0.timestamp_ns == fallback_ns as int,
        sp_record(j, fallback_ns)->Ok_0.timestamp_ns > 0,
{
}

} // verus!
