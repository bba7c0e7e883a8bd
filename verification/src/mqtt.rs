//! MQTT 3.1.x control-packet decoding.
//!
//! One control packet is decoded from a byte slice: byte 0 carries the packet
//! type in its high nibble and type-specific flags in its low nibble; the
//! following bytes carry the remaining length as a base-128 variable-length
//! integer (one to four digits, little-endian digit order, continuation bit
//! in the high bit of each digit byte); the declared number of bytes after
//! that is the variable header plus payload. Only PUBLISH packets are decoded
//! beyond their type; a buffer holding fewer bytes than the declared
//! remaining length is an incomplete frame, which is distinct from a
//! malformed one.

use crate::text::utf8_to_string;
use vstd::prelude::*;
use vstd::slice::slice_subrange;
use vstd::slice::slice_to_vec;
use vstd::utf8::encode_utf8;
use vstd::utf8::valid_utf8;

verus! {

/// Largest value the four-digit remaining-length field can carry.
pub const MAX_REMAINING_LENGTH: u32 = 0x0FFF_FFFF;

/// The MQTT control-packet kinds.
#[derive(Debug, Clone, Copy, PartialEq, Eq, Structural)]
pub enum PacketType {
    Connect,
    Connack,
    Publish,
    Puback,
    Pubrec,
    Pubrel,
    Pubcomp,
    Subscribe,
    Suback,
    Unsubscribe,
    Unsuback,
    Pingreq,
    Pingresp,
    Disconnect,
}

/// Why a buffer failed to decode as an MQTT control packet.
#[derive(Debug, Clone, Copy, PartialEq, Eq, Structural)]
pub enum DecodeError {
    /// The remaining-length field would need a fifth digit byte.
    RemainingLengthTooLong,
    /// The high nibble of byte 0 is not a known packet type.
    UnknownPacketType,
    /// A PUBLISH packet declared the reserved QoS level 3.
    InvalidQos,
    /// A PUBLISH body is too short for its declared topic length or packet
    /// identifier.
    MalformedPublish,
    /// A PUBLISH topic name is not valid UTF-8.
    TopicNotUtf8,
}

/// A decoded PUBLISH packet.
#[derive(Debug, Clone, PartialEq, Eq)]
pub struct PublishPacket {
    pub dup: bool,
    pub qos: u8,
    pub retain: bool,
    pub topic_name: String,
    pub pid: Option<u16>,
    pub payload: Vec<u8>,
}

/// A decoded MQTT control packet. Only PUBLISH carries fields that are
/// consumed downstream; every other recognized kind is classified by type
/// alone.
#[derive(Debug, Clone, PartialEq, Eq)]
pub enum MqttControlPacket {
    Publish(PublishPacket),
    Other(PacketType),
}

/// Mathematical model of a decoded packet: the topic as its UTF-8 bytes, the
/// payload as bytes.
pub struct PublishV {
    pub dup: bool,
    pub qos: u8,
    pub retain: bool,
    pub topic: Seq<u8>,
    pub pid: Option<int>,
    pub payload: Seq<u8>,
}

pub enum PacketV {
    Publish(PublishV),
    Other(PacketType),
}

impl PublishPacket {
    pub open spec fn view_v(&self) -> PublishV {
        PublishV {
            dup: self.dup,
            qos: self.qos,
            retain: self.retain,
            topic: encode_utf8(self.topic_name@),
            pid: match self.pid {
                Some(p) => Some(p as int),
                None => None,
            },
            payload: self.payload@,
        }
    }
}

impl MqttControlPacket {
    pub open spec fn view_v(&self) -> PacketV {
        match self {
            MqttControlPacket::Publish(p) => PacketV::Publish(p.view_v()),
            MqttControlPacket::Other(t) => PacketV::Other(*t),
        }
    }
}

/// Outcome of reading the remaining-length field.
pub enum VarintV {
    /// The buffer ended inside the field.
    NeedMore,
    /// The field would need a fifth digit byte.
    TooLong,
    /// The decoded value and the number of digit bytes it took.
    Value(int, int),
}

/// Reads the base-128 variable-length integer at position `p` of `s`, with
/// `budget` digit bytes still allowed.
pub open spec fn sp_varint(s: Seq<u8>, p: int, budget: nat) -> VarintV
    decreases budget,
{
    if budget == 0 {
        VarintV::TooLong
    } else if !(0 <= p < s.len()) {
        VarintV::NeedMore
    } else if s[p] < 128 {
        VarintV::Value(s[p] as int, 1)
    } else {
        match sp_varint(s, p + 1, (budget - 1) as nat) {
            VarintV::Value(v, c) => VarintV::Value((s[p] - 128) + v * 128, c + 1),
            r => r,
        }
    }
}

/// The base-128 variable-length encoding of `n`.
pub open spec fn sp_encode_varint(n: int) -> Seq<u8>
    recommends
        0 <= n <= MAX_REMAINING_LENGTH,
    decreases n,
{
    if n < 128 {
        seq![n as u8]
    } else {
        seq![(n % 128 + 128) as u8] + sp_encode_varint(n / 128)
    }
}

/// 128 to the `b`th power.
pub open spec fn pow128(b: nat) -> int
    decreases b,
{
    if b == 0 {
        1
    } else {
        128 * pow128((b - 1) as nat)
    }
}

/// Exec mirror of `sp_varint`.
pub enum VarintOutcome {
    NeedMore,
    TooLong,
    Value(u32, u8),
}

fn read_varint(s: &[u8], p: usize, budget: u8) -> (r: VarintOutcome)
    requires
        budget <= 4,
        p <= s@.len(),
    ensures
        match r {
            VarintOutcome::NeedMore => sp_varint(s@, p as int, budget as nat) is NeedMore,
            VarintOutcome::TooLong => sp_varint(s@, p as int, budget as nat) is TooLong,
            VarintOutcome::Value(v, c) => {
                &&& sp_varint(s@, p as int, budget as nat) == VarintV::Value(v as int, c as int)
                &&& v < pow128(budget as nat)
                &&& 1 <= c <= budget
                &&& p + c <= s@.len()
            },
        },
    decreases budget,
{
    if budget == 0 {
        VarintOutcome::TooLong
    } else if p >= s.len() {
        VarintOutcome::NeedMore
    } else {
        let b = s[p];
        if b < 128 {
            proof {
                assert(pow128(budget as nat) == 128 * pow128((budget - 1) as nat));
                lemma_pow128_pos((budget - 1) as nat);
            }
            VarintOutcome::Value(b as u32, 1)
        } else {
            match read_varint(s, p + 1, budget - 1) {
                VarintOutcome::Value(v, c) => {
                    proof {
                        let bm = (budget - 1) as nat;
                        assert(pow128(budget as nat) == 128 * pow128(bm));
                        assert(pow128(0) == 1);
                        assert(pow128(1) == 128);
                        assert(pow128(2) == 0x4000);
                        assert(pow128(3) == 0x20_0000);
                        assert(bm == 0 || bm == 1 || bm == 2 || bm == 3);
                        assert(pow128(bm) <= 0x20_0000);
                    }
                    VarintOutcome::Value((b - 128) as u32 + v * 128, c + 1)
                },
                r => r,
            }
        }
    }
}

proof fn lemma_pow128_pos(b: nat)
    ensures
        pow128(b) >= 1,
    decreases b,
{
    if b > 0 {
        lemma_pow128_pos((b - 1) as nat);
    }
}

/// Encodes `n` as a base-128 variable-length integer; values needing a fifth
/// digit byte have no encoding and yield `None`.
pub fn encode_remaining_length(n: u32) -> (r: Option<Vec<u8>>)
    ensures
        r is Some <==> n <= MAX_REMAINING_LENGTH,
        r matches Some(v) ==> v@ == sp_encode_varint(n as int),
{
    if n > MAX_REMAINING_LENGTH {
        None
    } else {
        Some(encode_varint_rec(n))
    }
}

fn encode_varint_rec(n: u32) -> (r: Vec<u8>)
    ensures
        r@ == sp_encode_varint(n as int),
    decreases n,
{
    if n < 128 {
        let mut v: Vec<u8> = Vec::new();
        v.push(n as u8);
        proof {
            assert(v@ =~= sp_encode_varint(n as int));
        }
        v
    } else {
        let mut v: Vec<u8> = Vec::new();
        v.push((n % 128 + 128) as u8);
        let mut rest = encode_varint_rec(n / 128);
        v.append(&mut rest);
        proof {
            assert(v@ =~= sp_encode_varint(n as int));
        }
        v
    }
}

/// The number of digit bytes in the encoding of `n`: at most four for values
/// up to the remaining-length maximum.
pub proof fn lemma_encode_varint_len(n: int)
    requires
        0 <= n <= MAX_REMAINING_LENGTH,
    ensures
        1 <= sp_encode_varint(n).len() <= 4,
        n < 128 ==> sp_encode_varint(n).len() == 1,
        128 <= n < 16384 ==> sp_encode_varint(n).len() == 2,
        16384 <= n < 2097152 ==> sp_encode_varint(n).len() == 3,
        2097152 <= n ==> sp_encode_varint(n).len() == 4,
    decreases n,
{
    if n >= 128 {
        lemma_encode_varint_len(n / 128);
    }
}

proof fn lemma_varint_decode_encode(n: int, s: Seq<u8>, p: int, budget: nat)
    requires
        0 <= n,
        0 <= p,
        sp_encode_varint(n).len() <= budget,
        p + sp_encode_varint(n).len() <= s.len(),
        s.subrange(p, p + sp_encode_varint(n).len() as int) == sp_encode_varint(n),
    ensures
        sp_varint(s, p, budget) == VarintV::Value(n, sp_encode_varint(n).len() as int),
    decreases n,
{
    let enc = sp_encode_varint(n);
    if n < 128 {
        assert(s[p] == enc[0]);
    } else {
        let rest = sp_encode_varint(n / 128);
        assert(s[p] == enc[0]);
        assert(s[p] == n % 128 + 128);
        assert(s.subrange(p + 1, p + 1 + rest.len() as int) =~= rest) by {
            assert(forall|i: int|
                0 <= i < rest.len() ==> s.subrange(p + 1, p + 1 + rest.len() as int)[i] == enc[i
                    + 1] && enc[i + 1] == rest[i]);
        }
        lemma_varint_decode_encode(n / 128, s, p + 1, (budget - 1) as nat);
        assert((s[p] - 128) + (n / 128) * 128 == n) by {
            assert(n % 128 + (n / 128) * 128 == n);
        }
    }
}

/// Law: remaining-length round trip. Encoding any value the field can carry
/// and decoding the result yields the value back, consuming exactly the
/// encoded digits; `encode_remaining_length` returns `None` for every larger
/// value, and decoding rejects a field that would need a fifth digit byte.
pub proof fn lemma_remaining_length_round_trip(n: int)
    requires
        0 <= n <= MAX_REMAINING_LENGTH,
    ensures
        sp_varint(sp_encode_varint(n), 0, 4) == VarintV::Value(n, sp_encode_varint(n).len() as int),
{
    lemma_encode_varint_len(n);
    assert(sp_encode_varint(n).subrange(0, sp_encode_varint(n).len() as int) =~= sp_encode_varint(
        n,
    ));
    lemma_varint_decode_encode(n, sp_encode_varint(n), 0, 4);
}

/// The packet type for a high nibble of byte 0, when it names one.
pub open spec fn sp_packet_type(t: int) -> Option<PacketType> {
    if t == 1 {
        Some(PacketType::Connect)
    } else if t == 2 {
        Some(PacketType::Connack)
    } else if t == 3 {
        Some(PacketType::Publish)
    } else if t == 4 {
        Some(PacketType::Puback)
    } else if t == 5 {
        Some(PacketType::Pubrec)
    } else if t == 6 {
        Some(PacketType::Pubrel)
    } else if t == 7 {
        Some(PacketType::Pubcomp)
    } else if t == 8 {
        Some(PacketType::Subscribe)
    } else if t == 9 {
        Some(PacketType::Suback)
    } else if t == 10 {
        Some(PacketType::Unsubscribe)
    } else if t == 11 {
        Some(PacketType::Unsuback)
    } else if t == 12 {
        Some(PacketType::Pingreq)
    } else if t == 13 {
        Some(PacketType::Pingresp)
    } else if t == 14 {
        Some(PacketType::Disconnect)
    } else {
        None
    }
}

fn packet_type_of(t: u8) -> (r: Option<PacketType>)
    ensures
        r == sp_packet_type(t as int),
{
    match t {
        1 => Some(PacketType::Connect),
        2 => Some(PacketType::Connack),
        3 => Some(PacketType::Publish),
        4 => Some(PacketType::Puback),
        5 => Some(PacketType::Pubrec),
        6 => Some(PacketType::Pubrel),
        7 => Some(PacketType::Pubcomp),
        8 => Some(PacketType::Subscribe),
        9 => Some(PacketType::Suback),
        10 => Some(PacketType::Unsubscribe),
        11 => Some(PacketType::Unsuback),
        12 => Some(PacketType::Pingreq),
        13 => Some(PacketType::Pingresp),
        14 => Some(PacketType::Disconnect),
        _ => None,
    }
}

/// Decodes the PUBLISH variable header and payload out of `body`, the
/// declared remaining-length bytes, with `b0` the fixed-header flag byte:
/// a two-byte big-endian topic length, that many bytes of UTF-8 topic name,
/// a two-byte packet identifier when the QoS is above zero, and the rest as
/// application payload.
pub open spec fn sp_decode_publish(body: Seq<u8>, b0: u8) -> Result<PublishV, DecodeError> {
    let qos = ((b0 / 2) % 4) as u8;
    let dup = (b0 / 8) % 2 == 1;
    let retain = b0 % 2 == 1;
    if qos == 3 {
        Err(DecodeError::InvalidQos)
    } else if body.len() < 2 {
        Err(DecodeError::MalformedPublish)
    } else {
        let tl = (body[0] as int) * 256 + (body[1] as int);
        if 2 + tl > body.len() {
            Err(DecodeError::MalformedPublish)
        } else {
            let topic = body.subrange(2, 2 + tl);
            if !valid_utf8(topic) {
                Err(DecodeError::TopicNotUtf8)
            } else if qos > 0 {
                if 2 + tl + 2 > body.len() {
                    Err(DecodeError::MalformedPublish)
                } else {
                    Ok(
                        PublishV {
                            dup,
                            qos,
                            retain,
                            topic,
                            pid: Some((body[2 + tl] as int) * 256 + (body[2 + tl + 1] as int)),
                            payload: body.subrange(2 + tl + 2, body.len() as int),
                        },
                    )
                }
            } else {
                Ok(
                    PublishV {
                        dup,
                        qos,
                        retain,
                        topic,
                        pid: None,
                        payload: body.subrange(2 + tl, body.len() as int),
                    },
                )
            }
        }
    }
}

/// Decodes one control packet from the front of `s`: `Ok(None)` for an
/// incomplete frame, `Ok(Some((packet, consumed)))` on success, `Err` for a
/// malformed one. Bytes past the first packet are ignored.
pub open spec fn sp_decode(s: Seq<u8>) -> Result<Option<(PacketV, int)>, DecodeError> {
    if s.len() == 0 {
        Ok(None)
    } else {
        let b0 = s[0];
        match sp_packet_type(b0 as int / 16) {
            None => Err(DecodeError::UnknownPacketType),
            Some(pt) => match sp_varint(s, 1, 4) {
                VarintV::NeedMore => Ok(None),
                VarintV::TooLong => Err(DecodeError::RemainingLengthTooLong),
                VarintV::Value(rl, c) => {
                    let total = 1 + c + rl;
                    if s.len() < total {
                        Ok(None)
                    } else if pt is Publish {
                        match sp_decode_publish(s.subrange(1 + c, total), b0) {
                            Err(e) => Err(e),
                            Ok(pv) => Ok(Some((PacketV::Publish(pv), total))),
                        }
                    } else {
                        Ok(Some((PacketV::Other(pt), total)))
                    }
                },
            },
        }
    }
}

/// Decodes one MQTT control packet from `buffer`: `Ok(None)` when the buffer
/// holds fewer bytes than the declared remaining length (an incomplete
/// frame), `Err` when the fixed header or the PUBLISH structure is malformed,
/// `Ok(Some(_))` otherwise.
pub fn decode(buffer: &[u8]) -> (r: Result<Option<MqttControlPacket>, DecodeError>)
    ensures
        match r {
            Ok(None) => sp_decode(buffer@) matches Ok(o) && o is None,
            Ok(Some(p)) => sp_decode(buffer@) matches Ok(o) && o matches Some(pc) && pc.0
                == p.view_v(),
            Err(e) => sp_decode(buffer@) matches Err(e2) && e == e2,
        },
{
    if buffer.len() == 0 {
        return Ok(None);
    }
    let b0 = buffer[0];
    let pt = match packet_type_of(b0 / 16) {
        Some(pt) => pt,
        None => {
            return Err(DecodeError::UnknownPacketType);
        },
    };
    let (rl, c) = match read_varint(buffer, 1, 4) {
        VarintOutcome::NeedMore => {
            return Ok(None);
        },
        VarintOutcome::TooLong => {
            return Err(DecodeError::RemainingLengthTooLong);
        },
        VarintOutcome::Value(rl, c) => (rl, c),
    };
    proof {
        assert(pow128(0) == 1);
        assert(pow128(1) == 128);
        assert(pow128(2) == 0x4000);
        assert(pow128(3) == 0x20_0000);
        assert(pow128(4) == 0x1000_0000);
    }
    let total: usize = 1 + (c as usize) + (rl as usize);
    if buffer.len() < total {
        return Ok(None);
    }
    if matches!(pt, PacketType::Publish) {
        let body = slice_subrange(buffer, 1 + (c as usize), total);
        match decode_publish(body, b0) {
            Ok(p) => Ok(Some(MqttControlPacket::Publish(p))),
            Err(e) => Err(e),
        }
    } else {
        proof {
            assert(!(sp_packet_type(b0 as int / 16).unwrap() is Publish));
        }
        Ok(Some(MqttControlPacket::Other(pt)))
    }
}

fn decode_publish(body: &[u8], b0: u8) -> (r: Result<PublishPacket, DecodeError>)
    ensures
        match r {
            Ok(p) => sp_decode_publish(body@, b0) matches Ok(pv) && pv == p.view_v(),
            Err(e) => sp_decode_publish(body@, b0) matches Err(e2) && e == e2,
        },
{
    let qos = (b0 / 2) % 4;
    let dup = (b0 / 8) % 2 == 1;
    let retain = b0 % 2 == 1;
    if qos == 3 {
        return Err(DecodeError::InvalidQos);
    }
    if body.len() < 2 {
        return Err(DecodeError::MalformedPublish);
    }
    let tl: usize = (body[0] as usize) * 256 + (body[1] as usize);
    if 2 + tl > body.len() {
        return Err(DecodeError::MalformedPublish);
    }
    let topic_bytes = slice_to_vec(slice_subrange(body, 2, 2 + tl));
    let topic_name = match utf8_to_string(topic_bytes) {
        Some(s) => s,
        None => {
            return Err(DecodeError::TopicNotUtf8);
        },
    };
    if qos > 0 {
        if 2 + tl + 2 > body.len() {
            return Err(DecodeError::MalformedPublish);
        }
        let pid: u16 = (body[2 + tl] as u16) * 256 + (body[2 + tl + 1] as u16);
        let payload = slice_to_vec(slice_subrange(body, 2 + tl + 2, body.len()));
        Ok(PublishPacket { dup, qos, retain, topic_name, pid: Some(pid), payload })
    } else {
        let payload = slice_to_vec(slice_subrange(body, 2 + tl, body.len()));
        Ok(PublishPacket { dup, qos, retain, topic_name, pid: None, payload })
    }
}

proof fn lemma_varint_value_bounds(s: Seq<u8>, p: int, budget: nat, v: int, c: int)
    requires
        0 <= p,
        sp_varint(s, p, budget) == VarintV::Value(v, c),
    ensures
        1 <= c <= budget,
        p + c <= s.len(),
        0 <= v,
    decreases budget,
{
    assert(budget > 0);
    assert(0 <= p < s.len());
    if s[p] >= 128 {
        match sp_varint(s, p + 1, (budget - 1) as nat) {
            VarintV::Value(v2, c2) => {
                lemma_varint_value_bounds(s, p + 1, (budget - 1) as nat, v2, c2);
            },
            _ => {
                assert(false);
            },
        }
    }
}

proof fn lemma_varint_prefix(s: Seq<u8>, t: Seq<u8>, p: int, budget: nat, v: int, c: int)
    requires
        0 <= p,
        t.len() <= s.len(),
        t == s.subrange(0, t.len() as int),
        sp_varint(s, p, budget) == VarintV::Value(v, c),
    ensures
        p + c <= t.len() ==> sp_varint(t, p, budget) == VarintV::Value(v, c),
        p + c > t.len() ==> sp_varint(t, p, budget) is NeedMore,
    decreases budget,
{
    assert(budget > 0);
    assert(0 <= p < s.len());
    lemma_varint_value_bounds(s, p, budget, v, c);
    if p < t.len() {
        assert(t[p] == s[p]);
        if s[p] >= 128 {
            match sp_varint(s, p + 1, (budget - 1) as nat) {
                VarintV::Value(v2, c2) => {
                    lemma_varint_prefix(s, t, p + 1, (budget - 1) as nat, v2, c2);
                },
                _ => {
                    assert(false);
                },
            }
        }
    }
}

/// Law: incomplete-frame idempotence. Truncating a buffer that decodes as a
/// complete control packet to any prefix shorter than that packet makes
/// decode report an incomplete frame — never an error and never a packet.
pub proof fn lemma_incomplete_prefix(s: Seq<u8>, k: int)
    requires
        sp_decode(s) is Ok,
        sp_decode(s)->Ok_0 is Some,
        0 <= k < sp_decode(s)->Ok_0->Some_0.1,
    ensures
        k <= s.len(),
        sp_decode(s.subrange(0, k)) matches Ok(o) && o is None,
{
    let t = s.subrange(0, k);
    match sp_varint(s, 1, 4) {
        VarintV::Value(rl, c) => {
            lemma_varint_prefix(s, t, 1, 4, rl, c);
        },
        _ => {
            assert(false);
        },
    }
}

} // verus!
