//! Capture-header normalization.
//!
//! A capture library compiled against a foreign ABI may lay the per-packet
//! header out with 64-bit time fields while the host expects 32-bit ones.
//! Reading the wrong field widths silently corrupts the captured length and
//! with it all downstream slicing. The functions here reinterpret the raw
//! header bytes according to the actual on-wire layout and expose one
//! portable, fixed-width header type.

use vstd::prelude::*;
use vstd::slice::slice_subrange;
use vstd::slice::slice_to_vec;

verus! {

/// Portable capture header: timestamp seconds and microseconds, the number of
/// bytes actually captured and the number of bytes that were on the wire.
#[derive(Debug, Clone, PartialEq, Eq)]
pub struct PacketHeader {
    pub ts_sec: i64,
    pub ts_usec: i64,
    pub caplen: u32,
    pub len: u32,
}

/// An owned captured frame: a normalized header plus the captured bytes.
#[derive(Debug, Clone, PartialEq, Eq)]
pub struct PacketOwned {
    pub header: PacketHeader,
    pub data: Vec<u8>,
}

impl PacketOwned {
    /// The byte buffer holds exactly `caplen` bytes.
    pub open spec fn wf(&self) -> bool {
        self.data@.len() == self.header.caplen
    }
}

/// The little-endian 32-bit value stored at offset `i` of `b`.
pub open spec fn le_u32_at(b: Seq<u8>, i: int) -> u32
    recommends
        0 <= i,
        i + 4 <= b.len(),
{
    ((b[i] as int) + (b[i + 1] as int) * 0x100 + (b[i + 2] as int) * 0x10000 + (b[i + 3] as int)
        * 0x1000000) as u32
}

/// The little-endian 64-bit value stored at offset `i` of `b`.
pub open spec fn le_u64_at(b: Seq<u8>, i: int) -> u64
    recommends
        0 <= i,
        i + 8 <= b.len(),
{
    ((b[i] as int) + (b[i + 1] as int) * 0x100 + (b[i + 2] as int) * 0x10000 + (b[i + 3] as int)
        * 0x1000000 + (b[i + 4] as int) * 0x100000000 + (b[i + 5] as int) * 0x10000000000 + (b[i
        + 6] as int) * 0x1000000000000 + (b[i + 7] as int) * 0x100000000000000) as u64
}

/// Reads the little-endian 32-bit value at offset `i` of `b`.
pub fn read_le_u32(b: &[u8], i: usize) -> (r: u32)
    requires
        i + 4 <= b@.len(),
    ensures
        r == le_u32_at(b@, i as int),
{
    (b[i] as u32) + (b[i + 1] as u32) * 0x100 + (b[i + 2] as u32) * 0x10000 + (b[i + 3] as u32)
        * 0x1000000
}

/// Reads the little-endian 64-bit value at offset `i` of `b`.
pub fn read_le_u64(b: &[u8], i: usize) -> (r: u64)
    requires
        i + 8 <= b@.len(),
    ensures
        r == le_u64_at(b@, i as int),
{
    (b[i] as u64) + (b[i + 1] as u64) * 0x100 + (b[i + 2] as u64) * 0x10000 + (b[i + 3] as u64)
        * 0x1000000 + (b[i + 4] as u64) * 0x100000000 + (b[i + 5] as u64) * 0x10000000000 + (b[i
        + 6] as u64) * 0x1000000000000 + (b[i + 7] as u64) * 0x100000000000000
}

/// The captured length actually usable for slicing: `caplen`, capped at the
/// number of bytes that are really there.
pub open spec fn capped_len(caplen: u32, data: Seq<u8>) -> int {
    if caplen <= data.len() {
        caplen as int
    } else {
        data.len() as int
    }
}

/// Pass-through normalization for hosts whose native header layout matches
/// the capture library's: the fields are taken as given and the data buffer
/// is copied, capped at `caplen` so that no read goes past the supplied
/// bytes.
pub fn fix_packet(ts_sec: i64, ts_usec: i64, caplen: u32, len: u32, data: &[u8]) -> (r: PacketOwned)
    requires
        data@.len() <= 0xFFFF_FFFF,
    ensures
        r.wf(),
        r.header.ts_sec == ts_sec,
        r.header.ts_usec == ts_usec,
        r.header.len == len,
        r.header.caplen == capped_len(caplen, data@),
        r.data@ == data@.take(capped_len(caplen, data@)),
{
    let cap: usize = if (caplen as usize) <= data.len() {
        caplen as usize
    } else {
        data.len()
    };
    let buf = slice_to_vec(slice_subrange(data, 0, cap));
    proof {
        assert(buf@ == data@.take(capped_len(caplen, data@)));
    }
    PacketOwned {
        header: PacketHeader { ts_sec, ts_usec, caplen: cap as u32, len },
        data: buf,
    }
}

/// Per-frame codec: turns each captured frame into an owned, normalized
/// packet.
pub struct FixHeaderCodec;

impl FixHeaderCodec {
    /// Decodes one captured frame by pass-through normalization of its
    /// header fields and data.
    pub fn decode(
        &mut self,
        ts_sec: i64,
        ts_usec: i64,
        caplen: u32,
        len: u32,
        data: &[u8],
    ) -> (r: PacketOwned)
        requires
            data@.len() <= 0xFFFF_FFFF,
        ensures
            r.wf(),
            r.header.ts_sec == ts_sec,
            r.header.ts_usec == ts_usec,
            r.header.len == len,
            r.header.caplen == capped_len(caplen, data@),
            r.data@ == data@.take(capped_len(caplen, data@)),
    {
        fix_packet(ts_sec, ts_usec, caplen, len, data)
    }
}

/// Normalization for the platform class whose capture headers carry 64-bit
/// time fields: the raw header bytes are reinterpreted with the wide layout
/// (little-endian seconds at offset 0, microseconds at 8, captured length at
/// 16, wire length at 20) and the time fields are narrowed to 32 bits before
/// being exposed. Returns `None` when fewer than 24 header bytes are given.
pub fn fix_packet_wide(header_bytes: &[u8], data: &[u8]) -> (r: Option<PacketOwned>)
    requires
        data@.len() <= 0xFFFF_FFFF,
    ensures
        r is Some <==> header_bytes@.len() >= 24,
        match r {
            Some(p) => {
                let h = header_bytes@;
                let caplen = le_u32_at(h, 16);
                &&& p.wf()
                &&& p.header.ts_sec == (le_u64_at(h, 0) as i32) as i64
                &&& p.header.ts_usec == (le_u64_at(h, 8) as i32) as i64
                &&& p.header.caplen == capped_len(caplen, data@)
                &&& p.header.len == le_u32_at(h, 20)
                &&& p.data@ == data@.take(capped_len(caplen, data@))
            },
            None => true,
        },
{
    if header_bytes.len() < 24 {
        return None;
    }
    let ts_sec = #[verifier::truncate] (read_le_u64(header_bytes, 0) as i32);
    let ts_usec = #[verifier::truncate] (read_le_u64(header_bytes, 8) as i32);
    let caplen = read_le_u32(header_bytes, 16);
    let len = read_le_u32(header_bytes, 20);
    Some(fix_packet(ts_sec as i64, ts_usec as i64, caplen, len, data))
}

} // verus!
