//! Transport-payload extraction.
//!
//! Two interchangeable strategies obtain the application-layer bytes of a
//! captured frame: protocol-aware demultiplexing (parse the frame as
//! Ethernet, require a TCP transport, take the parser's payload) and a
//! fixed-offset heuristic (assume Ethernet + IPv4 without options + TCP
//! without options, 66 bytes in all, and slice past them). The fixed-offset
//! strategy is a documented approximation for a controlled link: it misreads
//! frames that carry VLAN tags or IP/TCP options.

use crate::header::PacketOwned;
use vstd::prelude::*;
use vstd::slice::slice_subrange;
use vstd::slice::slice_to_vec;

verus! {

/// Byte length of an Ethernet header plus an IPv4 header with no options
/// plus a TCP header with no options.
pub const FIXED_PREFIX_LEN: usize = 66;

/// Which strategy obtains the application-layer bytes.
#[derive(Debug, Clone, Copy, PartialEq, Eq)]
pub enum ExtractionMode {
    ProtocolAware,
    FixedOffset,
}

/// The TCP payload that protocol-aware slicing yields for an Ethernet frame:
/// `None` when the frame does not parse as Ethernet or its transport is not
/// TCP, otherwise the transport payload bytes (possibly empty).
pub uninterp spec fn tcp_payload_of(frame: Seq<u8>) -> Option<Seq<u8>>;

/// Relies on `etherparse::SlicedPacket::from_ethernet`: slices an Ethernet
/// frame into its layers and exposes the transport payload. The result
/// depends on the frame bytes alone.
#[verifier::external_body]
fn slice_tcp_payload(data: &[u8]) -> (r: Option<Vec<u8>>)
    ensures
        match r {
            Some(p) => tcp_payload_of(data@) == Some(p@),
            None => tcp_payload_of(data@) is None,
        },
{
    match etherparse::SlicedPacket::from_ethernet(data) {
        Ok(sliced) => match sliced.transport {
            Some(etherparse::TransportSlice::Tcp(_)) => Some(sliced.payload.to_vec()),
            _ => None,
        },
        Err(_) => None,
    }
}

/// Protocol-aware extraction: parse the captured bytes as an Ethernet frame
/// and hand back the TCP payload, or `None` for unparseable framing or a
/// non-TCP transport. An empty payload is a valid result, not an error.
pub fn extract_protocol_aware(packet: &PacketOwned) -> (r: Option<Vec<u8>>)
    ensures
        match r {
            Some(p) => tcp_payload_of(packet.data@) == Some(p@),
            None => tcp_payload_of(packet.data@) is None,
        },
{
    slice_tcp_payload(packet.data.as_slice())
}

/// Fixed-offset extraction: assume the calibrated 66-byte header prefix and
/// slice everything past it; a frame too short to reach past the prefix
/// yields `None`.
pub fn extract_fixed_offset(packet: &PacketOwned) -> (r: Option<Vec<u8>>)
    ensures
        packet.data@.len() <= FIXED_PREFIX_LEN ==> r is None,
        packet.data@.len() > FIXED_PREFIX_LEN ==> (r matches Some(p) && p@
            == packet.data@.subrange(FIXED_PREFIX_LEN as int, packet.data@.len() as int)),
{
    if packet.data.len() <= FIXED_PREFIX_LEN {
        None
    } else {
        let s = slice_subrange(packet.data.as_slice(), FIXED_PREFIX_LEN, packet.data.len());
        Some(slice_to_vec(s))
    }
}

/// Strategy dispatch: obtain the candidate MQTT byte range of one frame, or
/// `None` when the frame is to be skipped.
pub fn extract(mode: ExtractionMode, packet: &PacketOwned) -> (r: Option<Vec<u8>>)
    ensures
        mode is ProtocolAware ==> match r {
            Some(p) => tcp_payload_of(packet.data@) == Some(p@),
            None => tcp_payload_of(packet.data@) is None,
        },
        mode is FixedOffset ==> {
            &&& packet.data@.len() <= FIXED_PREFIX_LEN ==> r is None
            &&& packet.data@.len() > FIXED_PREFIX_LEN ==> (r matches Some(p) && p@
                == packet.data@.subrange(FIXED_PREFIX_LEN as int, packet.data@.len() as int))
        },
{
    match mode {
        ExtractionMode::ProtocolAware => extract_protocol_aware(packet),
        ExtractionMode::FixedOffset => extract_fixed_offset(packet),
    }
}

} // verus!
