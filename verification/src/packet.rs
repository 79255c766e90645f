//! Packet header decoding: from the raw bytes of a captured Ethernet frame to
//! the addresses and TCP header fields that the statistics engine consumes.
//!
//! Decoding is best-effort and fails closed: a layer that is too short to
//! parse is reported absent, never an error.

use vstd::prelude::*;

verus! {

/// The fields of a TCP header that the engine's heuristics read.
#[derive(Clone, Copy, Debug, PartialEq, Eq, Structural)]
pub struct TcpSegmentInfo {
    pub source_port: u16,
    pub dest_port: u16,
    pub sequence: u32,
    pub ack: bool,
    pub syn: bool,
    pub fin: bool,
    pub window: u16,
    pub payload_len: u64,
}

/// A decoded frame: an IPv4 packet with its optional TCP header, or an IPv6
/// packet. Anything else is not decoded.
#[derive(Clone, Copy, Debug, PartialEq, Eq, Structural)]
pub enum DecodedPacket {
    V4 { src: u32, dst: u32, tcp: Option<TcpSegmentInfo> },
    V6 { src: u128, dst: u128 },
}

/// The big-endian 16-bit integer at offset `i`.
pub open spec fn spec_be16(b: Seq<u8>, i: int) -> int {
    b[i] * 0x100 + b[i + 1]
}

/// The big-endian 32-bit integer at offset `i`.
pub open spec fn spec_be32(b: Seq<u8>, i: int) -> int {
    b[i] * 0x100_0000 + b[i + 1] * 0x1_0000 + b[i + 2] * 0x100 + b[i + 3]
}

/// The big-endian 128-bit integer at offset `i`: the integer of the four
/// 32-bit groups from most to least significant.
pub open spec fn spec_be128(b: Seq<u8>, i: int) -> int {
    ((spec_be32(b, i) * 0x1_0000_0000 + spec_be32(b, i + 4)) * 0x1_0000_0000 + spec_be32(b, i + 8))
        * 0x1_0000_0000 + spec_be32(b, i + 12)
}

/// What the TCP layer of `t` decodes to: `None` when the buffer cannot hold a
/// TCP header. The payload begins after the 20 header bytes and the options
/// that the data-offset field announces; a data offset pointing past the end
/// of the buffer leaves the payload empty.
pub open spec fn spec_parse_tcp(t: Seq<u8>) -> Option<TcpSegmentInfo> {
    if t.len() < 20 {
        None
    } else {
        let flags = t[13];
        let data_start = if (t[12] >> 4) > 5 { (t[12] >> 4) * 4 } else { 20 };
        Some(
            TcpSegmentInfo {
                source_port: spec_be16(t, 0) as u16,
                dest_port: spec_be16(t, 2) as u16,
                sequence: spec_be32(t, 4) as u32,
                ack: flags & 0x10 != 0,
                syn: flags & 0x02 != 0,
                fin: flags & 0x01 != 0,
                window: spec_be16(t, 14) as u16,
                payload_len: if data_start <= t.len() {
                    (t.len() - data_start) as u64
                } else {
                    0
                },
            },
        )
    }
}

/// What the IPv4 layer of `p` decodes to. The transported bytes run from the
/// end of the header (header-length field, in 32-bit words) to the end that
/// the total-length field announces, clamped to the buffer. When the protocol
/// field says TCP, the TCP header is parsed from them, and a transported part
/// too short for one fails the whole packet: its statistics are skipped.
pub open spec fn spec_parse_ipv4(p: Seq<u8>) -> Option<DecodedPacket> {
    if p.len() < 20 {
        None
    } else if p[9] == 6 {
        match spec_parse_tcp(spec_ipv4_payload(p)) {
            Some(t) => Some(
                DecodedPacket::V4 {
                    src: spec_be32(p, 12) as u32,
                    dst: spec_be32(p, 16) as u32,
                    tcp: Some(t),
                },
            ),
            None => None,
        }
    } else {
        Some(
            DecodedPacket::V4 { src: spec_be32(p, 12) as u32, dst: spec_be32(p, 16) as u32, tcp: None },
        )
    }
}

/// The transported bytes of an IPv4 packet whose buffer holds at least the
/// fixed header.
pub open spec fn spec_ipv4_payload(p: Seq<u8>) -> Seq<u8> {
    let header_len = (p[0] & 0x0F) * 4;
    let total_len = spec_be16(p, 2);
    let end = if total_len > p.len() { p.len() as int } else { total_len };
    if header_len <= end {
        p.subrange(header_len as int, end)
    } else {
        Seq::empty()
    }
}

/// What the IPv6 layer of `p` decodes to: the two addresses, when the buffer
/// holds the fixed header.
pub open spec fn spec_parse_ipv6(p: Seq<u8>) -> Option<DecodedPacket> {
    if p.len() < 40 {
        None
    } else {
        Some(
            DecodedPacket::V6 {
                src: spec_be128(p, 8) as u128,
                dst: spec_be128(p, 24) as u128,
            },
        )
    }
}

/// What a raw Ethernet frame decodes to: the EtherType at offset 12 selects
/// IPv4 or IPv6; any other frame is not decoded.
pub open spec fn spec_decode_frame(b: Seq<u8>) -> Option<DecodedPacket> {
    if b.len() < 14 {
        None
    } else if spec_be16(b, 12) == 0x0800 {
        spec_parse_ipv4(b.skip(14))
    } else if spec_be16(b, 12) == 0x86DD {
        spec_parse_ipv6(b.skip(14))
    } else {
        None
    }
}

fn be16(b: &[u8], i: usize) -> (r: u16)
    requires
        i + 2 <= b@.len(),
    ensures
        r == spec_be16(b@, i as int),
{
    (b[i] as u16) * 0x100 + (b[i + 1] as u16)
}

fn be32(b: &[u8], i: usize) -> (r: u32)
    requires
        i + 4 <= b@.len(),
    ensures
        r == spec_be32(b@, i as int),
{
    (b[i] as u32) * 0x100_0000 + (b[i + 1] as u32) * 0x1_0000 + (b[i + 2] as u32) * 0x100 + (b[i
        + 3] as u32)
}

fn be128(b: &[u8], i: usize) -> (r: u128)
    requires
        i + 16 <= b@.len(),
    ensures
        r == spec_be128(b@, i as int),
{
    let n: usize = b.len();
    let w0 = be32(b, i) as u128;
    let w1 = be32(b, i + 4) as u128;
    let w2 = be32(b, i + 8) as u128;
    let w3 = be32(b, i + 12) as u128;
    ((w0 * 0x1_0000_0000 + w1) * 0x1_0000_0000 + w2) * 0x1_0000_0000 + w3
}

fn parse_tcp(t: &[u8]) -> (r: Option<TcpSegmentInfo>)
    ensures
        r == spec_parse_tcp(t@),
{
    if t.len() < 20 {
        return None;
    }
    let flags = t[13];
    let data_offset = t[12] >> 4;
    let data_start: usize = if data_offset > 5 {
        (data_offset as usize) * 4
    } else {
        20
    };
    Some(
        TcpSegmentInfo {
            source_port: be16(t, 0),
            dest_port: be16(t, 2),
            sequence: be32(t, 4),
            ack: flags & 0x10 != 0,
            syn: flags & 0x02 != 0,
            fin: flags & 0x01 != 0,
            window: be16(t, 14),
            payload_len: if data_start <= t.len() {
                (t.len() - data_start) as u64
            } else {
                0
            },
        },
    )
}

fn parse_ipv4(p: &[u8]) -> (r: Option<DecodedPacket>)
    ensures
        r == spec_parse_ipv4(p@),
{
    if p.len() < 20 {
        return None;
    }
    if p[9] == 6 {
        let header_len: usize = ((p[0] & 0x0F) as usize) * 4;
        let total_len: usize = be16(p, 2) as usize;
        let end: usize = if total_len > p.len() {
            p.len()
        } else {
            total_len
        };
        let tcp = if header_len <= end {
            let payload = &p[header_len..end];
            assert(payload@ == spec_ipv4_payload(p@));
            parse_tcp(payload)
        } else {
            assert(spec_ipv4_payload(p@) =~= Seq::<u8>::empty());
            None
        };
        match tcp {
            Some(t) => Some(DecodedPacket::V4 { src: be32(p, 12), dst: be32(p, 16), tcp: Some(t) }),
            None => None,
        }
    } else {
        Some(DecodedPacket::V4 { src: be32(p, 12), dst: be32(p, 16), tcp: None })
    }
}

fn parse_ipv6(p: &[u8]) -> (r: Option<DecodedPacket>)
    ensures
        r == spec_parse_ipv6(p@),
{
    if p.len() < 40 {
        return None;
    }
    Some(DecodedPacket::V6 { src: be128(p, 8), dst: be128(p, 24) })
}

/// Decodes a raw captured frame: the outer addresses, and the TCP header
/// fields when the packet carries TCP. A frame that is not IPv4 or IPv6, or
/// whose layers are truncated, yields `None`.
pub fn decode_frame(b: &[u8]) -> (r: Option<DecodedPacket>)
    ensures
        r == spec_decode_frame(b@),
{
    if b.len() < 14 {
        return None;
    }
    let ethertype = be16(b, 12);
    if ethertype == 0x0800 {
        let inner = &b[14..b.len()];
        assert(inner@ == b@.skip(14));
        parse_ipv4(inner)
    } else if ethertype == 0x86DD {
        let inner = &b[14..b.len()];
        assert(inner@ == b@.skip(14));
        parse_ipv6(inner)
    } else {
        None
    }
}

} // verus!
