//! The mathematical model of the flow-statistics engine: the per-address
//! state as unbounded integers and port-keyed maps, and one transition
//! function for each engine operation. The executable engine's contracts are
//! stated over these.

use vstd::prelude::*;
use crate::packet::{DecodedPacket, TcpSegmentInfo};

verus! {

/// The identity under which statistics are aggregated: an IP address.
#[derive(Clone, Copy, Debug, PartialEq, Eq, Structural)]
pub enum AddressKey {
    V4(u32),
    V6(u128),
}

/// The model of one address's statistics. Counters are cumulative and only
/// ever grow; the `last_*` fields hold each counter as of the previous rate
/// computation; the `*_per_sec` fields hold the derivatives of the most
/// recently completed interval. Time is in milliseconds.
#[verifier::ext_equal]
pub struct AddrModel {
    pub tx_packets: int,
    pub rx_packets: int,
    pub tx_bytes: int,
    pub rx_bytes: int,
    pub tx_last_bytes: int,
    pub rx_last_bytes: int,
    pub last_time: int,
    pub tx_bps: int,
    pub rx_bps: int,
    pub tx_bytes_per_sec: int,
    pub rx_bytes_per_sec: int,
    pub expected_seq: Map<u16, u32>,
    pub retransmissions: int,
    pub duplicate_acks: int,
    pub last_retransmissions: int,
    pub last_duplicate_acks: int,
    pub retransmissions_per_sec: int,
    pub duplicate_acks_per_sec: int,
    pub last_window: Map<u16, u16>,
    pub window_changes: int,
    pub last_window_changes: int,
    pub window_changes_per_sec: int,
}

/// The state created on the first packet for an address: every counter and
/// rate zero, both port tables empty, the sample timestamp set to `now`.
pub open spec fn fresh_model(now: int) -> AddrModel {
    AddrModel {
        tx_packets: 0,
        rx_packets: 0,
        tx_bytes: 0,
        rx_bytes: 0,
        tx_last_bytes: 0,
        rx_last_bytes: 0,
        last_time: now,
        tx_bps: 0,
        rx_bps: 0,
        tx_bytes_per_sec: 0,
        rx_bytes_per_sec: 0,
        expected_seq: Map::empty(),
        retransmissions: 0,
        duplicate_acks: 0,
        last_retransmissions: 0,
        last_duplicate_acks: 0,
        retransmissions_per_sec: 0,
        duplicate_acks_per_sec: 0,
        last_window: Map::empty(),
        window_changes: 0,
        last_window_changes: 0,
        window_changes_per_sec: 0,
    }
}

/// The sequence number a following in-order segment would carry: the segment's
/// number advanced by its payload and one unit for SYN/FIN, modulo the 32-bit
/// sequence space.
pub open spec fn next_expected_seq(t: TcpSegmentInfo) -> u32 {
    ((t.sequence + t.payload_len + 1) % 0x1_0000_0000) as u32
}

/// Whether a transmit-direction segment advances the expected-next-sequence
/// table: it does when it consumes sequence space (payload, SYN or FIN).
pub open spec fn advances_seq(t: TcpSegmentInfo) -> bool {
    t.payload_len > 0 || t.syn || t.fin
}

/// The retransmission heuristic flags a segment whose sequence number has
/// regressed below the expectation recorded for its port.
pub open spec fn is_retransmission(s: AddrModel, t: TcpSegmentInfo) -> bool {
    s.expected_seq.contains_key(t.source_port) && t.sequence < s.expected_seq[t.source_port]
}

/// The window-change heuristic flags a segment whose advertised window differs
/// from the last one recorded for `port`; a first observation is no change.
pub open spec fn is_window_change(s: AddrModel, port: u16, window: u16) -> bool {
    s.last_window.contains_key(port) && s.last_window[port] != window
}

/// The duplicate-acknowledgment heuristic flags every bare acknowledgment: ACK
/// set and no payload.
pub open spec fn is_bare_ack(t: TcpSegmentInfo) -> bool {
    t.ack && t.payload_len == 0
}

/// The TCP part of a transmit-direction update, keyed by the source port:
/// the retransmission check against the old expectation, the expectation
/// update, and the window-change check against the old window record.
pub open spec fn tx_tcp_step(s: AddrModel, t: TcpSegmentInfo) -> AddrModel {
    let port = t.source_port;
    AddrModel {
        retransmissions: s.retransmissions + if is_retransmission(s, t) {
            1int
        } else {
            0int
        },
        expected_seq: if advances_seq(t) {
            s.expected_seq.insert(port, next_expected_seq(t))
        } else {
            s.expected_seq
        },
        window_changes: s.window_changes + if is_window_change(s, port, t.window) {
            1int
        } else {
            0int
        },
        last_window: s.last_window.insert(port, t.window),
        ..s
    }
}

/// The TCP part of a receive-direction update, keyed by the destination port:
/// the duplicate-acknowledgment count and the window-change check.
pub open spec fn rx_tcp_step(s: AddrModel, t: TcpSegmentInfo) -> AddrModel {
    let port = t.dest_port;
    AddrModel {
        duplicate_acks: s.duplicate_acks + if is_bare_ack(t) {
            1int
        } else {
            0int
        },
        window_changes: s.window_changes + if is_window_change(s, port, t.window) {
            1int
        } else {
            0int
        },
        last_window: s.last_window.insert(port, t.window),
        ..s
    }
}

/// A transmit-direction update: one packet of `bytes` bytes, and the TCP
/// heuristics when the packet carried a TCP header.
pub open spec fn tx_step(s: AddrModel, bytes: u64, tcp: Option<TcpSegmentInfo>) -> AddrModel {
    let s1 = AddrModel { tx_packets: s.tx_packets + 1, tx_bytes: s.tx_bytes + bytes, ..s };
    match tcp {
        Some(t) => tx_tcp_step(s1, t),
        None => s1,
    }
}

/// A receive-direction update: one packet of `bytes` bytes, and the TCP
/// heuristics when the packet carried a TCP header.
pub open spec fn rx_step(s: AddrModel, bytes: u64, tcp: Option<TcpSegmentInfo>) -> AddrModel {
    let s1 = AddrModel { rx_packets: s.rx_packets + 1, rx_bytes: s.rx_bytes + bytes, ..s };
    match tcp {
        Some(t) => rx_tcp_step(s1, t),
        None => s1,
    }
}

/// A rate computation touches an address only when at least one full second
/// has passed since its last sample.
pub open spec fn rate_due(s: AddrModel, now: int) -> bool {
    now - s.last_time >= 1000
}

/// One address's rate recomputation at time `now`. When due, every derivative
/// is the delta of its counter since the last sample — bits per second over
/// the actual elapsed time, the others as flat per-interval deltas — and all
/// sample baselines advance to the current values. When not due, the state is
/// unchanged, so previously derived rates stay valid rather than turning to
/// noise.
pub open spec fn rate_step(s: AddrModel, now: int) -> AddrModel {
    if rate_due(s, now) {
        let elapsed = now - s.last_time;
        AddrModel {
            tx_bps: (s.tx_bytes - s.tx_last_bytes) * 8000 / elapsed,
            rx_bps: (s.rx_bytes - s.rx_last_bytes) * 8000 / elapsed,
            tx_bytes_per_sec: s.tx_bytes - s.tx_last_bytes,
            rx_bytes_per_sec: s.rx_bytes - s.rx_last_bytes,
            retransmissions_per_sec: s.retransmissions - s.last_retransmissions,
            duplicate_acks_per_sec: s.duplicate_acks - s.last_duplicate_acks,
            window_changes_per_sec: s.window_changes - s.last_window_changes,
            tx_last_bytes: s.tx_bytes,
            rx_last_bytes: s.rx_bytes,
            last_retransmissions: s.retransmissions,
            last_duplicate_acks: s.duplicate_acks,
            last_window_changes: s.window_changes,
            last_time: now,
            ..s
        }
    } else {
        s
    }
}

/// The state an update applies to: the recorded one, or a fresh state stamped
/// `now` when the address has not been seen.
pub open spec fn entry_or_fresh(m: Map<AddressKey, AddrModel>, a: AddressKey, now: int) -> AddrModel {
    if m.contains_key(a) {
        m[a]
    } else {
        fresh_model(now)
    }
}

/// The counters a transmit-direction update touches have room left.
pub open spec fn tx_fits(s: AddrModel, bytes: u64) -> bool {
    &&& s.tx_packets < u64::MAX
    &&& s.tx_bytes + bytes <= u64::MAX
    &&& s.retransmissions < u64::MAX
    &&& s.window_changes < u64::MAX
}

/// The counters a receive-direction update touches have room left.
pub open spec fn rx_fits(s: AddrModel, bytes: u64) -> bool {
    &&& s.rx_packets < u64::MAX
    &&& s.rx_bytes + bytes <= u64::MAX
    &&& s.duplicate_acks < u64::MAX
    &&& s.window_changes < u64::MAX
}

/// The transmit half of a packet dispatch: when `a` is in the target set and
/// its counters have room, record the transmit update for it.
pub open spec fn tx_dispatch(
    m: Map<AddressKey, AddrModel>,
    a: AddressKey,
    bytes: u64,
    tcp: Option<TcpSegmentInfo>,
    target: Seq<AddressKey>,
    now: int,
) -> Map<AddressKey, AddrModel> {
    if target.contains(a) && tx_fits(entry_or_fresh(m, a, now), bytes) {
        m.insert(a, tx_step(entry_or_fresh(m, a, now), bytes, tcp))
    } else {
        m
    }
}

/// The receive half of a packet dispatch.
pub open spec fn rx_dispatch(
    m: Map<AddressKey, AddrModel>,
    a: AddressKey,
    bytes: u64,
    tcp: Option<TcpSegmentInfo>,
    target: Seq<AddressKey>,
    now: int,
) -> Map<AddressKey, AddrModel> {
    if target.contains(a) && rx_fits(entry_or_fresh(m, a, now), bytes) {
        m.insert(a, rx_step(entry_or_fresh(m, a, now), bytes, tcp))
    } else {
        m
    }
}

/// What one decoded packet of `bytes` captured bytes does to the engine. An
/// IPv4 packet is a transmit update for its source and a receive update for
/// its destination, each only when that address is in the target set; an IPv6
/// packet is recorded as transmit traffic of its source without a target-set
/// check, as the engine's scope takes only IPv4 targets. An update whose
/// counters have no room left is skipped rather than taken out of range.
pub open spec fn packet_step(
    m: Map<AddressKey, AddrModel>,
    pkt: DecodedPacket,
    bytes: u64,
    target: Seq<AddressKey>,
    now: int,
) -> Map<AddressKey, AddrModel> {
    match pkt {
        DecodedPacket::V4 { src, dst, tcp } => {
            let m1 = tx_dispatch(m, AddressKey::V4(src), bytes, tcp, target, now);
            rx_dispatch(m1, AddressKey::V4(dst), bytes, tcp, target, now)
        },
        DecodedPacket::V6 { src, dst } => {
            if tx_fits(entry_or_fresh(m, AddressKey::V6(src), now), bytes) {
                m.insert(
                    AddressKey::V6(src),
                    tx_step(entry_or_fresh(m, AddressKey::V6(src), now), bytes, None),
                )
            } else {
                m
            }
        },
    }
}

} // verus!
