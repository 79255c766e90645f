//! The engine's laws: properties that hold of every sequence of operations,
//! proved over the model transitions that the engine's contracts are stated
//! with.

use vstd::prelude::*;
use crate::metrics::totals_of;
use crate::model::{advances_seq, AddrModel, AddressKey, entry_or_fresh, fresh_model, is_bare_ack,
    is_retransmission, next_expected_seq, rate_due, rate_step, rx_step, rx_tcp_step, tx_step,
    tx_tcp_step};
use crate::packet::TcpSegmentInfo;

verus! {

/// One record operation: the direction, the address, the frame bytes, the
/// optional TCP header, and the time a fresh state would be stamped with.
pub enum RecordEvent {
    Transmit { addr: AddressKey, bytes: u64, tcp: Option<TcpSegmentInfo>, now: int },
    Receive { addr: AddressKey, bytes: u64, tcp: Option<TcpSegmentInfo>, now: int },
}

/// What one record operation does to the engine's map: exactly what
/// `record_transmit` and `record_receive` ensure.
pub open spec fn apply_record(
    m: Map<AddressKey, AddrModel>,
    e: RecordEvent,
) -> Map<AddressKey, AddrModel> {
    match e {
        RecordEvent::Transmit { addr, bytes, tcp, now } => m.insert(
            addr,
            tx_step(entry_or_fresh(m, addr, now), bytes, tcp),
        ),
        RecordEvent::Receive { addr, bytes, tcp, now } => m.insert(
            addr,
            rx_step(entry_or_fresh(m, addr, now), bytes, tcp),
        ),
    }
}

/// A whole sequence of record operations, applied in order.
pub open spec fn apply_records(
    m: Map<AddressKey, AddrModel>,
    es: Seq<RecordEvent>,
) -> Map<AddressKey, AddrModel>
    decreases es.len(),
{
    if es.len() == 0 {
        m
    } else {
        apply_record(apply_records(m, es.drop_last()), es.last())
    }
}

/// An address's cumulative transmit packet count, zero while unobserved.
pub open spec fn tx_packets_of(m: Map<AddressKey, AddrModel>, a: AddressKey) -> int {
    if m.contains_key(a) {
        m[a].tx_packets
    } else {
        0
    }
}

/// An address's cumulative transmit byte count, zero while unobserved.
pub open spec fn tx_bytes_of(m: Map<AddressKey, AddrModel>, a: AddressKey) -> int {
    if m.contains_key(a) {
        m[a].tx_bytes
    } else {
        0
    }
}

/// An address's cumulative receive packet count, zero while unobserved.
pub open spec fn rx_packets_of(m: Map<AddressKey, AddrModel>, a: AddressKey) -> int {
    if m.contains_key(a) {
        m[a].rx_packets
    } else {
        0
    }
}

/// An address's cumulative receive byte count, zero while unobserved.
pub open spec fn rx_bytes_of(m: Map<AddressKey, AddrModel>, a: AddressKey) -> int {
    if m.contains_key(a) {
        m[a].rx_bytes
    } else {
        0
    }
}

/// How many packets a sequence of events transmits for `a`.
pub open spec fn sum_tx_packets(es: Seq<RecordEvent>, a: AddressKey) -> int
    decreases es.len(),
{
    if es.len() == 0 {
        0
    } else {
        sum_tx_packets(es.drop_last(), a) + match es.last() {
            RecordEvent::Transmit { addr, .. } => if addr == a {
                1int
            } else {
                0int
            },
            RecordEvent::Receive { .. } => 0int,
        }
    }
}

/// How many bytes a sequence of events transmits for `a`.
pub open spec fn sum_tx_bytes(es: Seq<RecordEvent>, a: AddressKey) -> int
    decreases es.len(),
{
    if es.len() == 0 {
        0
    } else {
        sum_tx_bytes(es.drop_last(), a) + match es.last() {
            RecordEvent::Transmit { addr, bytes, .. } => if addr == a {
                bytes as int
            } else {
                0int
            },
            RecordEvent::Receive { .. } => 0int,
        }
    }
}

/// How many packets a sequence of events receives for `a`.
pub open spec fn sum_rx_packets(es: Seq<RecordEvent>, a: AddressKey) -> int
    decreases es.len(),
{
    if es.len() == 0 {
        0
    } else {
        sum_rx_packets(es.drop_last(), a) + match es.last() {
            RecordEvent::Receive { addr, .. } => if addr == a {
                1int
            } else {
                0int
            },
            RecordEvent::Transmit { .. } => 0int,
        }
    }
}

/// How many bytes a sequence of events receives for `a`.
pub open spec fn sum_rx_bytes(es: Seq<RecordEvent>, a: AddressKey) -> int
    decreases es.len(),
{
    if es.len() == 0 {
        0
    } else {
        sum_rx_bytes(es.drop_last(), a) + match es.last() {
            RecordEvent::Receive { addr, bytes, .. } => if addr == a {
                bytes as int
            } else {
                0int
            },
            RecordEvent::Transmit { .. } => 0int,
        }
    }
}

/// Law: after any sequence of record operations, an address's cumulative
/// packet and byte counters equal their starting values plus the sum of the
/// increments of exactly its own events — however the events of different
/// addresses interleave.
pub proof fn lemma_counters_are_sums(
    m: Map<AddressKey, AddrModel>,
    es: Seq<RecordEvent>,
    a: AddressKey,
)
    ensures
        tx_packets_of(apply_records(m, es), a) == tx_packets_of(m, a) + sum_tx_packets(es, a),
        tx_bytes_of(apply_records(m, es), a) == tx_bytes_of(m, a) + sum_tx_bytes(es, a),
        rx_packets_of(apply_records(m, es), a) == rx_packets_of(m, a) + sum_rx_packets(es, a),
        rx_bytes_of(apply_records(m, es), a) == rx_bytes_of(m, a) + sum_rx_bytes(es, a),
    decreases es.len(),
{
    if es.len() > 0 {
        lemma_counters_are_sums(m, es.drop_last(), a);
    }
}

/// Law: when exactly one second has elapsed since the last sample and the
/// cumulative transmit byte count has grown by exactly 1000 bytes, the
/// recomputed transmit rate is 8000 bits per second and 1000 bytes per
/// second.
pub proof fn lemma_rate_exact_second(s: AddrModel, now: int)
    requires
        now - s.last_time == 1000,
        s.tx_bytes - s.tx_last_bytes == 1000,
    ensures
        rate_step(s, now).tx_bps == 8000,
        rate_step(s, now).tx_bytes_per_sec == 1000,
{
    assert(1000int * 8000 / 1000 == 8000);
}

/// Law: after a completed recomputation, `bytes` transmitted bytes followed
/// by a second recomputation exactly one second later derive a transmit rate
/// of exactly `8 * bytes` bits per second and `bytes` bytes per second.
pub proof fn lemma_two_recomputations_one_second_apart(
    s0: AddrModel,
    now1: int,
    bytes: u64,
    tcp: Option<TcpSegmentInfo>,
)
    requires
        rate_due(s0, now1),
    ensures
        ({
            let s2 = tx_step(rate_step(s0, now1), bytes, tcp);
            &&& rate_step(s2, now1 + 1000).tx_bps == 8 * bytes
            &&& rate_step(s2, now1 + 1000).tx_bytes_per_sec == bytes
        }),
{
    let s2 = tx_step(rate_step(s0, now1), bytes, tcp);
    assert(s2.tx_bytes - s2.tx_last_bytes == bytes);
    assert(bytes * 8000 / 1000 == 8 * bytes) by (nonlinear_arith);
}

/// Law: a recomputation less than one second after an address's last sample
/// leaves its state — the derived rates included — entirely unchanged.
pub proof fn lemma_rate_stale_interval(s: AddrModel, now: int)
    requires
        now - s.last_time < 1000,
    ensures
        rate_step(s, now) == s,
        !rate_due(s, now),
{
}

/// Law (retransmission heuristic): a transmit-direction segment whose sequence
/// number has regressed below the recorded expectation for its source port
/// increments the retransmission counter by exactly one, any other segment
/// not at all; a segment that consumes sequence space records the expectation
/// `(S + L + 1) mod 2^32`, and one that does not (no payload, no SYN, no FIN)
/// leaves the table unchanged — in particular, such a segment with no prior
/// expectation leaves none.
pub proof fn lemma_retransmission_heuristic(s: AddrModel, t: TcpSegmentInfo)
    ensures
        is_retransmission(s, t) ==> tx_tcp_step(s, t).retransmissions == s.retransmissions + 1,
        !is_retransmission(s, t) ==> tx_tcp_step(s, t).retransmissions == s.retransmissions,
        advances_seq(t) ==> tx_tcp_step(s, t).expected_seq == s.expected_seq.insert(
            t.source_port,
            next_expected_seq(t),
        ),
        !advances_seq(t) ==> tx_tcp_step(s, t).expected_seq == s.expected_seq,
        !advances_seq(t) && !s.expected_seq.contains_key(t.source_port) ==> !tx_tcp_step(
            s,
            t,
        ).expected_seq.contains_key(t.source_port),
{
}

/// Law (duplicate-acknowledgment heuristic): a bare acknowledgment — ACK set,
/// empty payload — on the receive direction increments the duplicate-ACK
/// counter by exactly one, a first such segment included: the heuristic
/// counts every bare ACK, not only repeated ones. Any other segment leaves
/// the counter unchanged.
pub proof fn lemma_bare_ack_counts(s: AddrModel, t: TcpSegmentInfo)
    ensures
        is_bare_ack(t) ==> rx_tcp_step(s, t).duplicate_acks == s.duplicate_acks + 1,
        !is_bare_ack(t) ==> rx_tcp_step(s, t).duplicate_acks == s.duplicate_acks,
{
}

/// Law (window-change heuristic, transmit direction): of two consecutive
/// observations for the same source port, the second increments the
/// window-change counter exactly when its advertised window differs from the
/// first's; equal windows leave the counter unchanged.
pub proof fn lemma_window_change_pair_tx(s: AddrModel, t1: TcpSegmentInfo, t2: TcpSegmentInfo)
    ensures
        t1.source_port == t2.source_port ==> ({
            let s1 = tx_tcp_step(s, t1);
            tx_tcp_step(s1, t2).window_changes == s1.window_changes + if t2.window != t1.window {
                1int
            } else {
                0int
            }
        }),
{
}

/// Law (window-change heuristic, receive direction): as on the transmit
/// direction, with the observations keyed by the destination port.
pub proof fn lemma_window_change_pair_rx(s: AddrModel, t1: TcpSegmentInfo, t2: TcpSegmentInfo)
    ensures
        t1.dest_port == t2.dest_port ==> ({
            let s1 = rx_tcp_step(s, t1);
            rx_tcp_step(s1, t2).window_changes == s1.window_changes + if t2.window != t1.window {
                1int
            } else {
                0int
            }
        }),
{
}

/// Law: the cumulative counters never decrease: a record operation can only
/// raise them, and a rate recomputation reads them without touching them. The
/// exported series built on them can therefore stay monotonic.
pub proof fn lemma_counters_monotone(
    s: AddrModel,
    bytes: u64,
    tcp: Option<TcpSegmentInfo>,
    now: int,
)
    ensures
        tx_step(s, bytes, tcp).tx_packets >= s.tx_packets,
        tx_step(s, bytes, tcp).tx_bytes >= s.tx_bytes,
        tx_step(s, bytes, tcp).retransmissions >= s.retransmissions,
        tx_step(s, bytes, tcp).window_changes >= s.window_changes,
        rx_step(s, bytes, tcp).rx_packets >= s.rx_packets,
        rx_step(s, bytes, tcp).rx_bytes >= s.rx_bytes,
        rx_step(s, bytes, tcp).duplicate_acks >= s.duplicate_acks,
        rx_step(s, bytes, tcp).window_changes >= s.window_changes,
        rate_step(s, now).tx_packets == s.tx_packets,
        rate_step(s, now).rx_packets == s.rx_packets,
        rate_step(s, now).tx_bytes == s.tx_bytes,
        rate_step(s, now).rx_bytes == s.rx_bytes,
        rate_step(s, now).retransmissions == s.retransmissions,
        rate_step(s, now).duplicate_acks == s.duplicate_acks,
        rate_step(s, now).window_changes == s.window_changes,
{
}

/// Law: the totals never read an address outside the target set — however
/// such an address's statistics change, the totals over the target set stay
/// the same.
pub proof fn lemma_totals_ignore_external(
    es: Seq<(AddressKey, AddrModel)>,
    target: Seq<AddressKey>,
    i: int,
    s: AddrModel,
)
    requires
        0 <= i < es.len(),
        !target.contains(es[i].0),
    ensures
        totals_of(es.update(i, (es[i].0, s)), target) == totals_of(es, target),
    decreases es.len(),
{
    let t = es.update(i, (es[i].0, s));
    if i == es.len() - 1 {
        assert(t.drop_last() =~= es.drop_last());
    } else {
        assert(t.drop_last() =~= es.drop_last().update(i, (es[i].0, s)));
        lemma_totals_ignore_external(es.drop_last(), target, i, s);
        assert(t.last() == es.last());
    }
}

/// Law: a fresh per-address state carries no statistics: every counter and
/// every derived rate is zero, and no port has a recorded expectation or
/// window.
pub proof fn lemma_fresh_state_is_zero(now: int, port: u16)
    ensures
        fresh_model(now).tx_packets == 0,
        fresh_model(now).rx_packets == 0,
        fresh_model(now).tx_bytes == 0,
        fresh_model(now).rx_bytes == 0,
        fresh_model(now).retransmissions == 0,
        fresh_model(now).duplicate_acks == 0,
        fresh_model(now).window_changes == 0,
        !fresh_model(now).expected_seq.contains_key(port),
        !fresh_model(now).last_window.contains_key(port),
{
}

} // verus!
