use subnet_monitor::engine::FlowStats;
use subnet_monitor::model::AddressKey;
use subnet_monitor::packet::TcpSegmentInfo;

fn plain_tcp(sport: u16, dport: u16, seq: u32, payload: u64) -> TcpSegmentInfo {
    TcpSegmentInfo {
        source_port: sport,
        dest_port: dport,
        sequence: seq,
        ack: false,
        syn: false,
        fin: false,
        window: 1000,
        payload_len: payload,
    }
}

#[test]
fn counters_accumulate_per_address() {
    let a = AddressKey::V4(0x0A00_0001);
    let b = AddressKey::V4(0x0A00_0002);
    let mut stats = FlowStats::new();
    stats.record_transmit(a, 100, None, 0);
    stats.record_receive(b, 50, None, 0);
    stats.record_transmit(a, 200, None, 10);
    stats.record_receive(a, 70, None, 20);
    stats.record_transmit(b, 1, None, 30);

    let sa = stats.get(a).unwrap();
    assert_eq!(sa.tx_packet_count, 2);
    assert_eq!(sa.tx_byte_count, 300);
    assert_eq!(sa.rx_packet_count, 1);
    assert_eq!(sa.rx_byte_count, 70);

    let sb = stats.get(b).unwrap();
    assert_eq!(sb.tx_packet_count, 1);
    assert_eq!(sb.tx_byte_count, 1);
    assert_eq!(sb.rx_packet_count, 1);
    assert_eq!(sb.rx_byte_count, 50);

    assert!(stats.get(AddressKey::V4(0x0A00_0003)).is_none());
}

#[test]
fn exact_second_gives_exact_rates() {
    let a = AddressKey::V4(0x0A00_0001);
    let mut stats = FlowStats::new();
    stats.record_transmit(a, 500, None, 0);
    stats.recompute_rates(1000);
    stats.record_transmit(a, 1000, None, 1500);
    stats.recompute_rates(2000);
    let sa = stats.get(a).unwrap();
    assert_eq!(sa.tx_bytes_per_sec, 1000);
    assert_eq!(sa.tx_current_bps, 8000);
}

#[test]
fn recompute_within_same_second_keeps_rates() {
    let a = AddressKey::V4(0x0A00_0001);
    let mut stats = FlowStats::new();
    stats.record_transmit(a, 500, None, 0);
    stats.recompute_rates(1000);
    stats.record_transmit(a, 1000, None, 1200);
    stats.recompute_rates(2000);
    let before_bps = stats.get(a).unwrap().tx_current_bps;
    let before_per_sec = stats.get(a).unwrap().tx_bytes_per_sec;
    // Less than a second later: everything stays as derived, nothing zeroes.
    stats.record_transmit(a, 4000, None, 2100);
    stats.recompute_rates(2500);
    let sa = stats.get(a).unwrap();
    assert_eq!(sa.tx_current_bps, before_bps);
    assert_eq!(sa.tx_bytes_per_sec, before_per_sec);
}

#[test]
fn sequence_regression_counts_as_retransmission() {
    let a = AddressKey::V4(0x0A00_0001);
    let mut stats = FlowStats::new();
    // Payload of 10 at sequence 1000 records the expectation 1011.
    stats.record_transmit(a, 60, Some(plain_tcp(4000, 80, 1000, 10)), 0);
    assert_eq!(stats.get(a).unwrap().expected_seq.get(4000), Some(1011));
    assert_eq!(stats.get(a).unwrap().retransmissions, 0);
    // A sequence below the expectation is flagged.
    stats.record_transmit(a, 60, Some(plain_tcp(4000, 80, 500, 0)), 0);
    assert_eq!(stats.get(a).unwrap().retransmissions, 1);
    // The bare segment did not advance the expectation.
    assert_eq!(stats.get(a).unwrap().expected_seq.get(4000), Some(1011));
    // A sequence at or above the expectation is not flagged.
    stats.record_transmit(a, 60, Some(plain_tcp(4000, 80, 1011, 0)), 0);
    assert_eq!(stats.get(a).unwrap().retransmissions, 1);
}

#[test]
fn syn_consumes_one_sequence_unit() {
    let a = AddressKey::V4(0x0A00_0001);
    let mut stats = FlowStats::new();
    let mut syn = plain_tcp(4000, 80, 7, 0);
    syn.syn = true;
    stats.record_transmit(a, 60, Some(syn), 0);
    assert_eq!(stats.get(a).unwrap().expected_seq.get(4000), Some(8));
}

#[test]
fn bare_segment_records_no_expectation() {
    let a = AddressKey::V4(0x0A00_0001);
    let mut stats = FlowStats::new();
    stats.record_transmit(a, 60, Some(plain_tcp(4000, 80, 1000, 0)), 0);
    assert_eq!(stats.get(a).unwrap().expected_seq.get(4000), None);
    assert_eq!(stats.get(a).unwrap().retransmissions, 0);
}

#[test]
fn expectation_wraps_in_sequence_space() {
    let a = AddressKey::V4(0x0A00_0001);
    let mut stats = FlowStats::new();
    stats.record_transmit(a, 60, Some(plain_tcp(4000, 80, 0xFFFF_FFFF, 5)), 0);
    // 0xFFFF_FFFF + 5 + 1 wraps to 5 in the 32-bit sequence space.
    assert_eq!(stats.get(a).unwrap().expected_seq.get(4000), Some(5));
}

#[test]
fn first_bare_ack_already_counts() {
    let a = AddressKey::V4(0x0A00_0001);
    let mut stats = FlowStats::new();
    let mut ack = plain_tcp(4000, 5000, 1, 0);
    ack.ack = true;
    stats.record_receive(a, 60, Some(ack), 0);
    assert_eq!(stats.get(a).unwrap().duplicate_acks, 1);
    stats.record_receive(a, 60, Some(ack), 0);
    assert_eq!(stats.get(a).unwrap().duplicate_acks, 2);
    // An ACK carrying payload is not bare and does not count.
    let mut data_ack = plain_tcp(4000, 5000, 1, 100);
    data_ack.ack = true;
    stats.record_receive(a, 160, Some(data_ack), 0);
    assert_eq!(stats.get(a).unwrap().duplicate_acks, 2);
}

#[test]
fn window_change_needs_a_differing_pair() {
    let a = AddressKey::V4(0x0A00_0001);
    let mut stats = FlowStats::new();
    let mut t = plain_tcp(4000, 80, 1, 0);
    t.window = 100;
    stats.record_transmit(a, 60, Some(t), 0);
    // The first observation is no change.
    assert_eq!(stats.get(a).unwrap().window_size_changes, 0);
    t.window = 200;
    stats.record_transmit(a, 60, Some(t), 0);
    assert_eq!(stats.get(a).unwrap().window_size_changes, 1);
    // An identical consecutive value does not count.
    stats.record_transmit(a, 60, Some(t), 0);
    assert_eq!(stats.get(a).unwrap().window_size_changes, 1);
    assert_eq!(stats.get(a).unwrap().last_window_size.get(4000), Some(200));
}

#[test]
fn window_tracking_is_per_port() {
    let a = AddressKey::V4(0x0A00_0001);
    let mut stats = FlowStats::new();
    let mut t1 = plain_tcp(4000, 80, 1, 0);
    t1.window = 100;
    let mut t2 = plain_tcp(4001, 80, 1, 0);
    t2.window = 999;
    stats.record_transmit(a, 60, Some(t1), 0);
    stats.record_transmit(a, 60, Some(t2), 0);
    // Different ports: neither observation had a prior value.
    assert_eq!(stats.get(a).unwrap().window_size_changes, 0);
}

#[test]
fn longer_stalls_smooth_the_bit_rate_only() {
    let a = AddressKey::V4(0x0A00_0001);
    let mut stats = FlowStats::new();
    stats.record_transmit(a, 1000, None, 0);
    // Two seconds instead of one: the bit rate is spread over the actual
    // elapsed time, the byte figure stays the flat per-interval delta.
    stats.recompute_rates(2000);
    let sa = stats.get(a).unwrap();
    assert_eq!(sa.tx_current_bps, 4000);
    assert_eq!(sa.tx_bytes_per_sec, 1000);
}

#[test]
fn rate_interval_is_per_address() {
    let a = AddressKey::V4(0x0A00_0001);
    let b = AddressKey::V4(0x0A00_0002);
    let mut stats = FlowStats::new();
    stats.record_transmit(a, 1000, None, 0);
    stats.record_transmit(b, 1000, None, 900);
    stats.recompute_rates(1000);
    // One full second for a, only 100 ms for b.
    assert_eq!(stats.get(a).unwrap().tx_bytes_per_sec, 1000);
    assert_eq!(stats.get(b).unwrap().tx_bytes_per_sec, 0);
}
