use subnet_monitor::engine::FlowStats;
use subnet_monitor::model::AddressKey;
use subnet_monitor::packet::DecodedPacket;
use subnet_monitor::render::{count_in_target, decimal_string, format_bps_short,
    format_bytes_short};

#[test]
fn rows_sort_by_descending_combined_bit_rate() {
    let slow = AddressKey::V4(0x0A00_0001);
    let fast = AddressKey::V4(0x0A00_0002);
    let external = AddressKey::V4(0x0808_0808);
    let target = vec![slow, fast];

    let mut stats = FlowStats::new();
    stats.record_transmit(slow, 100, None, 0);
    stats.record_transmit(fast, 90_000, None, 0);
    stats.record_receive(external, 5_000, None, 0);
    stats.recompute_rates(1000);

    let rows = stats.sorted_rows(&target);
    assert_eq!(rows.len(), 3);
    assert_eq!(rows[0].addr, fast);
    assert_eq!(rows[1].addr, external);
    assert_eq!(rows[2].addr, slow);
    assert!(rows[0].in_target);
    assert!(!rows[1].in_target);
    assert_eq!(rows[0].tx_bps, 720_000);
    assert_eq!(rows[2].tx_bytes_per_sec, 100);

    assert_eq!(count_in_target(&rows), 2);
}

#[test]
fn decimal_rendering_is_exact() {
    assert_eq!(decimal_string(0), "0");
    assert_eq!(decimal_string(7), "7");
    assert_eq!(decimal_string(10), "10");
    assert_eq!(decimal_string(12345), "12345");
    assert_eq!(decimal_string(18_446_744_073_709_551_615), "18446744073709551615");
}

#[test]
fn bytes_format_uses_binary_units() {
    assert_eq!(format_bytes_short(0), "0");
    assert_eq!(format_bytes_short(500), "500");
    assert_eq!(format_bytes_short(1023), "1023");
    assert_eq!(format_bytes_short(1024), "1.0K");
    assert_eq!(format_bytes_short(1536), "1.5K");
    assert_eq!(format_bytes_short(2043), "2.0K");
    assert_eq!(format_bytes_short(1_048_575), "1024.0K");
    assert_eq!(format_bytes_short(1_048_576), "1.0M");
    assert_eq!(format_bytes_short(1_572_864), "1.5M");
    assert_eq!(format_bytes_short(1_073_741_824), "1.0G");
    assert_eq!(format_bytes_short(5_368_709_120), "5.0G");
}

#[test]
fn bps_format_uses_decimal_units() {
    assert_eq!(format_bps_short(0), "0");
    assert_eq!(format_bps_short(999), "999");
    assert_eq!(format_bps_short(1000), "1.0K");
    assert_eq!(format_bps_short(1500), "1.5K");
    assert_eq!(format_bps_short(8000), "8.0K");
    assert_eq!(format_bps_short(2_500_000), "2.5M");
    assert_eq!(format_bps_short(1_000_000_000), "1.0G");
}

#[test]
fn packet_dispatch_updates_both_directions() {
    let src = AddressKey::V4(0x0A00_0001);
    let dst = AddressKey::V4(0x0A00_0002);
    let target = vec![src, dst];
    let mut stats = FlowStats::new();
    let pkt = DecodedPacket::V4 { src: 0x0A00_0001, dst: 0x0A00_0002, tcp: None };
    stats.apply_packet(&pkt, 100, &target, 0);
    assert_eq!(stats.get(src).unwrap().tx_byte_count, 100);
    assert_eq!(stats.get(dst).unwrap().rx_byte_count, 100);
}

#[test]
fn packet_dispatch_skips_addresses_outside_the_target_set() {
    let inside = AddressKey::V4(0x0A00_0001);
    let outside = AddressKey::V4(0x0808_0808);
    let target = vec![inside];
    let mut stats = FlowStats::new();
    let pkt = DecodedPacket::V4 { src: 0x0A00_0001, dst: 0x0808_0808, tcp: None };
    stats.apply_packet(&pkt, 100, &target, 0);
    assert_eq!(stats.get(inside).unwrap().tx_byte_count, 100);
    assert!(stats.get(outside).is_none());
}

#[test]
fn ipv6_traffic_is_recorded_as_transmit_without_a_target_check() {
    let target: Vec<AddressKey> = vec![];
    let mut stats = FlowStats::new();
    let pkt = DecodedPacket::V6 { src: 42, dst: 43 };
    stats.apply_packet(&pkt, 77, &target, 0);
    let st = stats.get(AddressKey::V6(42)).unwrap();
    assert_eq!(st.tx_packet_count, 1);
    assert_eq!(st.tx_byte_count, 77);
    assert!(stats.get(AddressKey::V6(43)).is_none());
}
