use subnet_monitor::engine::FlowStats;
use subnet_monitor::metrics::export_delta;
use subnet_monitor::model::AddressKey;

#[test]
fn totals_cover_exactly_the_target_set() {
    let a = AddressKey::V4(0x0A00_0001);
    let b = AddressKey::V4(0x0A00_0002);
    let external = AddressKey::V4(0x0808_0808);
    let target = vec![a, b];

    let mut stats = FlowStats::new();
    stats.record_transmit(a, 1000, None, 0);
    stats.record_receive(a, 10, None, 0);
    stats.record_transmit(b, 200, None, 0);
    // The external address dominates the traffic but must not be counted.
    stats.record_transmit(external, 1_000_000, None, 0);
    stats.record_receive(external, 2_000_000, None, 0);

    let t = stats.totals(&target);
    assert_eq!(t.tx_bytes, 1200);
    assert_eq!(t.rx_bytes, 10);
}

#[test]
fn totals_sum_derived_rates_over_the_target_set() {
    let a = AddressKey::V4(0x0A00_0001);
    let b = AddressKey::V4(0x0A00_0002);
    let target = vec![a, b];

    let mut stats = FlowStats::new();
    stats.record_transmit(a, 1000, None, 0);
    stats.record_transmit(b, 500, None, 0);
    stats.recompute_rates(1000);
    let t = stats.totals(&target);
    assert_eq!(t.tx_bytes_per_sec, 1500);
    assert_eq!(t.tx_bps, 12000);
    assert_eq!(t.rx_bytes_per_sec, 0);
}

#[test]
fn totals_of_an_empty_engine_are_zero() {
    let stats = FlowStats::new();
    let t = stats.totals(&vec![AddressKey::V4(1)]);
    assert_eq!(t.tx_bytes, 0);
    assert_eq!(t.rx_bytes, 0);
    assert_eq!(t.tx_bps, 0);
}

#[test]
fn export_delta_is_the_positive_difference() {
    assert_eq!(export_delta(0, 100), 100);
    assert_eq!(export_delta(40, 100), 60);
    assert_eq!(export_delta(100, 100), 0);
    // A current value below the exported one must never decrease the counter.
    assert_eq!(export_delta(100, 40), 0);
}
