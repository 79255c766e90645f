use subnet_monitor::subnet::subnet_hosts;

#[test]
fn slash_24_gives_the_254_usable_hosts() {
    let hosts = subnet_hosts(0x0A00_0000, 24);
    assert_eq!(hosts.len(), 254);
    assert_eq!(hosts[0], 0x0A00_0001);
    assert_eq!(hosts[253], 0x0A00_00FE);
    // The network and broadcast addresses are excluded.
    assert!(!hosts.contains(&0x0A00_0000));
    assert!(!hosts.contains(&0x0A00_00FF));
}

#[test]
fn slash_24_from_a_host_address() {
    // The interface address need not be the network address.
    let hosts = subnet_hosts(0x0A00_0042, 24);
    assert_eq!(hosts.len(), 254);
    assert_eq!(hosts[0], 0x0A00_0001);
    assert_eq!(hosts[253], 0x0A00_00FE);
}

#[test]
fn slash_30_gives_its_two_usable_hosts() {
    let hosts = subnet_hosts(0x0A00_0000, 30);
    assert_eq!(hosts, vec![0x0A00_0001, 0x0A00_0002]);
}

#[test]
fn slash_31_and_32_give_no_hosts() {
    assert_eq!(subnet_hosts(0x0A00_0000, 31).len(), 0);
    assert_eq!(subnet_hosts(0x0A00_0000, 32).len(), 0);
    assert_eq!(subnet_hosts(0xFFFF_FFFF, 32).len(), 0);
}

#[test]
fn slash_16_spans_the_whole_second_octet() {
    let hosts = subnet_hosts(0xC0A8_1234, 16);
    assert_eq!(hosts.len(), 65534);
    assert_eq!(hosts[0], 0xC0A8_0001);
    assert_eq!(hosts[65533], 0xC0A8_FFFE);
}
