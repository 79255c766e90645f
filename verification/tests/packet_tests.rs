use subnet_monitor::packet::{decode_frame, DecodedPacket};

fn ipv4_tcp_frame(
    src: [u8; 4],
    dst: [u8; 4],
    sport: u16,
    dport: u16,
    seq: u32,
    flags: u8,
    window: u16,
    payload: &[u8],
) -> Vec<u8> {
    let mut f = Vec::new();
    // Ethernet: destination and source MAC, then the IPv4 EtherType.
    f.extend_from_slice(&[0u8; 12]);
    f.extend_from_slice(&[0x08, 0x00]);
    // IPv4 header, no options.
    let total_len = (20 + 20 + payload.len()) as u16;
    f.push(0x45);
    f.push(0);
    f.extend_from_slice(&total_len.to_be_bytes());
    f.extend_from_slice(&[0, 0, 0, 0]); // identification, flags, fragment offset
    f.push(64); // time to live
    f.push(6); // protocol: TCP
    f.extend_from_slice(&[0, 0]); // checksum
    f.extend_from_slice(&src);
    f.extend_from_slice(&dst);
    // TCP header, no options.
    f.extend_from_slice(&sport.to_be_bytes());
    f.extend_from_slice(&dport.to_be_bytes());
    f.extend_from_slice(&seq.to_be_bytes());
    f.extend_from_slice(&[0, 0, 0, 0]); // acknowledgment number
    f.push(0x50); // data offset: 5 words
    f.push(flags);
    f.extend_from_slice(&window.to_be_bytes());
    f.extend_from_slice(&[0, 0, 0, 0]); // checksum, urgent pointer
    f.extend_from_slice(payload);
    f
}

#[test]
fn decodes_an_ipv4_tcp_frame() {
    let frame = ipv4_tcp_frame(
        [10, 0, 0, 1],
        [10, 0, 0, 2],
        443,
        51000,
        0x0102_0304,
        0x18, // PSH | ACK
        4096,
        b"hello",
    );
    match decode_frame(&frame) {
        Some(DecodedPacket::V4 { src, dst, tcp }) => {
            assert_eq!(src, 0x0A00_0001);
            assert_eq!(dst, 0x0A00_0002);
            let t = tcp.expect("a TCP header");
            assert_eq!(t.source_port, 443);
            assert_eq!(t.dest_port, 51000);
            assert_eq!(t.sequence, 0x0102_0304);
            assert!(t.ack);
            assert!(!t.syn);
            assert!(!t.fin);
            assert_eq!(t.window, 4096);
            assert_eq!(t.payload_len, 5);
        }
        other => panic!("unexpected decode: {:?}", other),
    }
}

#[test]
fn decodes_syn_and_fin_flags() {
    let frame = ipv4_tcp_frame([1, 2, 3, 4], [5, 6, 7, 8], 1, 2, 9, 0x03, 10, b"");
    match decode_frame(&frame) {
        Some(DecodedPacket::V4 { tcp: Some(t), .. }) => {
            assert!(t.syn);
            assert!(t.fin);
            assert!(!t.ack);
            assert_eq!(t.payload_len, 0);
        }
        other => panic!("unexpected decode: {:?}", other),
    }
}

#[test]
fn decodes_a_non_tcp_ipv4_frame_without_tcp_fields() {
    let mut frame = ipv4_tcp_frame([10, 0, 0, 1], [10, 0, 0, 2], 1, 2, 3, 0, 4, b"");
    frame[14 + 9] = 17; // protocol: UDP
    match decode_frame(&frame) {
        Some(DecodedPacket::V4 { src, dst, tcp }) => {
            assert_eq!(src, 0x0A00_0001);
            assert_eq!(dst, 0x0A00_0002);
            assert!(tcp.is_none());
        }
        other => panic!("unexpected decode: {:?}", other),
    }
}

#[test]
fn truncated_tcp_fails_the_whole_packet() {
    let frame = ipv4_tcp_frame([10, 0, 0, 1], [10, 0, 0, 2], 1, 2, 3, 0, 4, b"");
    // Keep the IPv4 header but only half the TCP header.
    let cut = &frame[..14 + 20 + 10];
    assert!(decode_frame(cut).is_none());
}

#[test]
fn options_shift_the_tcp_payload() {
    let mut frame = ipv4_tcp_frame([1, 1, 1, 1], [2, 2, 2, 2], 1, 2, 3, 0, 4, b"abcdefgh");
    // Announce one word of TCP options; two bytes of payload become options.
    frame[14 + 20 + 12] = 0x60;
    let total = frame.len() as u16;
    frame[14 + 2..14 + 4].copy_from_slice(&total.to_be_bytes());
    match decode_frame(&frame) {
        Some(DecodedPacket::V4 { tcp: Some(t), .. }) => {
            assert_eq!(t.payload_len, 4); // 8 payload bytes minus 4 option bytes
        }
        other => panic!("unexpected decode: {:?}", other),
    }
}

#[test]
fn decodes_an_ipv6_frame() {
    let mut f: Vec<u8> = Vec::new();
    f.extend_from_slice(&[0u8; 12]);
    f.extend_from_slice(&[0x86, 0xDD]);
    f.push(0x60); // version
    f.extend_from_slice(&[0, 0, 0]); // traffic class, flow label
    f.extend_from_slice(&[0, 0]); // payload length
    f.push(59); // next header: none
    f.push(64); // hop limit
    let src: u128 = 0x2001_0db8_0000_0000_0000_0000_0000_0001;
    let dst: u128 = 0x2001_0db8_0000_0000_0000_0000_0000_0002;
    f.extend_from_slice(&src.to_be_bytes());
    f.extend_from_slice(&dst.to_be_bytes());
    match decode_frame(&f) {
        Some(DecodedPacket::V6 { src: s, dst: d }) => {
            assert_eq!(s, src);
            assert_eq!(d, dst);
        }
        other => panic!("unexpected decode: {:?}", other),
    }
}

#[test]
fn unknown_ethertype_is_not_decoded() {
    let mut f = vec![0u8; 60];
    f[12] = 0x08;
    f[13] = 0x06; // ARP
    assert!(decode_frame(&f).is_none());
}

#[test]
fn short_frames_are_not_decoded() {
    assert!(decode_frame(&[]).is_none());
    assert!(decode_frame(&[0u8; 13]).is_none());
    let mut f = vec![0u8; 20];
    f[12] = 0x08;
    f[13] = 0x00; // IPv4 EtherType but a truncated header
    assert!(decode_frame(&f).is_none());
}
