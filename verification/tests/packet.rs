use net_tool::packet::{recalculate_checksum, IpPacket};

fn make_test_packet() -> Vec<u8> {
    let mut pkt = vec![
        0x45, 0x00, 0x00, 0x1c, 0x00, 0x01, 0x00, 0x00, 0x40, 0x01, 0x00, 0x00, 192, 168, 1, 1, 10, 0, 0, 1,
        0x08, 0x00, 0x00, 0x00, 0x00, 0x01, 0x00, 0x00,
    ];
    recalculate_checksum(&mut pkt);
    pkt
}

#[test]
fn parse_valid_packet() {
    let pkt = make_test_packet();
    let parsed = IpPacket::parse(&pkt).unwrap();
    assert_eq!(parsed.version, 4);
    assert_eq!(parsed.protocol, 1);
    assert_eq!(parsed.protocol_name(), "ICMP");
    assert_eq!(parsed.src_addr, "192.168.1.1");
    assert_eq!(parsed.dst_addr, "10.0.0.1");
    assert_eq!(parsed.raw.len(), 28);
}

#[test]
fn parse_too_short() {
    assert!(IpPacket::parse(&[0x45, 0x00]).is_none());
}

#[test]
fn parse_wrong_version() {
    let mut pkt = make_test_packet();
    pkt[0] = 0x60;
    assert!(IpPacket::parse(&pkt).is_none());
}

#[test]
fn protocol_names() {
    let mut pkt = make_test_packet();

    pkt[9] = 1;
    assert_eq!(IpPacket::parse(&pkt).unwrap().protocol_name(), "ICMP");

    pkt[9] = 6;
    assert_eq!(IpPacket::parse(&pkt).unwrap().protocol_name(), "TCP");

    pkt[9] = 17;
    assert_eq!(IpPacket::parse(&pkt).unwrap().protocol_name(), "UDP");

    pkt[9] = 99;
    assert_eq!(IpPacket::parse(&pkt).unwrap().protocol_name(), "Unknown");
}

#[test]
fn rewrite_destination() {
    let mut pkt = make_test_packet();
    net_tool::packet::rewrite_destination(&mut pkt, "172.16.0.1").unwrap();

    let parsed = IpPacket::parse(&pkt).unwrap();
    assert_eq!(parsed.dst_addr, "172.16.0.1");
    assert_eq!(parsed.src_addr, "192.168.1.1");
}

#[test]
fn rewrite_source() {
    let mut pkt = make_test_packet();
    net_tool::packet::rewrite_source(&mut pkt, "100.64.0.1").unwrap();

    let parsed = IpPacket::parse(&pkt).unwrap();
    assert_eq!(parsed.src_addr, "100.64.0.1");
    assert_eq!(parsed.dst_addr, "10.0.0.1");
}

#[test]
fn rewrite_both() {
    let mut pkt = make_test_packet();
    net_tool::packet::rewrite_source(&mut pkt, "100.64.0.1").unwrap();
    net_tool::packet::rewrite_destination(&mut pkt, "192.168.100.1").unwrap();

    let parsed = IpPacket::parse(&pkt).unwrap();
    assert_eq!(parsed.src_addr, "100.64.0.1");
    assert_eq!(parsed.dst_addr, "192.168.100.1");
}

#[test]
fn checksum_valid_after_rewrite() {
    let mut pkt = make_test_packet();
    let original_checksum = u16::from_be_bytes([pkt[10], pkt[11]]);

    net_tool::packet::rewrite_destination(&mut pkt, "172.16.0.1").unwrap();
    let new_checksum = u16::from_be_bytes([pkt[10], pkt[11]]);
    assert_ne!(original_checksum, new_checksum);

    let ihl = (pkt[0] & 0x0F) as usize;
    let header_len = ihl * 4;
    let mut sum: u32 = 0;
    for i in (0..header_len).step_by(2) {
        let word = ((pkt[i] as u32) << 8) | (pkt[i + 1] as u32);
        sum = sum.wrapping_add(word);
    }
    while (sum >> 16) != 0 {
        sum = (sum & 0xFFFF) + (sum >> 16);
    }
    assert_eq!(sum as u16, 0xFFFF);
}

#[test]
fn rewrite_invalid_ip() {
    let mut pkt = make_test_packet();
    assert!(net_tool::packet::rewrite_destination(&mut pkt, "not-an-ip").is_err());
    assert!(net_tool::packet::rewrite_source(&mut pkt, "999.999.999.999").is_err());
}

#[test]
fn rewrite_too_short() {
    let mut pkt = vec![0x45, 0x00];
    assert!(net_tool::packet::rewrite_destination(&mut pkt, "10.0.0.1").is_err());
    assert!(net_tool::packet::rewrite_source(&mut pkt, "10.0.0.1").is_err());
}

#[test]
fn parse_with_options() {
    let mut pkt = vec![
        0x46, 0x00, 0x00, 0x18, 0x00, 0x00, 0x00, 0x00, 0x40, 0x06, 0x00, 0x00, 10, 0, 0, 1, 10, 0, 0, 2, 0x01, 0x01,
        0x01, 0x00,
    ];
    recalculate_checksum(&mut pkt);
    let parsed = IpPacket::parse(&pkt).unwrap();
    assert_eq!(parsed.version, 4);
    assert_eq!(parsed.protocol_name(), "TCP");
    assert_eq!(parsed.src_addr, "10.0.0.1");
    assert_eq!(parsed.dst_addr, "10.0.0.2");
}
