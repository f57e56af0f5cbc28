use net_tool::desktop::{convert_ip_in_segment, ip_to_u32 as loose_ip_to_u32};
use net_tool::ip::{
    convert_mapped_to_real, convert_real_to_mapped, ip_in_cidr, ip_to_u32, netmask_from_prefix, network_address,
    prefix_from_netmask, u32_to_ip, IpError,
};
use net_tool::allocation::{allocate_client_segment, allocate_operator_ip};
use net_tool::models::{AccessMode, NodeRole, NodeStatus, OsType, Protocol, SegmentStatus, SessionStatus};
use net_tool::packet::{recalculate_checksum, IpPacket, PacketError};
use net_tool::relay::auth_node_id;
use net_tool::tunnel::{frame_body_len, frame_from_body, Frame, FrameError, FrameType, MAX_PAYLOAD_LEN};

const ALL_TYPES: [FrameType; 6] = [
    FrameType::Auth,
    FrameType::AuthAck,
    FrameType::IpPacket,
    FrameType::Heartbeat,
    FrameType::RouteUpdate,
    FrameType::Disconnect,
];

#[test]
fn decode_gives_back_what_encode_wrote() {
    for t in ALL_TYPES {
        for len in [0usize, 1, 7, 300] {
            let payload: Vec<u8> = (0..len).map(|i| (i * 31 % 256) as u8).collect();
            let frame = Frame::new(t, payload);
            let mut buf = frame.encode();
            assert_eq!(buf.len(), 5 + len);
            assert_eq!(Frame::decode(&buf).unwrap(), frame);
            buf.extend_from_slice(&[9, 9, 9]);
            assert_eq!(Frame::decode(&buf).unwrap(), frame);
        }
    }
}

#[test]
fn frame_type_codes() {
    for t in ALL_TYPES {
        assert_eq!(FrameType::try_from(t.value()).unwrap(), t);
    }
    assert_eq!(FrameType::try_from(0xAB).unwrap_err(), "未知的帧类型: 0xAB");
}

#[test]
fn stream_frames() {
    assert_eq!(frame_body_len([0, 0, 0, 6]), Ok(6));
    assert_eq!(frame_body_len([0, 0, 0, 0]), Err(FrameError::ZeroLength));
    assert_eq!(frame_body_len([0, 1, 0, 0]), Ok(MAX_PAYLOAD_LEN));
    assert_eq!(frame_body_len([0, 1, 0, 1]), Err(FrameError::TooLong(65537)));
    let f = frame_from_body(&[0x03, 1, 2]).unwrap();
    assert_eq!(f, Frame::new(FrameType::IpPacket, vec![1, 2]));
    assert_eq!(frame_from_body(&[0x10]), Err(FrameError::UnknownType("未知的帧类型: 0x10".to_string())));
}

#[test]
fn authentication_reads_back_the_node_id() {
    for id in ["node-1", "  spaced  ", "节点-甲"] {
        assert_eq!(auth_node_id(&Frame::auth(id)).unwrap(), id.trim());
    }
}

fn header_sum_ok(pkt: &[u8]) -> bool {
    let header_len = ((pkt[0] & 0x0F) as usize) * 4;
    let mut sum: u32 = 0;
    for i in (0..header_len).step_by(2) {
        sum += ((pkt[i] as u32) << 8) | (pkt[i + 1] as u32);
    }
    while (sum >> 16) != 0 {
        sum = (sum & 0xFFFF) + (sum >> 16);
    }
    sum as u16 == 0xFFFF
}

#[test]
fn checksums_verify_after_recalculation() {
    for seed in 0u32..50 {
        let mut pkt: Vec<u8> = (0..28u32).map(|i| ((i * 7 + seed * 13) % 256) as u8).collect();
        pkt[0] = 0x45;
        recalculate_checksum(&mut pkt);
        assert!(header_sum_ok(&pkt));
    }
    let mut short = vec![0x45, 0, 0];
    recalculate_checksum(&mut short);
    assert_eq!(short, vec![0x45, 0, 0]);
}

#[test]
fn rewriting_keeps_the_packet_valid() {
    let mut pkt = vec![0x45, 0, 0, 20, 0, 0, 0, 0, 64, 17, 0, 0, 1, 2, 3, 4, 5, 6, 7, 8];
    recalculate_checksum(&mut pkt);
    net_tool::packet::rewrite_destination(&mut pkt, "9.9.9.9").unwrap();
    assert!(header_sum_ok(&pkt));
    let p = IpPacket::parse(&pkt).unwrap();
    assert_eq!(p.dst_addr, "9.9.9.9");
    assert_eq!(p.src_addr, "1.2.3.4");
    assert_eq!(p.protocol_name(), "UDP");
    assert_eq!(pkt.len(), 20);
    let mut short = vec![0x45; 10];
    assert_eq!(net_tool::packet::rewrite_source(&mut short, "1.1.1.1"), Err(PacketError::TooShort(10)));
    assert_eq!(net_tool::packet::rewrite_source(&mut pkt, "1.1.1"), Err(PacketError::InvalidAddress));
}

#[test]
fn address_text_roundtrip() {
    for x in [0u32, 1, 0x0A000001, 0xC0A80101, 0x7F000001, 0xFFFFFFFF, 0x01020304] {
        let t = u32_to_ip(x);
        assert_eq!(ip_to_u32(&t), Ok(x));
        assert_eq!(loose_ip_to_u32(&t), Some(x));
    }
    assert_eq!(ip_to_u32("01.2.3.4"), Err(IpError::InvalidAddress));
    assert_eq!(loose_ip_to_u32("01.2.3.4"), Some(0x01020304));
}

#[test]
fn netmasks_and_prefix_lengths() {
    for p in 0u8..=32 {
        let m = netmask_from_prefix(p);
        assert_eq!(prefix_from_netmask(m), Ok(p));
        assert_eq!(m.count_ones(), p as u32);
    }
    assert!(prefix_from_netmask(0xFF00FF00).is_err());
    assert_eq!(network_address(0xC0A80155, 28), 0xC0A80150);
}

#[test]
fn conversion_roundtrips() {
    let real = "10.1.2.0/24";
    let mapped = "100.64.7.0/24";
    for host in [0u32, 1, 100, 255] {
        let ip = format!("10.1.2.{host}");
        let m = convert_real_to_mapped(&ip, real, mapped).unwrap();
        assert_eq!(m, format!("100.64.7.{host}"));
        assert_eq!(convert_mapped_to_real(&m, real, mapped).unwrap(), ip);
        assert_eq!(ip_in_cidr(&m, mapped), Ok(true));
        let d = convert_ip_in_segment(&ip, real, mapped).unwrap();
        assert_eq!(d, m);
    }
}

#[test]
fn stored_names_read_back() {
    for x in [NodeRole::Server, NodeRole::Client, NodeRole::Operator] {
        assert_eq!(NodeRole::from_db_str(x.as_str()), x);
    }
    for x in [NodeStatus::Disconnected, NodeStatus::Connected, NodeStatus::Networking, NodeStatus::PartialError] {
        assert_eq!(NodeStatus::from_db_str(x.as_str()), x);
    }
    for x in [OsType::Windows, OsType::Linux, OsType::Android, OsType::Unknown] {
        assert_eq!(OsType::from_db_str(x.as_str()), x);
    }
    for x in [SegmentStatus::Pending, SegmentStatus::Active, SegmentStatus::Disabled, SegmentStatus::Error] {
        assert_eq!(SegmentStatus::from_db_str(x.as_str()), x);
    }
    for x in [AccessMode::Denied, AccessMode::AllowedSegments, AccessMode::AllowedAll] {
        assert_eq!(AccessMode::from_db_str(x.as_str()), x);
    }
    for x in [SessionStatus::Active, SessionStatus::Timeout, SessionStatus::Ended] {
        assert_eq!(SessionStatus::from_db_str(x.as_str()), x);
    }
    for x in [Protocol::Icmp, Protocol::Tcp, Protocol::Udp] {
        assert_eq!(Protocol::from_db_str(x.as_str()), x);
    }
}

#[test]
fn allocations_are_distinct() {
    let segs: Vec<String> = (1..=254).map(|i| allocate_client_segment(i).unwrap()).collect();
    let mut sorted = segs.clone();
    sorted.sort();
    sorted.dedup();
    assert_eq!(sorted.len(), 254);
    let ips: Vec<String> = (2..=254).map(|i| allocate_operator_ip(i).unwrap()).collect();
    let mut sorted = ips.clone();
    sorted.sort();
    sorted.dedup();
    assert_eq!(sorted.len(), 253);
    for s in &segs {
        assert!(net_tool::ip::parse_cidr(s).is_ok());
    }
}

#[test]
fn add_then_delete_restores_routes() {
    let mut rm = net_tool::route::RouteManager::new();
    rm.add_route("100.64.1.0/24", "nettool0", Ok(())).unwrap();
    rm.add_route("100.64.2.0/24", "nettool0", Ok(())).unwrap();
    let before = rm.pending_deletions();
    rm.add_route("100.64.3.0/24", "nettool0", Ok(())).unwrap();
    rm.delete_route("100.64.3.0/24", "nettool0", Ok(())).unwrap();
    assert_eq!(rm.pending_deletions(), before);
    assert_eq!(
        before,
        vec![
            ("100.64.2.0/24".to_string(), "nettool0".to_string()),
            ("100.64.1.0/24".to_string(), "nettool0".to_string())
        ]
    );
}
