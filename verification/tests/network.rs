use net_tool::ip::{
    cidr_from_ip_mask, convert_mapped_to_real, convert_real_to_mapped, netmask_from_prefix, network_address,
    prefix_from_netmask,
};
use net_tool::nat_rules::{cidr_base, NatManager};
use net_tool::route::RouteManager;
use net_tool::tunnel::{Frame, FrameType};

#[test]
fn parse_and_mask() {
    assert_eq!(netmask_from_prefix(24), 0xFFFF_FF00);
    assert_eq!(prefix_from_netmask(0xFFFF_FF00).unwrap(), 24);
    assert_eq!(network_address(0xC0A8_0105, 24), 0xC0A8_0100);
}

#[test]
fn cidr_from_mask() {
    assert_eq!(cidr_from_ip_mask("192.168.1.5", "255.255.255.0").unwrap(), "192.168.1.0/24");
}

#[test]
fn convert_roundtrip() {
    let real = "192.168.1.0/24";
    let mapped = "100.64.1.0/24";
    let m = convert_real_to_mapped("192.168.1.5", real, mapped).unwrap();
    assert_eq!(m, "100.64.1.5");
    let r = convert_mapped_to_real("100.64.1.5", real, mapped).unwrap();
    assert_eq!(r, "192.168.1.5");
}

#[test]
fn nat_manager_new() {
    let nm = NatManager::new();
    assert!(nm.rules.is_empty());
}

#[test]
fn nat_manager_default() {
    let nm = NatManager::default();
    assert!(nm.rules.is_empty());
}

#[test]
fn nat_cleanup_empty() {
    let mut nm = NatManager::new();
    assert!(nm.cleanup(vec![]).is_ok());
}

#[test]
fn cidr_base_extraction() {
    assert_eq!(cidr_base("192.168.1.0/24"), "192.168.1.0");
    assert_eq!(cidr_base("10.0.0.1/8"), "10.0.0.1");
    assert_eq!(cidr_base("100.64.0.1"), "100.64.0.1");
}

#[test]
fn route_manager_new() {
    let rm = RouteManager::new();
    assert!(rm.added_routes.is_empty());
    assert!(rm.route_interfaces.is_empty());
}

#[test]
fn route_manager_default() {
    let rm = RouteManager::default();
    assert!(rm.added_routes.is_empty());
}

#[test]
fn route_cleanup_empty() {
    let mut rm = RouteManager::new();
    assert!(rm.cleanup(vec![]).is_ok());
}

#[test]
fn frame_type_roundtrip() {
    for v in 0x01..=0x06u8 {
        let ft = FrameType::try_from(v).unwrap();
        assert_eq!(ft.value(), v);
    }
    assert!(FrameType::try_from(0x00).is_err());
    assert!(FrameType::try_from(0x07).is_err());
}

#[test]
fn encode_decode_basic() {
    let frame = Frame::new(FrameType::IpPacket, vec![1, 2, 3, 4, 5]);
    let encoded = frame.encode();
    assert_eq!(encoded.len(), 10);
    assert_eq!(&encoded[0..4], &[0, 0, 0, 6]);
    assert_eq!(encoded[4], 0x03);

    let decoded = Frame::decode(&encoded).unwrap();
    assert_eq!(decoded, frame);
}

#[test]
fn encode_decode_empty_payload() {
    let frame = Frame::heartbeat();
    let encoded = frame.encode();
    assert_eq!(encoded.len(), 5);
    assert_eq!(&encoded[0..4], &[0, 0, 0, 1]);

    let decoded = Frame::decode(&encoded).unwrap();
    assert_eq!(decoded, frame);
}

#[test]
fn decode_incomplete() {
    assert!(Frame::decode(&[]).is_none());
    assert!(Frame::decode(&[0, 0, 0]).is_none());
    assert!(Frame::decode(&[0, 0, 0, 5, 0x03]).is_none());
}

#[test]
fn decode_invalid_type() {
    let buf = [0, 0, 0, 1, 0xFF];
    assert!(Frame::decode(&buf).is_none());
}

#[test]
fn auth_frame() {
    let frame = Frame::auth("node-123");
    assert_eq!(frame.frame_type, FrameType::Auth);
    assert_eq!(frame.payload, b"node-123");
}

#[test]
fn auth_ack_frame() {
    let frame = Frame::auth_ack(true, r#"[{"mapped_cidr":"100.64.1.0/24"}]"#);
    assert_eq!(frame.frame_type, FrameType::AuthAck);
    assert_eq!(frame.payload[0], 1);
    assert_eq!(&frame.payload[1..], br#"[{"mapped_cidr":"100.64.1.0/24"}]"#);
}

#[test]
fn ip_packet_frame() {
    let packet = [0x45, 0x00, 0x00, 0x14, 0, 0, 0, 0, 64, 6, 0, 0, 192, 168, 1, 1, 10, 0, 0, 1];
    let frame = Frame::ip_packet(&packet);
    assert_eq!(frame.frame_type, FrameType::IpPacket);
    assert_eq!(frame.payload, packet);
}

#[test]
fn heartbeat_frame() {
    let frame = Frame::heartbeat();
    assert_eq!(frame.frame_type, FrameType::Heartbeat);
    assert!(frame.payload.is_empty());
}

#[test]
fn route_update_frame() {
    let json = r#"{"routes":[]}"#;
    let frame = Frame::route_update(json);
    assert_eq!(frame.frame_type, FrameType::RouteUpdate);
    assert_eq!(frame.payload, json.as_bytes());
}

#[test]
fn disconnect_frame() {
    let frame = Frame::disconnect("bye");
    assert_eq!(frame.frame_type, FrameType::Disconnect);
    assert_eq!(frame.payload, b"bye");
}
