use net_tool::commands::{
    convert_ip, count_active, parse_client_command, parse_ip_port, parse_operator_command, parse_selection,
    ClientCommand, ConvertError, OperatorCommand, Selection, TunnelSub,
};
use net_tool::connection::{
    api_result, heartbeat_retry_delay, normalize_base_url, register_retry_delay, register_retry_step,
    ConnectionStatus,
};
use net_tool::diagnostic::{split_host_port, test_dns, test_tcp_connect, DiagItem};
use net_tool::models::{RouteEntry, SegmentStatus};
use net_tool::api::SegmentSummary;
use net_tool::tunnel::{FrameType, TunnelRoute};
use net_tool::tunnel_client::{
    ack_outcome, check_ack_frame, extract_first_ip, node_action, tun_address, NodeAction, TunnelStatus,
};

#[test]
fn base_urls() {
    assert_eq!(normalize_base_url("  http://h:1//  ").unwrap(), "http://h:1");
    assert_eq!(normalize_base_url("https://h").unwrap(), "https://h");
    assert_eq!(normalize_base_url("   ").unwrap_err(), "服务端地址为空");
    assert_eq!(normalize_base_url("///").unwrap_err(), "服务端地址为空");
}

#[test]
fn api_answers() {
    assert_eq!(api_result(0, "ok".to_string(), Some(5)).unwrap(), 5);
    assert_eq!(api_result::<i32>(0, "ok".to_string(), None).unwrap_err(), "响应缺少 data 字段");
    assert_eq!(api_result::<i32>(-1, "节点不存在".to_string(), Some(1)).unwrap_err(), "节点不存在");
    assert_eq!(api_result::<i32>(3, String::new(), None).unwrap_err(), "未知错误");
}

#[test]
fn retry_delays_are_bounded() {
    let reg: Vec<u64> = (0..8).map(register_retry_delay).collect();
    assert_eq!(reg, vec![1, 2, 4, 8, 16, 30, 30, 30]);
    let hb: Vec<u64> = (0..6).map(heartbeat_retry_delay).collect();
    assert_eq!(hb, vec![5, 10, 20, 40, 60, 60]);
    assert_eq!(register_retry_delay(u32::MAX), 30);
    assert_eq!(heartbeat_retry_delay(u32::MAX), 60);
    assert_eq!(register_retry_step(1, 3, "x").unwrap(), 2);
    assert_eq!(register_retry_step(3, 3, "timeout").unwrap_err(), "注册失败（已重试 3 次）: timeout");
    assert_eq!(ConnectionStatus::Reconnecting.as_str(), "重连中");
}

#[test]
fn diagnostic_items() {
    let d = test_tcp_connect("10.0.0.1", 8443, Ok(12), 30);
    assert!(d.ok);
    assert_eq!(d.name, "TCP 连接");
    assert_eq!(d.elapsed_ms, 12);
    assert_eq!(d.detail, "成功连接 10.0.0.1:8443");
    let d = test_tcp_connect("10.0.0.1", 8443, Err("refused".to_string()), 30);
    assert!(!d.ok);
    assert_eq!(d.elapsed_ms, 30);
    assert_eq!(d.detail, "连接 10.0.0.1:8443 失败: refused");

    let d = test_dns("example.org", Ok(vec!["1.2.3.4".to_string(), "5.6.7.8".to_string()]), 4);
    assert!(d.ok);
    assert_eq!(d.detail, "example.org -> 1.2.3.4, 5.6.7.8");
    let d = test_dns("example.org", Ok(vec![]), 4);
    assert!(!d.ok);
    assert_eq!(d.detail, "example.org 未解析到地址");
    let d = test_dns("example.org", Err("nx".to_string()), 4);
    assert_eq!(d.detail, "解析 example.org 失败: nx");

    let item = DiagItem::ok("x", "y".to_string(), 1).with_elapsed(9);
    assert!(item.ok && item.elapsed_ms == 9 && item.detail == "y");
    assert!(!DiagItem::fail("x", String::new(), 0).ok);
}

#[test]
fn host_and_port_of_server_addresses() {
    assert_eq!(split_host_port("10.0.0.1:9000"), ("10.0.0.1".to_string(), 9000));
    assert_eq!(split_host_port("http://example.org:8443/"), ("example.org".to_string(), 8443));
    assert_eq!(split_host_port("example.org"), ("example.org".to_string(), 8443));
}

fn route(mapped: &str) -> TunnelRoute {
    TunnelRoute {
        mapped_cidr: mapped.to_string(),
        target_node_id: "n".to_string(),
        target_node_name: "n".to_string(),
        real_cidr: "192.168.1.0/24".to_string(),
        segment_name: "s".to_string(),
    }
}

#[test]
fn tunnel_node_side() {
    assert_eq!(tun_address(true, Some("100.127.0.2".to_string()), &[]).unwrap(), "100.127.0.2");
    assert_eq!(tun_address(true, None, &[]).unwrap_err(), "实施端缺少虚拟 IP");
    assert_eq!(tun_address(false, None, &[]).unwrap_err(), "普通客户端没有可用的映射网段");
    assert_eq!(tun_address(false, None, &[route("100.64.3.0/24")]).unwrap(), "100.64.3.1");
    assert!(extract_first_ip("not a cidr").is_err());

    assert!(check_ack_frame(FrameType::AuthAck).is_ok());
    assert_eq!(check_ack_frame(FrameType::Heartbeat).unwrap_err(), format!("期望 AuthAck 帧，收到 {}", FrameType::Heartbeat.as_str()));
    assert!(ack_outcome(true, None).is_ok());
    assert_eq!(ack_outcome(false, None).unwrap_err(), "认证失败: 未知错误");
    assert_eq!(ack_outcome(false, Some("节点已禁用".to_string())).unwrap_err(), "认证失败: 节点已禁用");

    assert_eq!(node_action(FrameType::IpPacket), NodeAction::WriteToTun);
    assert_eq!(node_action(FrameType::RouteUpdate), NodeAction::UpdateRoutes);
    assert_eq!(node_action(FrameType::Heartbeat), NodeAction::Alive);
    assert_eq!(node_action(FrameType::Disconnect), NodeAction::Close);
    assert_eq!(node_action(FrameType::Auth), NodeAction::Ignore);
    assert!(TunnelStatus::Running.is_connected());
    assert!(TunnelStatus::Authenticated.is_connected());
    assert!(!TunnelStatus::Error("x".to_string()).is_connected());
}

#[test]
fn operator_commands() {
    assert_eq!(parse_operator_command(""), OperatorCommand::Empty);
    assert_eq!(parse_operator_command("ls"), OperatorCommand::List);
    assert_eq!(parse_operator_command("ping 10.0.0.1"), OperatorCommand::Ping("10.0.0.1".to_string()));
    assert_eq!(parse_operator_command("ping"), OperatorCommand::PingUsage);
    assert_eq!(parse_operator_command("tcp 10.0.0.1 22"), OperatorCommand::Tcp("10.0.0.1".to_string(), 22));
    assert_eq!(parse_operator_command("tcp 10.0.0.1 99999"), OperatorCommand::TcpUsage);
    assert_eq!(parse_operator_command("udp 10.0.0.1 53"), OperatorCommand::Udp("10.0.0.1".to_string(), 53));
    assert_eq!(parse_operator_command("conv 1.2.3.4"), OperatorCommand::Convert("1.2.3.4".to_string()));
    assert_eq!(parse_operator_command("convert"), OperatorCommand::ConvertUsage);
    assert_eq!(parse_operator_command("tunnel"), OperatorCommand::Tunnel(TunnelSub::Status));
    assert_eq!(parse_operator_command("tunnel reconnect"), OperatorCommand::Tunnel(TunnelSub::Reconnect));
    assert_eq!(parse_operator_command("tunnel bogus"), OperatorCommand::Tunnel(TunnelSub::Usage));
    assert_eq!(parse_operator_command("q"), OperatorCommand::Quit);
    assert_eq!(parse_operator_command("?"), OperatorCommand::Help);
    assert_eq!(parse_operator_command("frobnicate x"), OperatorCommand::Unknown("frobnicate".to_string()));
}

#[test]
fn client_commands() {
    assert_eq!(parse_client_command("add"), ClientCommand::Add);
    assert_eq!(parse_client_command("st"), ClientCommand::Status);
    assert_eq!(parse_client_command("tunnel start"), ClientCommand::Tunnel(TunnelSub::Start));
    assert_eq!(parse_client_command("tunnel"), ClientCommand::Tunnel(TunnelSub::Usage));
    assert_eq!(parse_client_command("tunnel reconnect"), ClientCommand::Tunnel(TunnelSub::Usage));
    assert_eq!(parse_client_command("exit"), ClientCommand::Quit);
    assert_eq!(parse_client_command("hello"), ClientCommand::Unknown("hello".to_string()));
}

#[test]
fn ip_and_port_arguments() {
    let args = vec!["10.0.0.1".to_string(), "443".to_string()];
    assert_eq!(parse_ip_port(&args), Some(("10.0.0.1".to_string(), 443)));
    let bad = vec!["10.0.0.1".to_string(), "x".to_string()];
    assert_eq!(parse_ip_port(&bad), None);
    assert_eq!(parse_ip_port(&args[..1]), None);
}

#[test]
fn interface_choices() {
    assert_eq!(parse_selection("1, 3", 3), vec![Selection::Pick(0), Selection::Pick(2)]);
    assert_eq!(parse_selection("0 4 2", 3), vec![Selection::OutOfRange(0), Selection::OutOfRange(4), Selection::Pick(1)]);
    assert_eq!(parse_selection("2,x,1", 3), vec![Selection::Pick(1), Selection::Invalid("x".to_string())]);
    assert_eq!(parse_selection("  ", 3), vec![]);
}

fn summary(status: SegmentStatus) -> SegmentSummary {
    SegmentSummary {
        id: "s".to_string(),
        name: "n".to_string(),
        real_cidr: "192.168.1.0/24".to_string(),
        mapped_cidr: None,
        status,
        remark: None,
    }
}

#[test]
fn active_segment_count() {
    let segs = vec![summary(SegmentStatus::Active), summary(SegmentStatus::Disabled), summary(SegmentStatus::Active)];
    assert_eq!(count_active(&segs), 2);
    assert_eq!(count_active(&[]), 0);
}

fn entry(real: &str, mapped: &str) -> RouteEntry {
    RouteEntry {
        mapped_cidr: mapped.to_string(),
        target_node_id: "n".to_string(),
        target_node_name: "n".to_string(),
        real_cidr: real.to_string(),
        segment_name: "s".to_string(),
    }
}

#[test]
fn operator_address_conversion() {
    let segs = vec![entry("192.168.1.0/24", "100.64.1.0/24")];
    assert_eq!(convert_ip("192.168.1.9", &segs).unwrap(), ("真实 -> 映射", "100.64.1.9".to_string()));
    assert_eq!(convert_ip("100.64.1.9", &segs).unwrap(), ("映射 -> 真实", "192.168.1.9".to_string()));
    assert_eq!(convert_ip("172.16.0.1", &segs).unwrap_err(), ConvertError::NoSegment);
    assert!(matches!(convert_ip("bogus", &segs), Err(ConvertError::Invalid(_))));
    assert!(!ConvertError::NoSegment.message("172.16.0.1").is_empty());
}
