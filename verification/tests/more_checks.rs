use net_tool::commands::{convert_ip, ConvertError};
use net_tool::allocation::{client_segment_step, operator_ip_step};
use net_tool::client_config::default_node_name;
use net_tool::common_config::ClientConfig;
use net_tool::connection::ConnectionStatus;
use net_tool::desktop::{cidr_prefix_in_range, conversion_in_range, ping_output_cuttable};
use net_tool::diagnostic::{diagnostic_report, DiagItem};
use net_tool::models::{NodeRole, RouteEntry};
use net_tool::relay::node_id_from_text;
use net_tool::tunnel::{frame_body_len, frame_from_body, Frame, FrameError};
use net_tool::tunnel_client::first_ip_would_overflow;

#[test]
fn frame_error_messages() {
    let zero = frame_body_len([0, 0, 0, 0]).unwrap_err();
    assert!(matches!(zero, FrameError::ZeroLength));
    assert_eq!(zero.message(), "帧长度为 0（无效）");
    let long = frame_body_len([0, 1, 0, 1]).unwrap_err();
    assert!(matches!(long, FrameError::TooLong(65537)));
    assert_eq!(long.message(), "帧长度过大: 65537（最大 65536）");
    assert_eq!(frame_body_len([0, 0, 0, 5]).ok(), Some(5));
    let unknown = frame_from_body(&[9, 1, 2]).err().unwrap();
    assert!(matches!(unknown, FrameError::UnknownType(_)));
    assert!(unknown.message().starts_with("无效的帧类型: "));
}

#[test]
fn exported_diagnostic_report() {
    let cfg = ClientConfig {
        server_addr: "1.2.3.4:8443".to_string(),
        node_name: "n1".to_string(),
        role: NodeRole::Client,
        remark: None,
        auto_reconnect: true,
        auto_start: false,
        log_level: "info".to_string(),
    };
    let items = vec![
        DiagItem { name: "DNS".to_string(), ok: true, detail: "ok".to_string(), elapsed_ms: 5 },
        DiagItem { name: "TCP".to_string(), ok: false, detail: "refused".to_string(), elapsed_ms: 1200 },
    ];
    let text = diagnostic_report(
        "T",
        "0.1.0",
        "linux",
        &cfg,
        &ConnectionStatus::Connected,
        Some((Some("id1".to_string()), None)),
        &items,
    );
    let expected = "==== net-tool 诊断信息 ====\n导出时间   : T\n软件版本   : 0.1.0\n操作系统   : linux\n\
当前角色   : 客户端\n服务端地址 : 1.2.3.4:8443\n节点名称   : n1\n连接状态   : 已连接\n\
节点 ID    : id1\n虚拟 IP    : -\n\n---- 配置 ----\n自动重连   : true\n开机自启   : false\n\
日志级别   : info\n\n---- 连通性诊断 ----\n[OK] DNS (5 ms) - ok\n[FAIL] TCP (1200 ms) - refused\n";
    assert_eq!(text, expected);
    let unconnected = diagnostic_report("T", "0.1.0", "linux", &cfg, &ConnectionStatus::Disconnected, None, &[]);
    assert!(unconnected.contains("连接状态   : 已断开\n\n---- 配置 ----"));
    assert!(unconnected.ends_with("---- 连通性诊断 ----\n"));
}

#[test]
fn first_address_overflow_guard() {
    assert!(first_ip_would_overflow("10.0.0.255/24"));
    assert!(!first_ip_would_overflow("10.0.0.254/24"));
    assert!(!first_ip_would_overflow("10.0.0.0/24"));
    assert!(!first_ip_would_overflow("10.0.0.256/24"));
    assert!(!first_ip_would_overflow("bad"));
}

fn entry(real: &str, mapped: &str) -> RouteEntry {
    RouteEntry {
        mapped_cidr: mapped.to_string(),
        target_node_id: "n".to_string(),
        target_node_name: "node".to_string(),
        real_cidr: real.to_string(),
        segment_name: "seg".to_string(),
    }
}

#[test]
fn prefix_range_checks() {
    assert!(cidr_prefix_in_range("10.0.0.0/32"));
    assert!(!cidr_prefix_in_range("10.0.0.0/33"));
    assert!(cidr_prefix_in_range("10.0.0/99"));
    assert!(cidr_prefix_in_range("10.0.0.0/abc"));
    assert!(cidr_prefix_in_range("10.0.0.0"));
    let segs = vec![entry("192.168.1.0/24", "100.64.1.0/24"), entry("10.0.0.0/40", "100.64.2.0/24")];
    assert!(conversion_in_range("192.168.1.5", &segs));
    assert!(!conversion_in_range("10.0.0.1", &segs));
    assert!(conversion_in_range("10.0.0.1", &segs[..1]));
    assert!(conversion_in_range("10.0.0.1", &[]));
}

#[test]
fn ping_output_cut_checks() {
    assert!(ping_output_cuttable("short output"));
    let mut cut_inside = "a".repeat(199);
    cut_inside.push('é');
    cut_inside.push_str("tail");
    assert!(!ping_output_cuttable(&cut_inside));
    let mut with_stats = cut_inside.clone();
    with_stats.push_str("\n4 packets transmitted, 4 received");
    assert!(ping_output_cuttable(&with_stats));
    let plain = "b".repeat(300);
    assert!(ping_output_cuttable(&plain));
}

#[test]
fn conversion_error_messages() {
    let ok = vec![entry("192.168.1.0/24", "100.64.1.0/24")];
    assert_eq!(
        convert_ip("bogus", &ok).unwrap_err(),
        ConvertError::Invalid("无效的 IPv4 地址: bogus".to_string())
    );
    let cases = [
        ("10.0.0.0", "无效的 CIDR（缺少 /）: 10.0.0.0"),
        ("10.0.0/24", "无效的 IPv4 地址: 10.0.0"),
        ("10.0.0.0/x", "无效的前缀长度: x"),
        ("10.0.0.0/300", "无效的前缀长度: 300"),
        ("10.0.0.0/33", "前缀长度不能大于 32: 33"),
    ];
    for (real, msg) in cases {
        let segs = vec![entry(real, "100.64.1.0/24")];
        let err = convert_ip("10.0.0.1", &segs).unwrap_err();
        assert_eq!(err.message("10.0.0.1"), msg);
    }
    let mismatch = vec![entry("192.168.1.0/24", "100.64.0.0/16")];
    assert_eq!(
        convert_ip("192.168.1.5", &mismatch).unwrap_err().message("192.168.1.5"),
        "前缀长度不匹配: 真实 24 vs 映射 16"
    );
    assert_eq!(
        convert_ip("172.16.0.1", &ok).unwrap_err().message("172.16.0.1"),
        "IP 172.16.0.1 不属于任何已知可访问网段"
    );
}

#[test]
fn nameless_nodes_get_a_uuid_name() {
    let name = default_node_name("0123abcd-ef01-4345-8789-abcdef012345");
    assert_eq!(name, "node-0123abcd");
}

#[test]
fn authentication_text_names_the_node() {
    assert_eq!(node_id_from_text("  node-1 \n"), Ok("node-1".to_string()));
    assert_eq!(node_id_from_text(" \t "), Err("node_id 为空".to_string()));
    assert_eq!(node_id_from_text(""), Err("node_id 为空".to_string()));
}

#[test]
fn segments_parse_to_network_addresses() {
    assert_eq!(net_tool::ip::parse_cidr("10.0.0.1/8"), Ok((0x0A00_0000, 8)));
    assert_eq!(net_tool::ip::parse_cidr("192.168.1.5/24"), Ok((0xC0A8_0100, 24)));
    assert_eq!(net_tool::ip::parse_cidr("192.168.1.0/24"), Ok((0xC0A8_0100, 24)));
    assert_eq!(net_tool::ip::parse_cidr("1.2.3.4/0"), Ok((0, 0)));
    assert_eq!(net_tool::ip::parse_cidr("1.2.3.4/32"), Ok((0x0102_0304, 32)));
    assert_eq!(net_tool::ip::ip_in_cidr("192.168.1.77", "192.168.1.5/24"), Ok(true));
    assert_eq!(
        net_tool::ip::convert_mapped_to_real("100.64.1.9", "192.168.1.5/24", "100.64.1.0/24"),
        Ok("192.168.1.9".to_string())
    );
    assert_eq!(
        net_tool::ip::convert_real_to_mapped("192.168.1.9", "192.168.1.0/24", "100.64.1.77/24"),
        Ok("100.64.1.9".to_string())
    );
}

#[test]
fn pool_counters_step_and_exhaust() {
    let mut counter = 1i64;
    let mut handed = Vec::new();
    for k in 1..=254 {
        let (r, next) = client_segment_step(counter);
        assert_eq!(r, Ok(format!("100.64.{k}.0/24")));
        assert_eq!(next, k + 1);
        handed.push(r.unwrap());
        counter = next;
    }
    for _ in 0..3 {
        let (r, next) = client_segment_step(counter);
        assert_eq!(r, Err("客户映射网段已耗尽（最大 254）".to_string()));
        assert_eq!(next, 255);
        counter = next;
    }
    let mut sorted = handed.clone();
    sorted.sort();
    sorted.dedup();
    assert_eq!(sorted.len(), 254);
    assert_eq!(operator_ip_step(2), (Ok("100.127.0.2".to_string()), 3));
    assert_eq!(operator_ip_step(254), (Ok("100.127.0.254".to_string()), 255));
    assert_eq!(operator_ip_step(255), (Err("实施端 IP 已耗尽（最大 254）".to_string()), 255));
}

#[test]
fn stream_reads_frames_in_order_and_refuses_bad_prefixes() {
    let frames = vec![
        Frame::auth("node-1"),
        Frame::ip_packet(&vec![7u8; 65535]),
        Frame::heartbeat(),
        Frame::route_update("[]"),
    ];
    let mut stream = Vec::new();
    for f in &frames {
        stream.extend(f.encode());
    }
    let mut at = 0;
    let mut read = Vec::new();
    while at < stream.len() {
        let prefix = [stream[at], stream[at + 1], stream[at + 2], stream[at + 3]];
        let n = frame_body_len(prefix).unwrap();
        read.push(frame_from_body(&stream[at + 4..at + 4 + n]).unwrap());
        at += 4 + n;
    }
    assert_eq!(read, frames);
    assert_eq!(frame_body_len([0, 1, 0, 0]).ok(), Some(65536));
    assert!(matches!(frame_body_len([0, 0, 0, 0]), Err(FrameError::ZeroLength)));
    assert!(matches!(frame_body_len([0, 1, 0, 1]), Err(FrameError::TooLong(65537))));
}
