use net_tool::connection::ConnectionStatus;
use net_tool::desktop::{
    connectivity_result, convert_ip, convert_ip_in_segment, extract_ping_stats, interface_infos, ip_in_cidr,
    ip_to_u32, ping_result, route_infos, tcp_result, DesktopConfig, Reachability, RouteInfo, RunMode, SessionState,
    TcpOutcome, APP_NAME,
};
use net_tool::models::RouteEntry;
use net_tool::scanner::{InterfaceType, NetworkInterface};
use net_tool::tunnel::TunnelRoute;
use net_tool::tunnel_client::TunnelStatus;

fn entry(real: &str, mapped: &str) -> RouteEntry {
    RouteEntry {
        mapped_cidr: mapped.to_string(),
        target_node_id: "node-1".to_string(),
        target_node_name: "office".to_string(),
        real_cidr: real.to_string(),
        segment_name: "办公网".to_string(),
    }
}

#[test]
fn loose_address_reading() {
    assert_eq!(ip_to_u32("192.168.1.1"), Some(0xC0A8_0101));
    assert_eq!(ip_to_u32("010.000.000.001"), Some(0x0A00_0001));
    assert_eq!(ip_to_u32("+10.0.0.1"), Some(0x0A00_0001));
    assert_eq!(ip_to_u32("256.0.0.1"), None);
    assert_eq!(ip_to_u32("1.2.3"), None);
    assert_eq!(ip_to_u32("1.2.3.4.5"), None);
    assert_eq!(ip_to_u32("1..3.4"), None);
    assert_eq!(ip_to_u32("a.b.c.d"), None);
}

#[test]
fn ip_in_cidr_errors() {
    assert_eq!(ip_in_cidr("1.2.3.4", "1.2.3.0"), Err("CIDR 格式错误: 1.2.3.0".to_string()));
    assert_eq!(ip_in_cidr("1.2.3.4", "1.2.3.0/24/8"), Err("CIDR 格式错误: 1.2.3.0/24/8".to_string()));
    assert_eq!(ip_in_cidr("1.2.3.4", "1.2.3/24"), Err("IP 格式错误: 1.2.3".to_string()));
    assert_eq!(
        ip_in_cidr("1.2.3.4", "1.2.3.0/x"),
        Err("前缀长度解析失败: invalid digit found in string".to_string())
    );
    assert_eq!(
        ip_in_cidr("1.2.3.4", "1.2.3.0/"),
        Err("前缀长度解析失败: cannot parse integer from empty string".to_string())
    );
    assert_eq!(ip_in_cidr("1.2.3", "1.2.3.0/24"), Err("IP 格式错误: 1.2.3".to_string()));
    assert_eq!(ip_in_cidr("10.1.2.3", "0.0.0.0/0"), Ok(true));
    assert_eq!(ip_in_cidr("10.1.2.3", "10.1.2.3/32"), Ok(true));
    assert_eq!(ip_in_cidr("10.1.2.4", "10.1.2.3/32"), Ok(false));
}

#[test]
fn convert_in_segment_edges() {
    assert_eq!(convert_ip_in_segment("192.168.1.7", "192.168.1.0/24", "100.64.1.0"), None);
    assert_eq!(convert_ip_in_segment("192.168.1.7", "192.168.1.0", "100.64.1.0/24"), None);
    assert_eq!(convert_ip_in_segment("bad", "192.168.1.0/24", "100.64.1.0/24"), None);
    assert_eq!(
        convert_ip_in_segment("10.20.30.40", "10.0.0.0/8", "100.64.0.0/whatever"),
        Some("100.84.30.40".to_string())
    );
    assert_eq!(
        convert_ip_in_segment("192.168.1.7", "192.168.1.0/32", "100.64.1.0/24"),
        Some("100.64.1.0".to_string())
    );
}

#[test]
fn convert_over_accessible_segments() {
    let segs = vec![entry("10.0.0.0/24", "100.64.9.0/24"), entry("192.168.1.0/24", "100.64.1.0/24")];
    let r = convert_ip("192.168.1.100", &segs);
    assert_eq!(r.input_ip, "192.168.1.100");
    assert_eq!(r.real_cidr.as_deref(), Some("192.168.1.0/24"));
    assert_eq!(r.mapped_cidr.as_deref(), Some("100.64.1.0/24"));
    assert_eq!(r.mapped_ip.as_deref(), Some("100.64.1.100"));
    assert_eq!(r.message, "192.168.1.100 (192.168.1.0/24) -> 100.64.1.100 (100.64.1.0/24)");

    let r = convert_ip("172.16.0.1", &segs);
    assert!(r.real_cidr.is_none() && r.mapped_cidr.is_none() && r.mapped_ip.is_none());
    assert_eq!(r.message, "IP 172.16.0.1 不在任何已知网段中，或当前无可访问网段");

    let r = convert_ip("192.168.1.1", &[]);
    assert_eq!(r.message, "IP 192.168.1.1 不在任何已知网段中，或当前无可访问网段");
}

#[test]
fn ping_summary_line() {
    let out = "PING 10.0.0.1 (10.0.0.1) 56(84) bytes of data.\n64 bytes from 10.0.0.1: icmp_seq=1 ttl=64 time=0.05 ms\n\n--- 10.0.0.1 ping statistics ---\n1 packets transmitted, 1 received, 0% packet loss, time 0ms\nrtt min/avg/max/mdev = 0.050/0.050/0.050/0.000 ms\n";
    assert_eq!(extract_ping_stats(out), "rtt min/avg/max/mdev = 0.050/0.050/0.050/0.000 ms");
    let out2 = "a\n4 packets transmitted, 4 received\nb\n";
    assert_eq!(extract_ping_stats(out2), "4 packets transmitted, 4 received");
    assert_eq!(extract_ping_stats("short output"), "short output");
    let long = "x".repeat(250);
    assert_eq!(extract_ping_stats(&long), format!("{}...", "x".repeat(200)));
    let exact = "y".repeat(200);
    assert_eq!(extract_ping_stats(&exact), exact);
}

#[test]
fn ping_results() {
    let ok = ping_result("10.0.0.1", 12, Ok((true, "1 packets transmitted, 1 received\n".to_string(), String::new())));
    assert!(ok.success);
    assert_eq!(ok.target, "10.0.0.1");
    assert_eq!(ok.elapsed_ms, 12);
    assert_eq!(ok.message, "1 packets transmitted, 1 received");

    let failed = ping_result("10.0.0.2", 3, Ok((false, String::new(), "unknown host".to_string())));
    assert!(!failed.success);
    assert_eq!(failed.message, "unknown host");

    let failed_out = ping_result("10.0.0.2", 3, Ok((false, "no answer".to_string(), "err".to_string())));
    assert_eq!(failed_out.message, "no answer");

    let not_run = ping_result("10.0.0.3", 0, Err("No such file or directory".to_string()));
    assert!(!not_run.success);
    assert_eq!(not_run.message, "执行 ping 命令失败: No such file or directory");
}

#[test]
fn tcp_results() {
    let r = tcp_result("10.0.0.1", 22, 15, TcpOutcome::Connected);
    assert!(r.success);
    assert_eq!(r.port, 22);
    assert_eq!(r.message, "成功连接 10.0.0.1:22（15ms）");
    let r = tcp_result("10.0.0.1", 23, 7, TcpOutcome::Failed("Connection refused".to_string()));
    assert!(!r.success);
    assert_eq!(r.message, "连接失败: Connection refused");
    let r = tcp_result("10.0.0.1", 80, 5000, TcpOutcome::TimedOut);
    assert!(!r.success);
    assert_eq!(r.elapsed_ms, 5000);
    assert_eq!(r.message, "连接超时（5秒）");
}

#[test]
fn connectivity_results() {
    let r = connectivity_result("example.org", 8443, 20, Reachability::Connected);
    assert!(r.success);
    assert_eq!(r.elapsed_ms, 20);
    assert_eq!(r.message, "成功连接 example.org:8443");
    let r = connectivity_result("example.org", 8443, 1, Reachability::Refused("refused".to_string()));
    assert_eq!(r.message, "连接 example.org:8443 失败: refused");
    let r = connectivity_result("example.org", 8443, 1, Reachability::NoAddress);
    assert_eq!(r.message, "无可用地址: example.org:8443");
    let r = connectivity_result("nowhere", 1, 1, Reachability::Unresolved("no such host".to_string()));
    assert!(!r.success);
    assert_eq!(r.message, "解析地址失败: nowhere:1 - no such host");
}

#[test]
fn session_lifecycle() {
    let mut s = SessionState::new();
    assert_eq!(s.mode, RunMode::Idle);
    assert!(s.tunnel_target().is_err());
    assert_eq!(s.tunnel_target().unwrap_err(), "未连接服务端，请先连接");

    s.connected_as_operator(
        "http://10.0.0.1:8443",
        "ops",
        "node-9".to_string(),
        "100.127.0.2".to_string(),
        vec![entry("192.168.1.0/24", "100.64.1.0/24")],
    );
    assert_eq!(s.mode, RunMode::Operator);
    let (id, addr, op) = s.tunnel_target().unwrap();
    assert_eq!(id, "node-9");
    assert_eq!(addr, "10.0.0.1:8444");
    assert!(op);

    s.tunnel_started(&None);
    assert_eq!(s.virtual_ip.as_deref(), Some("100.127.0.2"));
    s.tunnel_started(&Some("100.127.0.5".to_string()));
    assert_eq!(s.virtual_ip.as_deref(), Some("100.127.0.5"));

    let st = s.status(ConnectionStatus::Connected, TunnelStatus::Running);
    assert_eq!(st.mode, "operator");
    assert_eq!(st.connection_status, ConnectionStatus::Connected.as_str());
    assert_eq!(st.tunnel_status, "运行中");
    assert_eq!(st.node_id.as_deref(), Some("node-9"));
    assert_eq!(st.node_name.as_deref(), Some("ops"));
    assert_eq!(st.server_addr.as_deref(), Some("http://10.0.0.1:8443"));
    assert_eq!(st.accessible_segments_count, 1);
    assert_eq!(st.reported_segments_count, 0);

    s.clear();
    let st = s.status(ConnectionStatus::Disconnected, TunnelStatus::Disconnected);
    assert_eq!(st.mode, "idle");
    assert!(st.node_id.is_none() && st.virtual_ip.is_none() && st.server_addr.is_none());
    assert_eq!(st.accessible_segments_count, 0);

    s.connected_as_client("host:8443", "pc", "node-1".to_string(), None);
    assert_eq!(s.mode, RunMode::Client);
    assert_eq!(s.mode.as_str(), "client");
    let (_, addr, op) = s.tunnel_target().unwrap();
    assert_eq!(addr, "host:8444");
    assert!(!op);
}

#[test]
fn routes_for_the_front_end() {
    let r = TunnelRoute {
        mapped_cidr: "100.64.1.0/24".to_string(),
        target_node_id: "node-1".to_string(),
        target_node_name: "office".to_string(),
        real_cidr: "192.168.1.0/24".to_string(),
        segment_name: "办公网".to_string(),
    };
    let info = RouteInfo::from(&r);
    assert_eq!(info.mapped_cidr, "100.64.1.0/24");
    assert_eq!(info.real_cidr, "192.168.1.0/24");
    assert_eq!(info.segment_name, "办公网");
    let all = route_infos(&[r.clone(), r]);
    assert_eq!(all.len(), 2);
    assert_eq!(all[1].target_node_name, "office");
}

fn iface(name: &str, t: InterfaceType, ip: &str, cidr: &str) -> NetworkInterface {
    NetworkInterface {
        name: name.to_string(),
        iface_type: t,
        ip_address: ip.to_string(),
        cidr: cidr.to_string(),
        gateway: None,
        recommended: false,
    }
}

#[test]
fn interfaces_for_the_front_end() {
    let found = vec![
        iface("lo", InterfaceType::Loopback, "127.0.0.1", "127.0.0.0/8"),
        iface("eth0", InterfaceType::Physical, "192.168.1.5", "192.168.1.0/24"),
        iface("docker0", InterfaceType::Docker, "", ""),
        iface("wg0", InterfaceType::Vpn, "", "10.8.0.0/24"),
    ];
    let infos = interface_infos(found);
    assert_eq!(infos.len(), 2);
    assert_eq!(infos[0].name, "eth0");
    assert_eq!(infos[0].iface_type, "物理网卡");
    assert!(infos[0].recommended);
    assert_eq!(infos[1].name, "wg0");
    assert_eq!(infos[1].iface_type, "VPN");
    assert!(!infos[1].recommended);
}

#[test]
fn desktop_defaults() {
    let c = DesktopConfig::default();
    assert_eq!(c.mode, "");
    assert_eq!(c.server_addr, "127.0.0.1:8443");
    assert_eq!(c.node_name, "");
    assert_eq!(c.remark, "");
    assert!(c.auto_reconnect);
    assert_eq!(APP_NAME, "NetTool 组网工具");
}
