use net_tool::allocation::{allocate_client_segment, allocate_operator_ip, generate_access_example, validate_cidr_24};
use net_tool::ip::parse_cidr;
use net_tool::models::{AccessMode, NodeRole, NodeStatus, OsType, Protocol, SegmentStatus, SessionStatus};
use net_tool::policy::{access_plan, routes_for_node, select_routes, ActiveSegment, RouteFilter, StoredPolicy};
use net_tool::records::{mapping_info, node_info, policy_info, segment_info, session_info};
use net_tool::relay::{auth_admit, auth_node_id, relay_action, RelayAction, RouteTable};
use net_tool::server_config::{config_candidates, EnvOverrides, ServerConfig};
use net_tool::tunnel::{Frame, FrameType};

#[test]
fn client_segments_count_up() {
    assert_eq!(allocate_client_segment(1).unwrap(), "100.64.1.0/24");
    assert_eq!(allocate_client_segment(2).unwrap(), "100.64.2.0/24");
    assert_eq!(allocate_client_segment(254).unwrap(), "100.64.254.0/24");
    assert_eq!(allocate_client_segment(255).unwrap_err(), "客户映射网段已耗尽（最大 254）");
    let (net, p) = parse_cidr(&allocate_client_segment(7).unwrap()).unwrap();
    assert_eq!(net, 0x6440_0700);
    assert_eq!(p, 24);
}

#[test]
fn operator_addresses_count_up() {
    assert_eq!(allocate_operator_ip(2).unwrap(), "100.127.0.2");
    assert_eq!(allocate_operator_ip(3).unwrap(), "100.127.0.3");
    assert_eq!(allocate_operator_ip(255).unwrap_err(), "实施端 IP 已耗尽（最大 254）");
}

#[test]
fn reported_segments_must_be_24() {
    assert!(validate_cidr_24("192.168.1.0/24"));
    assert!(validate_cidr_24("+10.0.0.0/24"));
    assert!(!validate_cidr_24("192.168.1.0/16"));
    assert!(!validate_cidr_24("192.168.1/24"));
    assert!(!validate_cidr_24("192.168.1.256/24"));
    assert!(!validate_cidr_24("/24"));
}

#[test]
fn access_examples() {
    assert_eq!(generate_access_example("192.168.1.0/24", "100.64.1.0/24"), "192.168.1.10 -> 100.64.1.10");
    assert_eq!(generate_access_example("bad", "100.64.1.0/24"), "bad -> 100.64.1.0/24");
}

fn active(id: &str, mapped: &str) -> ActiveSegment {
    ActiveSegment {
        id: id.to_string(),
        name: format!("seg-{id}"),
        mapped_cidr: mapped.to_string(),
        node_id: "node-1".to_string(),
        real_cidr: "192.168.1.0/24".to_string(),
        node_name: "office".to_string(),
    }
}

#[test]
fn routes_per_role_and_policy() {
    let rows = vec![active("a", "100.64.1.0/24"), active("b", "100.64.2.0/24")];

    let (mode, routes) = routes_for_node(NodeRole::Operator, None, &rows);
    assert_eq!(mode, AccessMode::AllowedAll);
    assert_eq!(routes.len(), 2);

    let (mode, routes) = routes_for_node(NodeRole::Client, None, &rows);
    assert_eq!(mode, AccessMode::Denied);
    assert!(routes.is_empty());

    let (_, routes) = routes_for_node(NodeRole::Server, None, &rows);
    assert!(routes.is_empty());

    let only_b = StoredPolicy {
        access_mode: "allowed_segments".to_string(),
        allowed_segments: r#"["b"]"#.to_string(),
    };
    let (mode, routes) = routes_for_node(NodeRole::Client, Some(only_b), &rows);
    assert_eq!(mode, AccessMode::AllowedSegments);
    assert_eq!(routes.len(), 1);
    assert_eq!(routes[0].mapped_cidr, "100.64.2.0/24");
    assert_eq!(routes[0].segment_name, "seg-b");
    assert_eq!(routes[0].target_node_name, "office");

    let broken = StoredPolicy { access_mode: "allowed_segments".to_string(), allowed_segments: "not json".to_string() };
    let (_, routes) = routes_for_node(NodeRole::Client, Some(broken), &rows);
    assert!(routes.is_empty());

    let all = StoredPolicy { access_mode: "allowed_all".to_string(), allowed_segments: "[]".to_string() };
    let (mode, filter) = access_plan(NodeRole::Client, Some(all));
    assert_eq!(mode, AccessMode::AllowedAll);
    assert_eq!(select_routes(&rows, &filter).len(), 2);
    assert_eq!(select_routes(&rows, &RouteFilter::Nothing).len(), 0);
}

#[test]
fn node_records() {
    let n = node_info(
        "id-1".to_string(),
        "pc".to_string(),
        "operator",
        "networking",
        "windows",
        Some("100.127.0.2".to_string()),
        3,
        None,
        "2024-01-01".to_string(),
        String::new(),
        0,
    );
    assert_eq!(n.role, NodeRole::Operator);
    assert_eq!(n.status, NodeStatus::Networking);
    assert_eq!(n.os_type, OsType::Windows);
    assert!(!n.enabled);
    assert_eq!(n.reported_segments_count, 3);
    let n = node_info(
        "id-2".to_string(),
        "pc".to_string(),
        "nonsense",
        "nonsense",
        "nonsense",
        None,
        0,
        Some("t".to_string()),
        "t".to_string(),
        "r".to_string(),
        2,
    );
    assert_eq!(n.role, NodeRole::Client);
    assert_eq!(n.status, NodeStatus::Disconnected);
    assert_eq!(n.os_type, OsType::Linux);
    assert!(n.enabled);
}

#[test]
fn segment_session_and_mapping_records() {
    let s = segment_info(
        "s1".to_string(),
        "n1".to_string(),
        "office".to_string(),
        "192.168.1.0/24".to_string(),
        "100.64.1.0/24".to_string(),
        "disabled",
        String::new(),
        "c".to_string(),
        "u".to_string(),
    );
    assert_eq!(s.status, SegmentStatus::Disabled);
    assert_eq!(s.mapped_cidr, "100.64.1.0/24");

    let c = session_info(
        "x".to_string(),
        "n1".to_string(),
        "s1".to_string(),
        "udp",
        "192.168.1.5".to_string(),
        "n2".to_string(),
        "t0".to_string(),
        "t1".to_string(),
        "ended",
    );
    assert_eq!(c.protocol, Protocol::Udp);
    assert_eq!(c.status, SessionStatus::Ended);

    let m = mapping_info(
        "s1".to_string(),
        "n1".to_string(),
        "office-pc".to_string(),
        "office".to_string(),
        "192.168.1.0/24".to_string(),
        "100.64.1.0/24".to_string(),
        "active",
    );
    assert_eq!(m.access_example, "192.168.1.10 -> 100.64.1.10");
    assert_eq!(m.status, SegmentStatus::Active);
    assert_eq!(m.node_name, "office-pc");
}

#[test]
fn policy_records_read_the_json_list() {
    let p = policy_info(
        "p1".to_string(),
        "n1".to_string(),
        "allowed_segments",
        r#"["s1","s2"]"#,
        "c".to_string(),
        "u".to_string(),
    );
    assert_eq!(p.access_mode, AccessMode::AllowedSegments);
    assert_eq!(p.allowed_segments, vec!["s1".to_string(), "s2".to_string()]);
    let p = policy_info("p2".to_string(), "n1".to_string(), "denied", "{oops", "c".to_string(), "u".to_string());
    assert_eq!(p.access_mode, AccessMode::Denied);
    assert!(p.allowed_segments.is_empty());
}

#[test]
fn tunnel_authentication() {
    assert_eq!(auth_node_id(&Frame::auth("  node-7 \n")).unwrap(), "node-7");
    assert_eq!(auth_node_id(&Frame::auth("   ")).unwrap_err(), "node_id 为空");
    let e = auth_node_id(&Frame::heartbeat()).unwrap_err();
    assert_eq!(e, format!("期望认证帧，收到 {}", FrameType::Heartbeat.as_str()));
    let lossy = Frame::new(FrameType::Auth, vec![b'n', 0xFF, b'1']);
    assert_eq!(auth_node_id(&lossy).unwrap(), "n\u{FFFD}1");

    assert!(auth_admit("node-7", Some(1)).is_ok());
    assert_eq!(auth_admit("node-7", Some(0)).unwrap_err(), "节点已禁用");
    assert_eq!(auth_admit("node-7", None).unwrap_err(), "节点不存在: node-7");
}

#[test]
fn relay_actions() {
    assert_eq!(relay_action(FrameType::IpPacket), RelayAction::Forward);
    assert_eq!(relay_action(FrameType::Heartbeat), RelayAction::Heartbeat);
    assert_eq!(relay_action(FrameType::Disconnect), RelayAction::Close);
    assert_eq!(relay_action(FrameType::Auth), RelayAction::IgnoreAuth);
    assert_eq!(relay_action(FrameType::AuthAck), RelayAction::IgnoreServerFrame);
    assert_eq!(relay_action(FrameType::RouteUpdate), RelayAction::IgnoreServerFrame);
}

#[test]
fn route_table_lookup_after_rebuild() {
    let rows = vec![
        ("100.64.1.0/24".to_string(), "node-a".to_string()),
        ("100.64.2.0/24".to_string(), "node-b".to_string()),
        ("100.64.1.0/24".to_string(), "node-c".to_string()),
    ];
    let t = RouteTable::rebuild(&rows);
    assert_eq!(t.entries.len(), 2);
    let online = vec!["node-b".to_string(), "node-c".to_string()];
    assert_eq!(t.forward_target("100.64.1.9", "node-x", &online).as_deref(), Some("node-c"));
    assert_eq!(t.forward_target("100.64.2.9", "node-x", &online).as_deref(), Some("node-b"));
    assert_eq!(t.forward_target("100.64.2.9", "node-b", &online), None);
    assert_eq!(t.forward_target("100.64.3.9", "node-x", &online), None);
    assert_eq!(t.forward_target("100.64.1.9", "node-x", &[]), None);
    assert!(RouteTable::new().entries.is_empty());
}

fn no_env() -> EnvOverrides {
    EnvOverrides {
        listen_addr: None,
        database_url: None,
        web_admin_dir: None,
        log_level: None,
        client_pool_cidr: None,
        segment_size: None,
        operator_pool_cidr: None,
        server_virtual_ip: None,
        tunnel_addr: None,
    }
}

#[test]
fn server_settings() {
    let d = ServerConfig::default();
    assert_eq!(d.listen_addr, "0.0.0.0:8443");
    assert_eq!(d.tunnel_addr, "0.0.0.0:8444");
    assert_eq!(d.segment_size, 24);
    let mut env = no_env();
    env.listen_addr = Some("127.0.0.1:9000".to_string());
    env.segment_size = Some("16".to_string());
    let c = ServerConfig::load(None, env);
    assert_eq!(c.listen_addr, "127.0.0.1:9000");
    assert_eq!(c.segment_size, 16);
    assert_eq!(c.database_url, "sqlite://data/nettool.db?mode=rwc");
    let mut env = no_env();
    env.segment_size = Some("big".to_string());
    let c = ServerConfig::default().override_from_env(env);
    assert_eq!(c.segment_size, 24);
    assert_eq!(config_candidates(None), vec!["config.toml".to_string(), "/etc/nettool/config.toml".to_string()]);
    assert_eq!(config_candidates(Some("/x.toml".to_string())), vec!["/x.toml".to_string()]);
}
