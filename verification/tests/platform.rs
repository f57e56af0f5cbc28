use net_tool::cli::{Cli, Commands, CommonArgs};
use net_tool::client_config::{config_dir, config_path, resolve};
use net_tool::common_config::ClientConfig;
use net_tool::display::{
    cyan, display_width, green, interface_type_colored, paint, segment_status_colored, Table, RESET,
};
use net_tool::ipconfig::{decode_output, detect_type as windows_detect_type, parse_ipconfig};
use net_tool::models::{NodeRole, SegmentStatus};
use net_tool::nat_rules::{dnat_args, masquerade_args, NatError, NatManager};
use net_tool::route::{cleanup_failure_line, route_already_gone, RouteError, RouteManager};
use net_tool::scanner::{
    detect_type, first_ipv4, first_prefix, parse_hex_le, read_interface_names, read_local_ips, read_routes,
    scan_platform, InterfaceType, LinkInfo, RouteLine,
};

fn chars(s: &str) -> Vec<char> {
    s.chars().collect()
}

#[test]
fn proc_net_dev_names() {
    let content = "Inter-|   Receive\n face |bytes\n    lo: 1 2 3\n  eth0: 4 5 6\n   : 7\n";
    assert_eq!(read_interface_names(content), vec!["lo".to_string(), "eth0".to_string()]);
}

#[test]
fn proc_net_route_fields() {
    assert_eq!(parse_hex_le(&chars("0001A8C0"), true), Some(0x0001A8C0));
    assert_eq!(parse_hex_le(&chars("0001A8C0"), false), Some(0xC0A80100));
    assert_eq!(parse_hex_le(&chars("xyz"), true), None);
    let content = "Iface\tDestination\tGateway\tFlags\tRefCnt\tUse\tMetric\tMask\n\
eth0\t00000000\t0101A8C0\t0003\t0\t0\t100\t00000000\n\
eth0\t0001A8C0\t00000000\t0001\t0\t0\t100\t00FFFFFF\n\
short\t0\n";
    let rs = read_routes(content, true);
    assert_eq!(rs.len(), 2);
    assert_eq!(rs[0].iface, "eth0");
    assert_eq!(rs[0].gateway, 0x0101A8C0);
    assert_eq!(rs[1].mask, 0x00FFFFFF);
}

#[test]
fn fib_trie_addresses() {
    assert_eq!(first_ipv4(&chars("  |-- 192.168.1.5")), Some(0xC0A80105));
    assert_eq!(first_ipv4(&chars("no address here")), None);
    assert_eq!(first_prefix(&chars("/32 host LOCAL")), Some(32));
    assert_eq!(first_prefix(&chars("host LOCAL")), None);
    let content = "Main:\n  +-- 192.168.1.0/24 2 0 2\n     |-- 192.168.1.0\n        /24 link UNICAST\n     |-- 192.168.1.5\n        /32 host LOCAL\n     |-- 10.0.0.0\n        /8 host LOCAL\n";
    assert_eq!(read_local_ips(content, true), vec![(0xC0A80105, 32)]);
    assert_eq!(read_local_ips(content, false), vec![(0xC0A80105, 32), (0x0A000000, 32)]);
}

fn link(name: &str, wireless: bool, driver: Option<&str>, device: bool) -> LinkInfo {
    LinkInfo { name: name.to_string(), has_wireless: wireless, driver: driver.map(|d| d.to_string()), has_device: device }
}

#[test]
fn linux_interface_kinds() {
    assert_eq!(detect_type(&link("lo", false, None, false)), InterfaceType::Loopback);
    assert_eq!(detect_type(&link("wlan0", true, None, true)), InterfaceType::Wifi);
    assert_eq!(detect_type(&link("Docker0", false, None, false)), InterfaceType::Docker);
    assert_eq!(detect_type(&link("vmnet8", false, None, false)), InterfaceType::Vmware);
    assert_eq!(detect_type(&link("wg0", false, None, false)), InterfaceType::Vpn);
    assert_eq!(detect_type(&link("eth1", false, Some("HV_NETVSC"), true)), InterfaceType::HyperV);
    assert_eq!(detect_type(&link("eth2", false, Some("vmxnet3"), true)), InterfaceType::Vmware);
    assert_eq!(detect_type(&link("eth0", false, Some("e1000e"), true)), InterfaceType::Physical);
    assert_eq!(detect_type(&link("dummy0", false, None, false)), InterfaceType::Unknown);
}

#[test]
fn linux_scan_puts_it_together() {
    let links = vec![link("eth0", false, Some("e1000e"), true), link("lo", false, None, false)];
    let routes = vec![
        RouteLine { iface: "eth0".to_string(), dest: 0, gateway: 0xC0A80101, mask: 0 },
        RouteLine { iface: "eth0".to_string(), dest: 0xC0A80100, gateway: 0, mask: 0xFFFFFF00 },
        RouteLine { iface: "eth0".to_string(), dest: 0xC0A80105, gateway: 0, mask: 0xFFFFFFFF },
    ];
    let local = vec![(0x0A000001, 32), (0xC0A80105, 32)];
    let out = scan_platform(&links, &routes, &local);
    assert_eq!(out.len(), 2);
    assert_eq!(out[0].name, "eth0");
    assert_eq!(out[0].iface_type, InterfaceType::Physical);
    assert_eq!(out[0].ip_address, "192.168.1.5");
    assert_eq!(out[0].cidr, "192.168.1.0/24");
    assert_eq!(out[0].gateway.as_deref(), Some("192.168.1.1"));
    assert!(!out[0].recommended);
    assert_eq!(out[1].iface_type, InterfaceType::Loopback);
    assert_eq!(out[1].cidr, "");
    assert_eq!(out[1].ip_address, "10.0.0.1");
    assert!(out[1].gateway.is_none());
}

#[test]
fn ipconfig_output() {
    let text = "Windows IP Configuration\r\n\r\nEthernet adapter Ethernet:\r\n\r\n   IPv4 Address. . . . . . . . . . . : 192.168.1.20(Preferred)\r\n   Subnet Mask . . . . . . . . . . . : 255.255.255.0\r\n   Default Gateway . . . . . . . . . : 192.168.1.1\r\n\r\nEthernet adapter vEthernet (Default Switch):\r\n\r\n   IPv4 Address. . . . . . . . . . . : 172.20.0.1\r\n\r\nWireless LAN adapter Wi-Fi:\r\n\r\n   Media State . . . . . . . . . . . : Media disconnected\r\n";
    let out = parse_ipconfig(text, false);
    assert_eq!(out.len(), 2);
    assert_eq!(out[0].name, "Ethernet adapter Ethernet");
    assert_eq!(out[0].iface_type, InterfaceType::Physical);
    assert_eq!(out[0].ip_address, "192.168.1.20(Preferred");
    assert_eq!(out[0].cidr, "");
    assert_eq!(out[0].gateway.as_deref(), Some("192.168.1.1"));
    assert_eq!(out[1].iface_type, InterfaceType::Physical);
    assert_eq!(out[1].cidr, "");
    let plain = "以太网适配器 以太网:\n   IPv4 地址 . . . : 10.1.2.3\n   子网掩码 . . . : 255.255.0.0\n";
    let out2 = parse_ipconfig(plain, false);
    assert_eq!(out2.len(), 1);
    assert_eq!(out2[0].ip_address, "10.1.2.3");
    assert_eq!(out2[0].cidr, "10.1.0.0/16");
    assert!(out2[0].gateway.is_none());
    let desktop = parse_ipconfig(text, true);
    assert_eq!(desktop[1].iface_type, InterfaceType::Docker);

    assert_eq!(windows_detect_type("Software Loopback Interface 1", false), InterfaceType::Loopback);
    assert_eq!(windows_detect_type("WIRELESS LAN adapter WLAN", false), InterfaceType::Wifi);
    assert_eq!(windows_detect_type("Ethernet adapter vEthernet (WSL)", false), InterfaceType::Docker);
    assert_eq!(windows_detect_type("OpenVPN TAP-Windows6", false), InterfaceType::Vpn);

    assert_eq!(decode_output("以太网".as_bytes()), "以太网");
    assert_eq!(decode_output(&[b'a', 0xC3, b'b']), "a\u{FFFD}b");
}

#[test]
fn colours_and_widths() {
    assert_eq!(paint("\x1b[31m", "x", false), "x");
    assert_eq!(green("ok", true), format!("\x1b[32mok{RESET}"));
    assert_eq!(display_width(&cyan("物理网卡", true)), 4);
    assert_eq!(display_width("\x1b[1mab\x1b[0mc"), 3);
    assert_eq!(display_width("\x1bx"), 1);
    assert_eq!(interface_type_colored(&InterfaceType::Physical, true), cyan("物理网卡", true));
    assert_eq!(interface_type_colored(&InterfaceType::Wifi, true), green("Wi-Fi", true));
    assert_eq!(interface_type_colored(&InterfaceType::Loopback, false), "Loopback");
    assert_eq!(interface_type_colored(&InterfaceType::Docker, true), "Docker");
    assert_eq!(segment_status_colored(&SegmentStatus::Error, false), "错误");
}

#[test]
fn tables_line_up_with_colours() {
    let mut t = Table::new(&["#", "名称"]);
    t.add_row(&["1".to_string(), green("eth0", true)]);
    t.add_row(&["22".to_string()]);
    let out = t.render();
    let lines: Vec<&str> = out.lines().collect();
    assert_eq!(lines.len(), 4);
    let widths: Vec<usize> = lines.iter().map(|l| display_width(l)).collect();
    assert!(widths.iter().all(|w| *w == widths[0]));
    assert_eq!(lines[0], "| #  | 名称   |");
    assert_eq!(lines[1], "+----+------+");
    assert_eq!(lines[3], "| 22 |      |");
}

#[test]
fn route_bookkeeping() {
    let mut rm = RouteManager::new();
    assert!(rm.add_route("100.64.1.0/24", "nettool0", Ok(())).is_ok());
    assert!(rm.add_route("100.64.2.0/24", "nettool0", Ok(())).is_ok());
    let e = rm.add_route("100.64.3.0/24", "nettool0", Err("boom".to_string())).unwrap_err();
    assert_eq!(e.message(), "添加路由失败 (cidr=100.64.3.0/24, interface=nettool0): boom");
    assert_eq!(rm.added_routes.len(), 2);
    let pending = rm.pending_deletions();
    assert_eq!(pending[0], ("100.64.2.0/24".to_string(), "nettool0".to_string()));
    assert!(rm.delete_route("100.64.1.0/24", "nettool0", Ok(())).is_ok());
    assert_eq!(rm.added_routes, vec!["100.64.2.0/24".to_string()]);
    let line = cleanup_failure_line("100.64.2.0/24", "nettool0", "denied");
    assert_eq!(line, "100.64.2.0/24 via nettool0: denied");
    let r = rm.cleanup(vec![line.clone()]);
    assert_eq!(r, Err(RouteError::CleanupFailed(vec![line])));
    assert!(rm.added_routes.is_empty() && rm.route_interfaces.is_empty());
    assert!(route_already_gone("RTNETLINK answers: No such process"));
    assert!(!route_already_gone("Operation not permitted"));
}

#[test]
fn nat_bookkeeping() {
    let mut nm = NatManager::default();
    assert!(nm.add_rule("100.64.1.0/24", "192.168.1.0/24", "eth0", Ok(())).is_ok());
    assert!(nm.add_rule("100.64.2.0/24", "192.168.2.0/24", "eth0", Err("x".to_string())).is_err());
    assert_eq!(nm.rules.len(), 1);
    assert_eq!(nm.pending_deletions()[0].real_cidr, "192.168.1.0/24");
    assert_eq!(
        dnat_args("-A", "100.64.1.0/24", "192.168.1.0/24"),
        vec!["-t", "nat", "-A", "PREROUTING", "-d", "100.64.1.0/24", "-j", "DNAT", "--to-destination", "192.168.1.0"]
    );
    assert_eq!(
        masquerade_args("-D", "192.168.1.0/24", "eth0"),
        vec!["-t", "nat", "-D", "POSTROUTING", "-s", "192.168.1.0/24", "-o", "eth0", "-j", "MASQUERADE"]
    );
    let r = nm.cleanup(vec!["a".to_string(), "b".to_string()]);
    match r {
        Err(NatError::CleanupFailed(lines)) => assert_eq!(lines.len(), 2),
        _ => panic!("cleanup should report failures"),
    }
    assert!(nm.rules.is_empty());
}

fn args(server: Option<&str>, name: Option<&str>) -> CommonArgs {
    CommonArgs {
        server_addr: server.map(|s| s.to_string()),
        name: name.map(|s| s.to_string()),
        remark: None,
        auto_reconnect: Some(false),
        auto_start: None,
        config: None,
        diagnostic: false,
        log_level: Some("debug".to_string()),
    }
}

#[test]
fn node_configuration() {
    let c = resolve(ClientConfig::default(), &args(Some("10.0.0.1:8443"), Some("pc")), NodeRole::Operator).unwrap();
    assert_eq!(c.server_addr, "10.0.0.1:8443");
    assert_eq!(c.node_name, "pc");
    assert_eq!(c.role, NodeRole::Operator);
    assert!(!c.auto_reconnect);
    assert_eq!(c.log_level, "debug");

    let c = resolve(ClientConfig::default(), &args(None, Some("  ")), NodeRole::Client).unwrap();
    assert_eq!(c.server_addr, "127.0.0.1:8443");
    assert_eq!(c.node_name.len(), 13);
    assert!(c.node_name.starts_with("node-"));
    assert!(c.node_name[5..].chars().all(|ch| ch.is_ascii_hexdigit() && !ch.is_ascii_uppercase()));

    let e = resolve(ClientConfig::default(), &args(Some("  "), None), NodeRole::Client).unwrap_err();
    assert_eq!(e, "服务端地址不能为空，请通过 --server-addr 或配置文件指定");

    let cli = Cli { command: Commands::Client { common: args(None, None) } };
    assert_eq!(cli.common_log_level().as_deref(), Some("debug"));

    assert_eq!(config_dir(Some("/home/u")), "/home/u/.net-tool");
    assert_eq!(config_path(Some("/home/u/")), "/home/u/.net-tool/config.toml");
    assert_eq!(config_path(None), ".net-tool/config.toml");
}
