use net_tool::api::SegmentSummary;
use net_tool::common_config::ClientConfig;
use net_tool::diagnostic::DiagItem;
use net_tool::display::{
    accessible_segments_report, banner_text, config_report, diag_line, interfaces_report, reported_segments_report,
    segment_mapping_line,
};
use net_tool::models::{RouteEntry, SegmentStatus};
use net_tool::scanner::{InterfaceType, NetworkInterface};

#[test]
fn interface_listing() {
    assert_eq!(interfaces_report(&[], false), "未扫描到可用网卡。\n");
    let ifs = vec![NetworkInterface {
        name: "eth0".to_string(),
        iface_type: InterfaceType::Physical,
        ip_address: "192.168.1.5".to_string(),
        cidr: "192.168.1.0/24".to_string(),
        gateway: None,
        recommended: true,
    }];
    let out = interfaces_report(&ifs, false);
    let lines: Vec<&str> = out.lines().collect();
    assert_eq!(lines.len(), 4);
    assert_eq!(lines[2], "| 1 | eth0 | 物理网卡 | 192.168.1.5 | 192.168.1.0/24 | -  | 是  |");
    assert_eq!(lines[3], "提示: 标记为「是」的物理网卡 / Wi-Fi 通常是需要上报的真实网段。");
}

#[test]
fn segment_listings() {
    assert_eq!(reported_segments_report(&[], false), "尚未上报任何网段，输入 add 添加。\n");
    let segs = vec![SegmentSummary {
        id: "s".to_string(),
        name: "办公网".to_string(),
        real_cidr: "192.168.1.0/24".to_string(),
        mapped_cidr: None,
        status: SegmentStatus::Pending,
        remark: None,
    }];
    let out = reported_segments_report(&segs, false);
    assert_eq!(out.lines().nth(2).unwrap(), "| 1 | 办公网  | 192.168.1.0/24 | 未分配  | 待激活 |");

    assert_eq!(accessible_segments_report(&[], true), "\x1b[33m当前没有可访问的网段。\x1b[0m\n");
    let route = RouteEntry {
        mapped_cidr: "100.64.1.0/24".to_string(),
        target_node_id: "n".to_string(),
        target_node_name: "office".to_string(),
        real_cidr: "192.168.1.0/24".to_string(),
        segment_name: "lan".to_string(),
    };
    let out = accessible_segments_report(&[route], false);
    assert_eq!(out.lines().nth(2).unwrap(), "| 1 | office | lan  | 192.168.1.0/24 | 100.64.1.0/24 |");
}

#[test]
fn small_lines() {
    assert_eq!(segment_mapping_line("192.168.1.0/24", "100.64.1.0/24", false), "  192.168.1.0/24 <-> 100.64.1.0/24");
    assert_eq!(banner_text("标题", false), "\n========== 标题 ==========\n");
    let item = DiagItem::ok("DNS 解析", "ok".to_string(), 1234567890123);
    assert_eq!(diag_line(&item, false), "[OK] DNS 解析 (1234567890123 ms) - ok");
    let item = DiagItem::fail("TCP 连接", "refused".to_string(), 3);
    assert_eq!(diag_line(&item, true), "\x1b[31m[FAIL]\x1b[0m TCP 连接 (3 ms) - refused");
}

#[test]
fn configuration_text() {
    let cfg = ClientConfig::default();
    let out = config_report(&cfg, "/home/u/.net-tool/config.toml");
    let expected = "---- 当前配置 ----\n服务端地址 : 127.0.0.1:8443\n节点名称   : unnamed-node\n节点角色   : 客户端\n备注       : \n自动重连   : 是\n开机自启   : 否\n日志级别   : info\n配置文件   : /home/u/.net-tool/config.toml\n------------------\n";
    assert_eq!(out, expected);
}
