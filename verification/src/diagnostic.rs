//! Diagnostics of a node: the items of a connectivity check, and where a
//! server address puts the host and the port.

use vstd::prelude::*;
use crate::common_config::ClientConfig;
use crate::connection::ConnectionStatus;
use crate::models::NodeRole;
use crate::text::{chars_of, join, join_strings, parse_u16_chars, parse_unsigned, push_decimal, push_decimal_u128, push_str, rfind_char, slice_chars, strip_leading_all, strip_leading_all_chars, strip_trailing, strip_trailing_chars, string_from_chars, trim_chars, trimmed, decimal, views};

verus! {

/// The outcome of one diagnostic check.
#[derive(Debug, Clone)]
pub struct DiagItem {
    pub name: String,
    pub ok: bool,
    pub detail: String,
    pub elapsed_ms: u128,
}

impl DiagItem {
    /// A passed check.
    pub fn ok(name: &str, detail: String, elapsed_ms: u128) -> (d: DiagItem)
        ensures
            d.name@ == name@,
            d.ok,
            d.detail == detail,
            d.elapsed_ms == elapsed_ms,
    {
        DiagItem { name: name.to_owned(), ok: true, detail, elapsed_ms }
    }

    /// A failed check.
    pub fn fail(name: &str, detail: String, elapsed_ms: u128) -> (d: DiagItem)
        ensures
            d.name@ == name@,
            !d.ok,
            d.detail == detail,
            d.elapsed_ms == elapsed_ms,
    {
        DiagItem { name: name.to_owned(), ok: false, detail, elapsed_ms }
    }

    /// The same item with another elapsed time.
    pub fn with_elapsed(self, ms: u128) -> (d: DiagItem)
        ensures
            d.name == self.name,
            d.ok == self.ok,
            d.detail == self.detail,
            d.elapsed_ms == ms,
    {
        DiagItem { elapsed_ms: ms, ..self }
    }
}

/// `host:port`.
pub open spec fn host_port_text(host: Seq<char>, port: u16) -> Seq<char> {
    host + ":"@ + decimal(port as nat)
}

fn host_port(host: &str, port: u16) -> (s: String)
    ensures
        s@ == host_port_text(host@, port),
{
    let mut v: Vec<char> = Vec::new();
    push_str(&mut v, host);
    push_str(&mut v, ":");
    push_decimal(&mut v, port as u64);
    string_from_chars(v.as_slice())
}

/// The item of a TCP connection test to `host:port` whose outcome the
/// caller measured: the connection's own time on success (the item's time
/// is then that), or the error; `total_ms` is the time the whole test took.
pub fn test_tcp_connect(host: &str, port: u16, outcome: Result<u128, String>, total_ms: u128) -> (d: DiagItem)
    ensures
        d.name@ == "TCP 连接"@,
        match outcome {
            Ok(ms) => d.ok && d.elapsed_ms == ms && d.detail@ == "成功连接 "@ + host_port_text(host@, port),
            Err(e) => !d.ok && d.elapsed_ms == total_ms && d.detail@ == "连接 "@ + host_port_text(
                host@,
                port,
            ) + " 失败: "@ + e@,
        },
{
    let addr = host_port(host, port);
    match outcome {
        Ok(ms) => {
            let mut v: Vec<char> = Vec::new();
            push_str(&mut v, "成功连接 ");
            push_str(&mut v, addr.as_str());
            DiagItem::ok("TCP 连接", string_from_chars(v.as_slice()), total_ms).with_elapsed(ms)
        },
        Err(e) => {
            let mut v: Vec<char> = Vec::new();
            push_str(&mut v, "连接 ");
            push_str(&mut v, addr.as_str());
            push_str(&mut v, " 失败: ");
            push_str(&mut v, e.as_str());
            DiagItem::fail("TCP 连接", string_from_chars(v.as_slice()), total_ms)
        },
    }
}

/// The item of a DNS test of `domain` whose outcome the caller measured:
/// the addresses it resolved to, or the error.
pub fn test_dns(domain: &str, outcome: Result<Vec<String>, String>, elapsed_ms: u128) -> (d: DiagItem)
    ensures
        d.name@ == "DNS 解析"@,
        d.elapsed_ms == elapsed_ms,
        match outcome {
            Ok(list) => if list@.len() == 0 {
                !d.ok && d.detail@ == domain@ + " 未解析到地址"@
            } else {
                d.ok && d.detail@ == domain@ + " -> "@ + join(views(list@), ", "@)
            },
            Err(e) => !d.ok && d.detail@ == "解析 "@ + domain@ + " 失败: "@ + e@,
        },
{
    match outcome {
        Ok(list) => {
            if list.len() == 0 {
                let mut v: Vec<char> = Vec::new();
                push_str(&mut v, domain);
                push_str(&mut v, " 未解析到地址");
                DiagItem::fail("DNS 解析", string_from_chars(v.as_slice()), elapsed_ms)
            } else {
                let joined = join_strings(list.as_slice(), ", ");
                let mut v: Vec<char> = Vec::new();
                push_str(&mut v, domain);
                push_str(&mut v, " -> ");
                push_str(&mut v, joined.as_str());
                DiagItem::ok("DNS 解析", string_from_chars(v.as_slice()), elapsed_ms)
            }
        },
        Err(e) => {
            let mut v: Vec<char> = Vec::new();
            push_str(&mut v, "解析 ");
            push_str(&mut v, domain);
            push_str(&mut v, " 失败: ");
            push_str(&mut v, e.as_str());
            DiagItem::fail("DNS 解析", string_from_chars(v.as_slice()), elapsed_ms)
        },
    }
}

/// The address part of a server address: trimmed, every leading `http://`
/// and then every leading `https://` taken off, and every trailing `/`.
pub open spec fn bare_address(server_addr: Seq<char>) -> Seq<char> {
    strip_trailing(strip_leading_all(strip_leading_all(trimmed(server_addr), "http://"@), "https://"@), '/')
}

/// Index of the last `c` in `s`.
pub open spec fn last_index_of(s: Seq<char>, c: char) -> Option<int> {
    if exists|i: int| 0 <= i < s.len() && s[i] == c {
        Some(choose|i: int| 0 <= i < s.len() && s[i] == c && forall|j: int| i < j < s.len() ==> s[j] != c)
    } else {
        None
    }
}

pub proof fn lemma_last_index_of(s: Seq<char>, c: char, i: int)
    requires
        0 <= i < s.len(),
        s[i] == c,
        forall|j: int| i < j < s.len() ==> s[j] != c,
    ensures
        last_index_of(s, c) == Some(i),
{
    assert(exists|k: int| 0 <= k < s.len() && s[k] == c && forall|j: int| k < j < s.len() ==> s[j] != c);
    let k = choose|k: int| 0 <= k < s.len() && s[k] == c && forall|j: int| k < j < s.len() ==> s[j] != c;
    if k < i {
        assert(s[i] != c);
    } else if k > i {
        assert(s[k] != c);
    }
}

/// The host and the port of a server address: the port after the last
/// `:` where it parses as a `u16`, else 8443.
pub open spec fn spec_split_host_port(server_addr: Seq<char>) -> (Seq<char>, u16) {
    let a = bare_address(server_addr);
    match last_index_of(a, ':') {
        Some(i) => (
            a.subrange(0, i),
            match parse_unsigned(a.subrange(i + 1, a.len() as int), 65535) {
                Some(p) => p as u16,
                None => 8443,
            },
        ),
        None => (a, 8443),
    }
}

/// The host and the port of a server address (`8443` by default).
pub fn split_host_port(server_addr: &str) -> (r: (String, u16))
    ensures
        r.0@ == spec_split_host_port(server_addr@).0,
        r.1 == spec_split_host_port(server_addr@).1,
{
    let v = chars_of(server_addr);
    let t = trim_chars(v.as_slice());
    proof {
        reveal_strlit("http://");
        reveal_strlit("https://");
    }
    let a1 = strip_leading_all_chars(t.as_slice(), "http://");
    let a2 = strip_leading_all_chars(a1.as_slice(), "https://");
    let a = strip_trailing_chars(a2.as_slice(), '/');
    match rfind_char(a.as_slice(), ':') {
        Some(i) => {
            proof {
                lemma_last_index_of(a@, ':', i as int);
            }
            assert(i < a.len());
            let host = slice_chars(a.as_slice(), 0, i);
            let tail = slice_chars(a.as_slice(), i + 1, a.len());
            let port = match parse_u16_chars(tail.as_slice()) {
                Some(p) => p,
                None => 8443,
            };
            (string_from_chars(host.as_slice()), port)
        },
        None => {
            proof {
                if last_index_of(a@, ':') is Some {
                    let k = choose|k: int| 0 <= k < a@.len() && a@[k] == ':';
                    assert(a@[k] != ':');
                }
            }
            (string_from_chars(a.as_slice()), 8443)
        },
    }
}

/// The role's name as the user sees it.
pub open spec fn role_label(role: NodeRole) -> Seq<char> {
    match role {
        NodeRole::Server => "服务端"@,
        NodeRole::Client => "客户端"@,
        NodeRole::Operator => "实施端"@,
    }
}

/// The role's name as the user sees it.
pub fn role_name(role: &NodeRole) -> (s: &'static str)
    ensures
        s@ == role_label(*role),
{
    match role {
        NodeRole::Server => "服务端",
        NodeRole::Client => "客户端",
        NodeRole::Operator => "实施端",
    }
}


/// `true` or `false`, as `{}` writes a `bool`.
pub open spec fn bool_text(b: bool) -> Seq<char> {
    if b {
        "true"@
    } else {
        "false"@
    }
}

/// One item's line in an exported report: `[OK]` or `[FAIL]`, the name,
/// the time and the detail.
pub open spec fn item_line(it: DiagItem) -> Seq<char> {
    "["@ + (if it.ok {
        "OK"@
    } else {
        "FAIL"@
    }) + "] "@ + it.name@ + " ("@ + decimal(it.elapsed_ms as nat) + " ms) - "@ + it.detail@ + "\n"@
}

/// The lines of the first `k` items.
pub open spec fn item_lines(items: Seq<DiagItem>, k: int) -> Seq<char>
    decreases k,
{
    if k <= 0 {
        Seq::empty()
    } else {
        item_lines(items, k - 1) + item_line(items[k - 1])
    }
}

/// The head of an exported report: when and by which version it was made,
/// the system, and the node's role, server, name and connection state.
pub open spec fn report_head(
    exported_at: Seq<char>,
    version: Seq<char>,
    os: Seq<char>,
    cfg: ClientConfig,
    status: ConnectionStatus,
) -> Seq<char> {
    "==== net-tool 诊断信息 ====\n"@ + "导出时间   : "@ + exported_at + "\n"@ + "软件版本   : "@ + version + "\n"@
        + "操作系统   : "@ + os + "\n"@ + "当前角色   : "@ + role_label(cfg.role) + "\n"@ + "服务端地址 : "@
        + cfg.server_addr@ + "\n"@ + "节点名称   : "@ + cfg.node_name@ + "\n"@ + "连接状态   : "@ + status.label()
        + "\n"@
}

/// Text or `-` where there is none.
pub open spec fn or_dash(o: Option<String>) -> Seq<char> {
    match o {
        Some(s) => s@,
        None => "-"@,
    }
}

/// The node's id and virtual address, where it is connected.
pub open spec fn report_node(node: Option<(Option<String>, Option<String>)>) -> Seq<char> {
    match node {
        Some((id, vip)) => "节点 ID    : "@ + or_dash(id) + "\n"@ + "虚拟 IP    : "@ + or_dash(vip) + "\n"@,
        None => Seq::empty(),
    }
}

/// The node's settings.
pub open spec fn report_settings(cfg: ClientConfig) -> Seq<char> {
    "\n---- 配置 ----\n"@ + "自动重连   : "@ + bool_text(cfg.auto_reconnect) + "\n"@ + "开机自启   : "@
        + bool_text(cfg.auto_start) + "\n"@ + "日志级别   : "@ + cfg.log_level@ + "\n"@
        + "\n---- 连通性诊断 ----\n"@
}

/// The text of an exported diagnostic report: its head, the node's id and
/// virtual address where it is connected (`-` for what is unknown), its
/// settings, and the items of a connectivity check.
pub open spec fn report_text(
    exported_at: Seq<char>,
    version: Seq<char>,
    os: Seq<char>,
    cfg: ClientConfig,
    status: ConnectionStatus,
    node: Option<(Option<String>, Option<String>)>,
    items: Seq<DiagItem>,
) -> Seq<char> {
    report_head(exported_at, version, os, cfg, status) + report_node(node) + report_settings(cfg) + item_lines(
        items,
        items.len() as int,
    )
}

fn push_opt_or_dash(v: &mut Vec<char>, o: &Option<String>)
    ensures
        final(v)@ == old(v)@ + or_dash(*o),
{
    match o {
        Some(s) => push_str(v, s.as_str()),
        None => push_str(v, "-"),
    }
}

fn push_head(
    v: &mut Vec<char>,
    exported_at: &str,
    version: &str,
    os: &str,
    cfg: &ClientConfig,
    status: &ConnectionStatus,
)
    ensures
        final(v)@ == old(v)@ + report_head(exported_at@, version@, os@, *cfg, *status),
{
    let ghost start = v@;
    push_str(v, "==== net-tool 诊断信息 ====\n");
    push_str(v, "导出时间   : ");
    push_str(v, exported_at);
    push_str(v, "\n");
    push_str(v, "软件版本   : ");
    push_str(v, version);
    push_str(v, "\n");
    push_str(v, "操作系统   : ");
    push_str(v, os);
    push_str(v, "\n");
    push_str(v, "当前角色   : ");
    push_str(v, role_name(&cfg.role));
    push_str(v, "\n");
    push_str(v, "服务端地址 : ");
    push_str(v, cfg.server_addr.as_str());
    push_str(v, "\n");
    push_str(v, "节点名称   : ");
    push_str(v, cfg.node_name.as_str());
    push_str(v, "\n");
    push_str(v, "连接状态   : ");
    push_str(v, status.as_str());
    push_str(v, "\n");
    assert(v@ =~= start + report_head(exported_at@, version@, os@, *cfg, *status));
}

fn push_node(v: &mut Vec<char>, node: &Option<(Option<String>, Option<String>)>)
    ensures
        final(v)@ == old(v)@ + report_node(*node),
{
    let ghost start = v@;
    match node {
        Some((id, vip)) => {
            push_str(v, "节点 ID    : ");
            push_opt_or_dash(v, id);
            push_str(v, "\n");
            push_str(v, "虚拟 IP    : ");
            push_opt_or_dash(v, vip);
            push_str(v, "\n");
        },
        None => {},
    }
    assert(v@ =~= start + report_node(*node));
}

fn push_settings(v: &mut Vec<char>, cfg: &ClientConfig)
    ensures
        final(v)@ == old(v)@ + report_settings(*cfg),
{
    let ghost start = v@;
    push_str(v, "\n---- 配置 ----\n");
    push_str(v, "自动重连   : ");
    push_str(v, if cfg.auto_reconnect { "true" } else { "false" });
    push_str(v, "\n");
    push_str(v, "开机自启   : ");
    push_str(v, if cfg.auto_start { "true" } else { "false" });
    push_str(v, "\n");
    push_str(v, "日志级别   : ");
    push_str(v, cfg.log_level.as_str());
    push_str(v, "\n");
    push_str(v, "\n---- 连通性诊断 ----\n");
    assert(v@ =~= start + report_settings(*cfg));
}

fn push_item(v: &mut Vec<char>, it: &DiagItem)
    ensures
        final(v)@ == old(v)@ + item_line(*it),
{
    let ghost start = v@;
    push_str(v, "[");
    push_str(v, if it.ok { "OK" } else { "FAIL" });
    push_str(v, "] ");
    push_str(v, it.name.as_str());
    push_str(v, " (");
    push_decimal_u128(v, it.elapsed_ms);
    push_str(v, " ms) - ");
    push_str(v, it.detail.as_str());
    push_str(v, "\n");
    assert(v@ =~= start + item_line(*it));
}

/// The text of an exported diagnostic report (see [`report_text`]);
/// `node` holds the node's id and virtual address where it is connected.
pub fn diagnostic_report(
    exported_at: &str,
    version: &str,
    os: &str,
    cfg: &ClientConfig,
    status: &ConnectionStatus,
    node: Option<(Option<String>, Option<String>)>,
    items: &[DiagItem],
) -> (s: String)
    ensures
        s@ == report_text(exported_at@, version@, os@, *cfg, *status, node, items@),
{
    let mut v: Vec<char> = Vec::new();
    push_head(&mut v, exported_at, version, os, cfg, status);
    push_node(&mut v, &node);
    push_settings(&mut v, cfg);
    let ghost before_items = v@;
    let n = items.len();
    let mut k: usize = 0;
    assert(item_lines(items@, 0) =~= Seq::<char>::empty());
    while k < n
        invariant
            n == items@.len(),
            k <= n,
            v@ == before_items + item_lines(items@, k as int),
        decreases n - k,
    {
        push_item(&mut v, &items[k]);
        assert(v@ =~= before_items + item_lines(items@, k + 1));
        k += 1;
    }
    assert(v@ =~= report_text(exported_at@, version@, os@, *cfg, *status, node, items@));
    string_from_chars(v.as_slice())
}

} // verus!
