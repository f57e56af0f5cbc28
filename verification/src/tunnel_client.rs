//! The node side of the tunnel: its state, the address of the server's
//! tunnel port, the address of the node's TUN interface, and what the node
//! does with each frame the server sends.

use vstd::prelude::*;
use crate::diagnostic::{last_index_of, lemma_last_index_of};
use crate::text::{chars_of, decimal, is_prefix, lemma_split_len, parse_u8_chars, parse_unsigned, push_chars, push_decimal, push_str, rfind_char, slice_chars, split, split_chars, starts_with_str, string_from_chars};
use crate::tunnel::{FrameType, TunnelRoute};

verus! {

/// The state of a node's tunnel.
#[derive(Debug, Clone, PartialEq, Eq)]
pub enum TunnelStatus {
    Disconnected,
    Connecting,
    Authenticated,
    Running,
    Error(String),
}

impl TunnelStatus {
    /// The label shown to the user.
    pub open spec fn label(self) -> Seq<char> {
        match self {
            TunnelStatus::Disconnected => "已断开"@,
            TunnelStatus::Connecting => "连接中"@,
            TunnelStatus::Authenticated => "已认证"@,
            TunnelStatus::Running => "运行中"@,
            TunnelStatus::Error(_) => "错误"@,
        }
    }

    /// The label shown to the user.
    pub fn as_str(&self) -> (s: &'static str)
        ensures
            s@ == self.label(),
    {
        match self {
            TunnelStatus::Disconnected => "已断开",
            TunnelStatus::Connecting => "连接中",
            TunnelStatus::Authenticated => "已认证",
            TunnelStatus::Running => "运行中",
            TunnelStatus::Error(_) => "错误",
        }
    }

    /// Whether the tunnel is up: authenticated or running.
    pub fn is_connected(&self) -> (r: bool)
        ensures
            r == (*self is Authenticated || *self is Running),
    {
        match self {
            TunnelStatus::Authenticated | TunnelStatus::Running => true,
            _ => false,
        }
    }
}

/// What [`extract_first_ip`] gives: the segment's address with its last
/// part raised by one, or the message of what is wrong with the text.
pub open spec fn spec_first_ip(cidr: Seq<char>) -> Result<Seq<char>, Seq<char>> {
    let parts = split(cidr, '/');
    if parts.len() != 2 {
        Err("CIDR 格式错误: "@ + cidr)
    } else {
        let ip = split(parts[0], '.');
        if ip.len() != 4 {
            Err("IP 格式错误: "@ + parts[0])
        } else {
            match parse_unsigned(ip[3], 255) {
                None => Err("IP 最后一段解析失败: "@ + ip[3]),
                Some(v) => Ok(ip[0] + "."@ + ip[1] + "."@ + ip[2] + "."@ + decimal(v + 1)),
            }
        }
    }
}

/// A segment whose last address part is 255, which has no next address.
pub open spec fn first_ip_overflows(cidr: Seq<char>) -> bool {
    let parts = split(cidr, '/');
    parts.len() == 2 && split(parts[0], '.').len() == 4 && parse_unsigned(split(parts[0], '.')[3], 255)
        == Some(255nat)
}

/// Whether the segment's address ends in 255, whose next address the
/// first-address computation cannot write.
pub fn first_ip_would_overflow(cidr: &str) -> (r: bool)
    ensures
        r == first_ip_overflows(cidr@),
{
    let v = chars_of(cidr);
    let parts = split_chars(v.as_slice(), '/');
    if parts.len() != 2 {
        return false;
    }
    let ip = split_chars(parts[0].as_slice(), '.');
    if ip.len() != 4 {
        return false;
    }
    match parse_u8_chars(ip[3].as_slice()) {
        Some(b) => b == 255,
        None => false,
    }
}

/// The first host address of a segment (`100.64.1.0/24` gives
/// `100.64.1.1`).
pub fn extract_first_ip(cidr: &str) -> (r: Result<String, String>)
    requires
        !first_ip_overflows(cidr@),
    ensures
        match spec_first_ip(cidr@) {
            Ok(a) => r matches Ok(s) && s@ == a,
            Err(m) => r matches Err(e) && e@ == m,
        },
{
    let v = chars_of(cidr);
    let parts = split_chars(v.as_slice(), '/');
    if parts.len() != 2 {
        let mut out: Vec<char> = Vec::new();
        push_str(&mut out, "CIDR 格式错误: ");
        push_str(&mut out, cidr);
        return Err(string_from_chars(out.as_slice()));
    }
    let ip = split_chars(parts[0].as_slice(), '.');
    if ip.len() != 4 {
        let mut out: Vec<char> = Vec::new();
        push_str(&mut out, "IP 格式错误: ");
        push_chars(&mut out, parts[0].as_slice());
        return Err(string_from_chars(out.as_slice()));
    }
    let last = match parse_u8_chars(ip[3].as_slice()) {
        Some(b) => b,
        None => {
            let mut out: Vec<char> = Vec::new();
            push_str(&mut out, "IP 最后一段解析失败: ");
            push_chars(&mut out, ip[3].as_slice());
            return Err(string_from_chars(out.as_slice()));
        },
    };
    let mut out: Vec<char> = Vec::new();
    push_chars(&mut out, ip[0].as_slice());
    push_str(&mut out, ".");
    push_chars(&mut out, ip[1].as_slice());
    push_str(&mut out, ".");
    push_chars(&mut out, ip[2].as_slice());
    push_str(&mut out, ".");
    push_decimal(&mut out, (last + 1) as u64);
    Ok(string_from_chars(out.as_slice()))
}

/// The server's tunnel address: the host of a server address (without
/// `https://` or `http://`, path, or port) with port 8444.
pub open spec fn spec_tunnel_addr(server_addr: Seq<char>) -> Seq<char> {
    let a0 = if is_prefix("https://"@, server_addr) {
        server_addr.subrange(8, server_addr.len() as int)
    } else if is_prefix("http://"@, server_addr) {
        server_addr.subrange(7, server_addr.len() as int)
    } else {
        server_addr
    };
    let a = split(a0, '/')[0];
    match last_index_of(a, ':') {
        Some(i) => a.subrange(0, i) + ":8444"@,
        None => a + ":8444"@,
    }
}

/// The server's tunnel address (port 8444) for its API address (port 8443).
pub fn get_tunnel_addr(server_addr: &str) -> (r: String)
    ensures
        r@ == spec_tunnel_addr(server_addr@),
{
    proof {
        reveal_strlit("https://");
        reveal_strlit("http://");
    }
    let v = chars_of(server_addr);
    let a0 = if starts_with_str(v.as_slice(), "https://") {
        slice_chars(v.as_slice(), 8, v.len())
    } else if starts_with_str(v.as_slice(), "http://") {
        slice_chars(v.as_slice(), 7, v.len())
    } else {
        v
    };
    let pieces = split_chars(a0.as_slice(), '/');
    proof {
        lemma_split_len(a0@, '/');
    }
    let a = &pieces[0];
    let mut out: Vec<char> = Vec::new();
    match rfind_char(a.as_slice(), ':') {
        Some(i) => {
            proof {
                lemma_last_index_of(a@, ':', i as int);
            }
            let host = slice_chars(a.as_slice(), 0, i);
            push_chars(&mut out, host.as_slice());
        },
        None => {
            proof {
                if last_index_of(a@, ':') is Some {
                    let k = choose|k: int| 0 <= k < a@.len() && a@[k] == ':';
                    assert(a@[k] != ':');
                }
            }
            push_chars(&mut out, a.as_slice());
        },
    }
    push_str(&mut out, ":8444");
    string_from_chars(out.as_slice())
}

/// The address of the node's TUN interface: an operator's virtual address;
/// a client's first host address of its first route's mapped segment.
pub open spec fn spec_tun_address(is_operator: bool, virtual_ip: Option<String>, routes: Seq<TunnelRoute>) -> Result<
    Seq<char>,
    Seq<char>,
> {
    if is_operator {
        match virtual_ip {
            Some(v) => Ok(v@),
            None => Err("实施端缺少虚拟 IP"@),
        }
    } else if routes.len() == 0 {
        Err("普通客户端没有可用的映射网段"@)
    } else {
        spec_first_ip(routes[0].mapped_cidr@)
    }
}

/// The address to give the node's TUN interface.
pub fn tun_address(is_operator: bool, virtual_ip: Option<String>, routes: &[TunnelRoute]) -> (r: Result<
    String,
    String,
>)
    requires
        !is_operator && routes@.len() > 0 ==> !first_ip_overflows(routes@[0].mapped_cidr@),
    ensures
        match spec_tun_address(is_operator, virtual_ip, routes@) {
            Ok(a) => r matches Ok(s) && s@ == a,
            Err(m) => r matches Err(e) && e@ == m,
        },
{
    if is_operator {
        match virtual_ip {
            Some(v) => Ok(v),
            None => Err("实施端缺少虚拟 IP".to_owned()),
        }
    } else if routes.len() == 0 {
        Err("普通客户端没有可用的映射网段".to_owned())
    } else {
        extract_first_ip(routes[0].mapped_cidr.as_str())
    }
}

/// Checks that the server's reply to authentication is an `AuthAck`
/// frame; the error names the type that came instead.
pub fn check_ack_frame(t: FrameType) -> (r: Result<(), String>)
    ensures
        t == FrameType::AuthAck ==> r is Ok,
        t != FrameType::AuthAck ==> (r matches Err(e) && e@ == "期望 AuthAck 帧，收到 "@ + t.name()),
{
    if t == FrameType::AuthAck {
        Ok(())
    } else {
        let mut out: Vec<char> = Vec::new();
        push_str(&mut out, "期望 AuthAck 帧，收到 ");
        push_str(&mut out, t.as_str());
        Err(string_from_chars(out.as_slice()))
    }
}

/// What an authentication reply means: success, or the failure with the
/// server's reason (`未知错误` where it gave none).
pub fn ack_outcome(success: bool, error_message: Option<String>) -> (r: Result<(), String>)
    ensures
        success ==> r is Ok,
        !success ==> (r matches Err(e) && e@ == "认证失败: "@ + match error_message {
            Some(m) => m@,
            None => "未知错误"@,
        }),
{
    if success {
        return Ok(());
    }
    let mut out: Vec<char> = Vec::new();
    push_str(&mut out, "认证失败: ");
    match error_message {
        Some(m) => push_str(&mut out, m.as_str()),
        None => push_str(&mut out, "未知错误"),
    }
    Err(string_from_chars(out.as_slice()))
}

/// What a node does with a frame from the server.
#[derive(Debug, Clone, Copy, PartialEq, Eq, Structural)]
pub enum NodeAction {
    /// Write the IP packet to the TUN interface.
    WriteToTun,
    /// Replace the routes with those of the frame.
    UpdateRoutes,
    /// The server's keep-alive: nothing to do.
    Alive,
    /// The server ends the tunnel.
    Close,
    /// A frame a node does not expect: ignored.
    Ignore,
}

/// The node's action for a frame type.
pub open spec fn spec_node_action(t: FrameType) -> NodeAction {
    match t {
        FrameType::IpPacket => NodeAction::WriteToTun,
        FrameType::RouteUpdate => NodeAction::UpdateRoutes,
        FrameType::Heartbeat => NodeAction::Alive,
        FrameType::Disconnect => NodeAction::Close,
        _ => NodeAction::Ignore,
    }
}

/// What to do with a frame of type `t` from the server.
pub fn node_action(t: FrameType) -> (a: NodeAction)
    ensures
        a == spec_node_action(t),
{
    match t {
        FrameType::IpPacket => NodeAction::WriteToTun,
        FrameType::RouteUpdate => NodeAction::UpdateRoutes,
        FrameType::Heartbeat => NodeAction::Alive,
        FrameType::Disconnect => NodeAction::Close,
        _ => NodeAction::Ignore,
    }
}

} // verus!
