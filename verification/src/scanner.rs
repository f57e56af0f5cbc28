//! The network interfaces of the local machine, as candidates for the
//! segments a node reports.
//!
//! On Linux the caller reads `/proc/net/dev`, `/proc/net/route`,
//! `/proc/net/fib_trie` and what `/sys/class/net/<name>` holds; the parsing
//! and the choice of address, segment and gateway of each interface happen
//! here. Physical and Wi-Fi interfaces are recommended, virtual ones are
//! optional, and loopback is left out.

use vstd::prelude::*;
use crate::ip::{ip_in_network, ipv4_text, netmask, prefix_from_netmask, prefix_of, spec_ip_to_u32, ip_to_u32, u32_to_ip};
use crate::text::{chars_of, contains_seq, contains_str, decimal, find_char, first_index_of, is_prefix, lemma_first_index_of, lemma_split_len, lines, lines_of, lowercase, parse_u8_chars, parse_unsigned, push_decimal, push_str, slice_chars, split, split_chars, starts_with_str, str_eq, string_from_chars, to_lowercase, trim_chars, trim_set, trim_set_chars, trimmed, words, words_of, TrimSet};

verus! {

/// The kind of a network interface.
#[derive(Debug, Clone, Copy, PartialEq, Eq, Structural)]
pub enum InterfaceType {
    Physical,
    Wifi,
    Vmware,
    HyperV,
    Docker,
    Vpn,
    Loopback,
    Unknown,
}

impl InterfaceType {
    /// The label shown to the user.
    pub open spec fn label(self) -> Seq<char> {
        match self {
            InterfaceType::Physical => "物理网卡"@,
            InterfaceType::Wifi => "Wi-Fi"@,
            InterfaceType::Vmware => "VMware"@,
            InterfaceType::HyperV => "Hyper-V"@,
            InterfaceType::Docker => "Docker"@,
            InterfaceType::Vpn => "VPN"@,
            InterfaceType::Loopback => "Loopback"@,
            InterfaceType::Unknown => "未知"@,
        }
    }

    /// The label shown to the user.
    pub fn as_str(&self) -> (s: &'static str)
        ensures
            s@ == self.label(),
    {
        match self {
            InterfaceType::Physical => "物理网卡",
            InterfaceType::Wifi => "Wi-Fi",
            InterfaceType::Vmware => "VMware",
            InterfaceType::HyperV => "Hyper-V",
            InterfaceType::Docker => "Docker",
            InterfaceType::Vpn => "VPN",
            InterfaceType::Loopback => "Loopback",
            InterfaceType::Unknown => "未知",
        }
    }

    /// Virtual interfaces (and unknown ones).
    pub fn is_virtual(&self) -> (r: bool)
        ensures
            r == (*self is Vmware || *self is HyperV || *self is Docker || *self is Vpn || *self is Unknown),
    {
        match self {
            InterfaceType::Vmware | InterfaceType::HyperV | InterfaceType::Docker | InterfaceType::Vpn
            | InterfaceType::Unknown => true,
            _ => false,
        }
    }

    /// Physical and Wi-Fi interfaces are the ones to report.
    pub fn is_recommended(&self) -> (r: bool)
        ensures
            r == (*self is Physical || *self is Wifi),
    {
        match self {
            InterfaceType::Physical | InterfaceType::Wifi => true,
            _ => false,
        }
    }
}

/// A network interface and what a node would report of it.
#[derive(Debug, Clone)]
pub struct NetworkInterface {
    pub name: String,
    pub iface_type: InterfaceType,
    /// IPv4 address (empty where none is known).
    pub ip_address: String,
    /// Segment, such as `192.168.1.0/24` (empty where none is known).
    pub cidr: String,
    pub gateway: Option<String>,
    /// Whether to report it.
    pub recommended: bool,
}

/// Whether `scan_interfaces` keeps an interface.
pub open spec fn kept(i: NetworkInterface) -> bool {
    i.iface_type != InterfaceType::Loopback && (i.ip_address@.len() > 0 || i.cidr@.len() > 0)
}

/// The interfaces of `found` that `scan_interfaces` keeps, in order.
pub open spec fn kept_interfaces(found: Seq<NetworkInterface>) -> Seq<NetworkInterface>
    decreases found.len(),
{
    if found.len() == 0 {
        Seq::empty()
    } else {
        let prev = kept_interfaces(found.drop_last());
        if kept(found.last()) {
            prev.push(found.last())
        } else {
            prev
        }
    }
}

/// The candidates among the interfaces `found`: loopback and interfaces
/// with neither address nor segment are left out; physical and Wi-Fi
/// interfaces are marked recommended, the others not.
pub fn scan_interfaces(found: Vec<NetworkInterface>) -> (r: Vec<NetworkInterface>)
    ensures
        r@.len() == kept_interfaces(found@).len(),
        forall|k: int|
            0 <= k < r@.len() ==> {
                let a = #[trigger] r@[k];
                let b = kept_interfaces(found@)[k];
                &&& a.name == b.name
                &&& a.iface_type == b.iface_type
                &&& a.ip_address == b.ip_address
                &&& a.cidr == b.cidr
                &&& a.gateway == b.gateway
                &&& a.recommended == (b.iface_type is Physical || b.iface_type is Wifi)
            },
{
    let ghost all = found@;
    let n = found.len();
    let mut out: Vec<NetworkInterface> = Vec::new();
    let mut rest = found;
    let mut taken: Vec<NetworkInterface> = Vec::new();
    let mut i: usize = 0;
    while i < n
        invariant
            n == all.len(),
            rest@ == all,
            i <= n,
            out@.len() == kept_interfaces(all.subrange(0, i as int)).len(),
            forall|k: int|
                0 <= k < out@.len() ==> {
                    let a = #[trigger] out@[k];
                    let b = kept_interfaces(all.subrange(0, i as int))[k];
                    &&& a.name == b.name
                    &&& a.iface_type == b.iface_type
                    &&& a.ip_address == b.ip_address
                    &&& a.cidr == b.cidr
                    &&& a.gateway == b.gateway
                    &&& a.recommended == (b.iface_type is Physical || b.iface_type is Wifi)
                },
        decreases n - i,
    {
        proof {
            assert(all.subrange(0, i + 1).drop_last() =~= all.subrange(0, i as int));
        }
        let f = &rest[i];
        let keep = f.iface_type != InterfaceType::Loopback && (!f.ip_address.as_str().is_empty()
            || !f.cidr.as_str().is_empty());
        if keep {
            out.push(
                NetworkInterface {
                    name: f.name.clone(),
                    iface_type: f.iface_type,
                    ip_address: f.ip_address.clone(),
                    cidr: f.cidr.clone(),
                    gateway: f.gateway.clone(),
                    recommended: f.iface_type.is_recommended(),
                },
            );
        }
        i += 1;
    }
    assert(all.subrange(0, n as int) =~= all);
    out
}

// ------------------------------------------------------------------
// Linux: /proc/net/dev
// ------------------------------------------------------------------

/// The interface names of `/proc/net/dev`: from the third line on, the
/// trimmed text before the first `:`, where not empty.
pub open spec fn dev_names(ls: Seq<Seq<char>>) -> Seq<Seq<char>>
    decreases ls.len(),
{
    if ls.len() <= 2 {
        Seq::empty()
    } else {
        let prev = dev_names(ls.drop_last());
        let name = trimmed(split(ls.last(), ':')[0]);
        if name.len() > 0 {
            prev.push(name)
        } else {
            prev
        }
    }
}

/// The interface names listed in the text of `/proc/net/dev`.
pub fn read_interface_names(content: &str) -> (r: Vec<String>)
    ensures
        r@.len() == dev_names(lines(content@)).len(),
        forall|k: int| 0 <= k < r@.len() ==> (#[trigger] r@[k])@ == dev_names(lines(content@))[k],
{
    let ls = lines_of(content);
    let ghost gl = lines(content@);
    let n = ls.len();
    let mut out: Vec<String> = Vec::new();
    let mut k: usize = 0;
    assert(gl.subrange(0, 0) =~= Seq::<Seq<char>>::empty());
    while k < n
        invariant
            n == ls@.len(),
            gl == lines(content@),
            n == gl.len(),
            forall|j: int| 0 <= j < n ==> (#[trigger] ls@[j])@ == gl[j],
            k <= n,
            out@.len() == dev_names(gl.subrange(0, k as int)).len(),
            forall|j: int| 0 <= j < out@.len() ==> (#[trigger] out@[j])@ == dev_names(gl.subrange(0, k as int))[j],
        decreases n - k,
    {
        proof {
            assert(gl.subrange(0, k + 1).drop_last() =~= gl.subrange(0, k as int));
        }
        if k >= 2 {
            let pieces = split_chars(ls[k].as_slice(), ':');
            proof {
                lemma_split_len(ls@[k as int]@, ':');
            }
            let name = trim_chars(pieces[0].as_slice());
            if name.len() > 0 {
                out.push(string_from_chars(name.as_slice()));
            }
        }
        k += 1;
    }
    assert(gl.subrange(0, n as int) =~= gl);
    out
}

// ------------------------------------------------------------------
// Linux: /proc/net/route
// ------------------------------------------------------------------

/// One line of `/proc/net/route`.
#[derive(Debug, Clone)]
pub struct RouteLine {
    pub iface: String,
    pub dest: u32,
    pub gateway: u32,
    pub mask: u32,
}

pub open spec fn is_hex_digit(c: char) -> bool {
    ('0' <= c && c <= '9') || ('a' <= c && c <= 'f') || ('A' <= c && c <= 'F')
}

pub open spec fn hex_digit_value(c: char) -> nat {
    if '0' <= c && c <= '9' {
        (c as int - '0' as int) as nat
    } else if 'a' <= c && c <= 'f' {
        (c as int - 'a' as int + 10) as nat
    } else {
        (c as int - 'A' as int + 10) as nat
    }
}

/// The number that the hexadecimal digits `s` denote.
pub open spec fn hex_value(s: Seq<char>) -> nat
    decreases s.len(),
{
    if s.len() == 0 {
        0
    } else {
        hex_value(s.drop_last()) * 16 + hex_digit_value(s.last())
    }
}

/// `u32::from_str_radix(s, 16)`: an optional `+`, then one or more hex
/// digits of value at most `u32::MAX`.
pub open spec fn parse_hex_u32(s: Seq<char>) -> Option<u32> {
    let d = unsigned_digits(s);
    if d.len() > 0 && all_hex(d) && hex_value(d) <= 0xffff_ffff {
        Some(hex_value(d) as u32)
    } else {
        None
    }
}

/// The digits of an unsigned number's text: without one leading `+`.
pub open spec fn unsigned_digits(s: Seq<char>) -> Seq<char> {
    if s.len() > 0 && s[0] == '+' {
        s.drop_first()
    } else {
        s
    }
}

pub open spec fn all_hex(d: Seq<char>) -> bool {
    forall|i: int| 0 <= i < d.len() ==> is_hex_digit(#[trigger] d[i])
}

/// The four bytes of `v` in reverse order.
pub open spec fn swap_bytes(v: u32) -> u32 {
    ((v % 256) * 16777216 + ((v / 256) % 256) * 65536 + ((v / 65536) % 256) * 256 + v / 16777216) as u32
}

/// `u32::from_le`: `v` itself on a little-endian machine, its bytes
/// reversed on a big-endian one.
pub open spec fn from_le(v: u32, little_endian: bool) -> u32 {
    if little_endian {
        v
    } else {
        swap_bytes(v)
    }
}

proof fn lemma_hex_value_prefix_le(s: Seq<char>, k: int)
    requires
        0 <= k <= s.len(),
    ensures
        hex_value(s.subrange(0, k)) <= hex_value(s),
    decreases s.len(),
{
    if k < s.len() {
        assert(s.drop_last().subrange(0, k) =~= s.subrange(0, k));
        lemma_hex_value_prefix_le(s.drop_last(), k);
    } else {
        assert(s.subrange(0, k) =~= s);
    }
}

/// A `/proc/net/route` field: hexadecimal text of a number stored in
/// little-endian order.
pub fn parse_hex_le(s: &[char], little_endian: bool) -> (r: Option<u32>)
    ensures
        r == match parse_hex_u32(s@) {
            Some(v) => Some(from_le(v, little_endian)),
            None => None::<u32>,
        },
{
    let n = s.len();
    let start: usize = if n > 0 && s[0] == '+' {
        1
    } else {
        0
    };
    let ghost d = unsigned_digits(s@);
    assert(d =~= s@.subrange(start as int, n as int));
    if start >= n {
        return None;
    }
    let mut acc: u64 = 0;
    let mut i: usize = start;
    while i < n
        invariant
            n == s@.len(),
            start <= i <= n,
            d == s@.subrange(start as int, n as int),
            d == unsigned_digits(s@),
            acc as nat == hex_value(s@.subrange(start as int, i as int)),
            acc <= 0xffff_ffff,
            forall|j: int| start <= j < i ==> is_hex_digit(#[trigger] s@[j]),
        decreases n - i,
    {
        let c = s[i];
        let dv: u64 = if '0' <= c && c <= '9' {
            (c as u32 - '0' as u32) as u64
        } else if 'a' <= c && c <= 'f' {
            (c as u32 - 'a' as u32 + 10) as u64
        } else if 'A' <= c && c <= 'F' {
            (c as u32 - 'A' as u32 + 10) as u64
        } else {
            assert(d[i - start] == c);
            assert(!is_hex_digit(d[i - start]));
            assert(!all_hex(d));
            return None;
        };
        assert(dv as nat == hex_digit_value(c));
        proof {
            assert(s@.subrange(start as int, i + 1).drop_last() =~= s@.subrange(start as int, i as int));
        }
        acc = acc * 16 + dv;
        assert(acc as nat == hex_value(s@.subrange(start as int, i + 1)));
        if acc > 0xffff_ffff {
            proof {
                if all_hex(d) {
                    lemma_hex_value_prefix_le(d, i + 1 - start);
                    assert(d.subrange(0, i + 1 - start) =~= s@.subrange(start as int, i + 1));
                }
            }
            return None;
        }
        i += 1;
    }
    assert(s@.subrange(start as int, n as int) == d);
    assert forall|j: int| 0 <= j < d.len() implies is_hex_digit(#[trigger] d[j]) by {
        assert(d[j] == s@[start + j]);
    }
    assert(all_hex(d));
    let v = acc as u32;
    if little_endian {
        Some(v)
    } else {
        Some(((v % 256) * 16777216 + ((v / 256) % 256) * 65536 + ((v / 65536) % 256) * 256 + v / 16777216))
    }
}

/// The routes of `/proc/net/route`: from the second line on, the lines of
/// at least eight fields whose destination, gateway and mask (fields 2, 3
/// and 8) parse.
pub open spec fn route_lines(ls: Seq<Seq<char>>, little_endian: bool) -> Seq<(Seq<char>, u32, u32, u32)>
    decreases ls.len(),
{
    if ls.len() <= 1 {
        Seq::empty()
    } else {
        let prev = route_lines(ls.drop_last(), little_endian);
        let f = words(ls.last());
        if f.len() >= 8 && parse_hex_u32(f[1]) is Some && parse_hex_u32(f[2]) is Some && parse_hex_u32(f[7]) is Some {
            prev.push(
                (
                    f[0],
                    from_le(parse_hex_u32(f[1])->0, little_endian),
                    from_le(parse_hex_u32(f[2])->0, little_endian),
                    from_le(parse_hex_u32(f[7])->0, little_endian),
                ),
            )
        } else {
            prev
        }
    }
}

pub open spec fn route_view(r: RouteLine) -> (Seq<char>, u32, u32, u32) {
    (r.iface@, r.dest, r.gateway, r.mask)
}

/// The routes listed in the text of `/proc/net/route`.
pub fn read_routes(content: &str, little_endian: bool) -> (r: Vec<RouteLine>)
    ensures
        r@.len() == route_lines(lines(content@), little_endian).len(),
        forall|k: int|
            0 <= k < r@.len() ==> route_view(#[trigger] r@[k]) == route_lines(lines(content@), little_endian)[k],
{
    let ls = lines_of(content);
    let ghost gl = lines(content@);
    let n = ls.len();
    let mut out: Vec<RouteLine> = Vec::new();
    let mut k: usize = 0;
    while k < n
        invariant
            n == ls@.len(),
            gl == lines(content@),
            n == gl.len(),
            forall|j: int| 0 <= j < n ==> (#[trigger] ls@[j])@ == gl[j],
            k <= n,
            out@.len() == route_lines(gl.subrange(0, k as int), little_endian).len(),
            forall|j: int|
                0 <= j < out@.len() ==> route_view(#[trigger] out@[j]) == route_lines(
                    gl.subrange(0, k as int),
                    little_endian,
                )[j],
        decreases n - k,
    {
        proof {
            assert(gl.subrange(0, k + 1).drop_last() =~= gl.subrange(0, k as int));
        }
        if k >= 1 {
            let f = words_of(ls[k].as_slice());
            if f.len() >= 8 {
                let dest = parse_hex_le(f[1].as_slice(), little_endian);
                let gateway = parse_hex_le(f[2].as_slice(), little_endian);
                let mask = parse_hex_le(f[7].as_slice(), little_endian);
                match (dest, gateway, mask) {
                    (Some(d), Some(g), Some(m)) => {
                        out.push(
                            RouteLine {
                                iface: string_from_chars(f[0].as_slice()),
                                dest: d,
                                gateway: g,
                                mask: m,
                            },
                        );
                    },
                    _ => {},
                }
            }
        }
        k += 1;
    }
    assert(gl.subrange(0, n as int) =~= gl);
    out
}

// ------------------------------------------------------------------
// Linux: /proc/net/fib_trie
// ------------------------------------------------------------------

/// The first word of `ws` that, without the characters other than digits
/// and `.` at either end, is an IPv4 address; that address.
pub open spec fn first_ipv4_in(ws: Seq<Seq<char>>) -> Option<u32>
    decreases ws.len(),
{
    if ws.len() == 0 {
        None
    } else {
        match spec_ip_to_u32(trim_set(ws[0], TrimSet::NotAddress)) {
            Ok(ip) => Some(ip),
            Err(_) => first_ipv4_in(ws.drop_first()),
        }
    }
}

/// The first IPv4 address among the words of `s`.
pub fn first_ipv4(s: &[char]) -> (r: Option<u32>)
    ensures
        r == first_ipv4_in(words(s@)),
{
    let ws = words_of(s);
    let ghost gw = words(s@);
    let n = ws.len();
    let mut k: usize = 0;
    assert(gw.subrange(0, n as int) =~= gw);
    while k < n
        invariant
            n == ws@.len(),
            gw == words(s@),
            n == gw.len(),
            forall|j: int| 0 <= j < n ==> (#[trigger] ws@[j])@ == gw[j],
            k <= n,
            first_ipv4_in(gw.subrange(k as int, n as int)) == first_ipv4_in(gw),
        decreases n - k,
    {
        proof {
            if k == 0 {
                assert(gw.subrange(0, n as int) =~= gw);
            }
            assert(gw.subrange(k as int, n as int).drop_first() =~= gw.subrange(k + 1, n as int));
            assert(gw.subrange(k as int, n as int)[0] == gw[k as int]);
        }
        let cand = trim_set_chars(ws[k].as_slice(), TrimSet::NotAddress);
        let text = string_from_chars(cand.as_slice());
        match ip_to_u32(text.as_str()) {
            Ok(ip) => {
                return Some(ip);
            },
            Err(_) => {},
        }
        k += 1;
    }
    proof {
        if n == 0 {
            assert(gw.subrange(0, 0) =~= gw);
        }
    }
    None
}

/// The prefix length of the first word `/N` whose `N` parses as a `u8`.
pub open spec fn first_prefix_in(ws: Seq<Seq<char>>) -> Option<u8>
    decreases ws.len(),
{
    if ws.len() == 0 {
        None
    } else if ws[0].len() > 0 && ws[0][0] == '/' && parse_unsigned(ws[0].drop_first(), 255) is Some {
        Some(parse_unsigned(ws[0].drop_first(), 255)->0 as u8)
    } else {
        first_prefix_in(ws.drop_first())
    }
}

/// The first `/N` prefix length among the words of `s`.
pub fn first_prefix(s: &[char]) -> (r: Option<u8>)
    ensures
        r == first_prefix_in(words(s@)),
{
    let ws = words_of(s);
    let ghost gw = words(s@);
    let n = ws.len();
    let mut k: usize = 0;
    assert(gw.subrange(0, n as int) =~= gw);
    while k < n
        invariant
            n == ws@.len(),
            gw == words(s@),
            n == gw.len(),
            forall|j: int| 0 <= j < n ==> (#[trigger] ws@[j])@ == gw[j],
            k <= n,
            first_prefix_in(gw.subrange(k as int, n as int)) == first_prefix_in(gw),
        decreases n - k,
    {
        proof {
            assert(gw.subrange(k as int, n as int).drop_first() =~= gw.subrange(k + 1, n as int));
            assert(gw.subrange(k as int, n as int)[0] == gw[k as int]);
        }
        let w = &ws[k];
        if w.len() > 0 && w[0] == '/' {
            let rest = slice_chars(w.as_slice(), 1, w.len());
            assert(rest@ =~= w@.drop_first());
            match parse_u8_chars(rest.as_slice()) {
                Some(p) => {
                    return Some(p);
                },
                None => {},
            }
        }
        k += 1;
    }
    assert(gw.subrange(n as int, n as int) =~= Seq::<Seq<char>>::empty());
    None
}

/// The local host addresses of `/proc/net/fib_trie`: for each line that
/// holds `host LOCAL` after a first line, the first address on the line
/// before it, taken as a `/32`. Where `hosts_only` holds, only those whose
/// line gives the prefix length 32 (or none) count.
pub open spec fn local_ips(ls: Seq<Seq<char>>, hosts_only: bool) -> Seq<(u32, u8)>
    decreases ls.len(),
{
    if ls.len() <= 1 {
        Seq::empty()
    } else {
        let prev = local_ips(ls.drop_last(), hosts_only);
        let line = ls.last();
        let before = ls[ls.len() - 2];
        let prefix: u8 = match first_prefix_in(words(line)) {
            Some(p) => p,
            None => 32,
        };
        if contains_seq(line, "host LOCAL"@) && first_ipv4_in(words(before)) is Some && (!hosts_only || prefix == 32) {
            prev.push((first_ipv4_in(words(before))->0, 32u8))
        } else {
            prev
        }
    }
}

/// The local host addresses listed in the text of `/proc/net/fib_trie`.
pub fn read_local_ips(content: &str, hosts_only: bool) -> (r: Vec<(u32, u8)>)
    ensures
        r@ == local_ips(lines(content@), hosts_only),
{
    let ls = lines_of(content);
    let ghost gl = lines(content@);
    let n = ls.len();
    let mut out: Vec<(u32, u8)> = Vec::new();
    let mut k: usize = 0;
    while k < n
        invariant
            n == ls@.len(),
            gl == lines(content@),
            n == gl.len(),
            forall|j: int| 0 <= j < n ==> (#[trigger] ls@[j])@ == gl[j],
            k <= n,
            out@ == local_ips(gl.subrange(0, k as int), hosts_only),
        decreases n - k,
    {
        proof {
            let sub = gl.subrange(0, k + 1);
            assert(sub.drop_last() =~= gl.subrange(0, k as int));
            if k >= 1 {
                assert(sub[sub.len() - 2] == gl[k - 1]);
            }
        }
        if k >= 1 && contains_str(ls[k].as_slice(), "host LOCAL") {
            match first_ipv4(ls[k - 1].as_slice()) {
                Some(ip) => {
                    let prefix = match first_prefix(ls[k].as_slice()) {
                        Some(p) => p,
                        None => 32,
                    };
                    if !hosts_only || prefix == 32 {
                        out.push((ip, 32));
                    }
                },
                None => {},
            }
        }
        k += 1;
    }
    assert(gl.subrange(0, n as int) =~= gl);
    out
}

// ------------------------------------------------------------------
// Linux: the kind of an interface
// ------------------------------------------------------------------

/// What `/sys/class/net/<name>` says of an interface.
#[derive(Debug, Clone)]
pub struct LinkInfo {
    pub name: String,
    /// `wireless` exists.
    pub has_wireless: bool,
    /// The name of the driver that `device/driver` links to.
    pub driver: Option<String>,
    /// `device` exists.
    pub has_device: bool,
}

/// The kind of a Linux interface, from its name, its lowercase name, the
/// lowercase name of its driver, and what `/sys` holds: `lo` is loopback;
/// a `wireless` entry means Wi-Fi; then by name (`docker`, `br-`, `veth`;
/// `vmnet`; `vernet`; `tun`, `tap`, `ppp`, `wg`); then by driver
/// (`hv_netvsc`; `vmxnet` or `vmware`); a `device` entry means physical.
pub open spec fn linux_type(
    name: Seq<char>,
    has_wireless: bool,
    lower: Seq<char>,
    lower_driver: Option<Seq<char>>,
    has_device: bool,
) -> InterfaceType {
    if name == "lo"@ {
        InterfaceType::Loopback
    } else if has_wireless {
        InterfaceType::Wifi
    } else if is_prefix("docker"@, lower) || is_prefix("br-"@, lower) || is_prefix("veth"@, lower) {
        InterfaceType::Docker
    } else if is_prefix("vmnet"@, lower) {
        InterfaceType::Vmware
    } else if is_prefix("vernet"@, lower) {
        InterfaceType::HyperV
    } else if is_prefix("tun"@, lower) || is_prefix("tap"@, lower) || is_prefix("ppp"@, lower) || is_prefix(
        "wg"@,
        lower,
    ) {
        InterfaceType::Vpn
    } else if lower_driver matches Some(d) && contains_seq(d, "hv_netvsc"@) {
        InterfaceType::HyperV
    } else if lower_driver matches Some(d) && (contains_seq(d, "vmxnet"@) || contains_seq(d, "vmware"@)) {
        InterfaceType::Vmware
    } else if has_device {
        InterfaceType::Physical
    } else {
        InterfaceType::Unknown
    }
}

/// The kind of a Linux interface from its names and `/sys` facts, the
/// names already lowercase.
pub fn classify_linux(
    name: &str,
    has_wireless: bool,
    lower: &str,
    lower_driver: Option<&str>,
    has_device: bool,
) -> (t: InterfaceType)
    ensures
        t == linux_type(
            name@,
            has_wireless,
            lower@,
            match lower_driver {
                Some(d) => Some(d@),
                None => None,
            },
            has_device,
        ),
{
    if str_eq(name, "lo") {
        return InterfaceType::Loopback;
    }
    if has_wireless {
        return InterfaceType::Wifi;
    }
    let l = chars_of(lower);
    if starts_with_str(l.as_slice(), "docker") || starts_with_str(l.as_slice(), "br-") || starts_with_str(
        l.as_slice(),
        "veth",
    ) {
        return InterfaceType::Docker;
    }
    if starts_with_str(l.as_slice(), "vmnet") {
        return InterfaceType::Vmware;
    }
    if starts_with_str(l.as_slice(), "vernet") {
        return InterfaceType::HyperV;
    }
    if starts_with_str(l.as_slice(), "tun") || starts_with_str(l.as_slice(), "tap") || starts_with_str(
        l.as_slice(),
        "ppp",
    ) || starts_with_str(l.as_slice(), "wg") {
        return InterfaceType::Vpn;
    }
    match lower_driver {
        Some(d) => {
            let dv = chars_of(d);
            if contains_str(dv.as_slice(), "hv_netvsc") {
                return InterfaceType::HyperV;
            }
            if contains_str(dv.as_slice(), "vmxnet") || contains_str(dv.as_slice(), "vmware") {
                return InterfaceType::Vmware;
            }
        },
        None => {},
    }
    if has_device {
        InterfaceType::Physical
    } else {
        InterfaceType::Unknown
    }
}

/// The kind of a Linux interface.
pub fn detect_type(link: &LinkInfo) -> (t: InterfaceType)
    ensures
        t == linux_type(
            link.name@,
            link.has_wireless,
            lowercase(link.name@),
            match link.driver {
                Some(d) => Some(lowercase(d@)),
                None => None,
            },
            link.has_device,
        ),
{
    let lower = to_lowercase(link.name.as_str());
    match &link.driver {
        Some(d) => {
            let ld = to_lowercase(d.as_str());
            classify_linux(link.name.as_str(), link.has_wireless, lower.as_str(), Some(ld.as_str()), link.has_device)
        },
        None => classify_linux(link.name.as_str(), link.has_wireless, lower.as_str(), None, link.has_device),
    }
}

// ------------------------------------------------------------------
// Linux: putting it together
// ------------------------------------------------------------------

/// The segment route of an interface among `rs`: of the routes whose mask
/// is neither 0 nor /32, one with the largest mask (the last of them).
pub open spec fn best_subnet(rs: Seq<RouteLine>, iface: Seq<char>) -> Option<RouteLine>
    decreases rs.len(),
{
    if rs.len() == 0 {
        None
    } else {
        let prev = best_subnet(rs.drop_last(), iface);
        let r = rs.last();
        if r.iface@ == iface && r.mask != 0 && r.mask != 0xffff_ffff && (prev matches Some(p) ==> r.mask
            >= p.mask) {
            Some(r)
        } else {
            prev
        }
    }
}

/// Whether `r` is a segment route of the interface `iface`: its mask is
/// neither 0 (a default route) nor /32 (a host route).
pub open spec fn is_subnet_route(r: RouteLine, iface: Seq<char>) -> bool {
    r.iface@ == iface && r.mask != 0 && r.mask != 0xffff_ffff
}

/// The segment route chosen for an interface is one of its segment routes
/// whose mask is at least that of every other one (the last such where
/// several share the largest mask); there is none only where the interface
/// has no segment route.
pub proof fn lemma_best_subnet_is_largest(rs: Seq<RouteLine>, iface: Seq<char>)
    ensures
        best_subnet(rs, iface) matches Some(b) ==> exists|k: int|
            0 <= k < rs.len() && rs[k] == b && is_subnet_route(b, iface) && (forall|j: int|
                0 <= j < rs.len() && #[trigger] is_subnet_route(rs[j], iface) ==> rs[j].mask <= b.mask) && (
            forall|j: int| k < j < rs.len() && #[trigger] is_subnet_route(rs[j], iface) ==> rs[j].mask < b.mask),
        best_subnet(rs, iface) is None ==> forall|j: int| 0 <= j < rs.len() ==> !#[trigger] is_subnet_route(rs[j], iface),
    decreases rs.len(),
{
    if rs.len() > 0 {
        let pre = rs.drop_last();
        lemma_best_subnet_is_largest(pre, iface);
        let n = rs.len() - 1;
        assert forall|j: int| 0 <= j < n implies rs[j] == pre[j] by {}
        let r = rs.last();
        if is_subnet_route(r, iface) && (best_subnet(pre, iface) matches Some(p) ==> r.mask >= p.mask) {
            assert(best_subnet(rs, iface) == Some(r));
            assert(rs[n] == r);
            match best_subnet(pre, iface) {
                Some(p) => {
                    let k0 = choose|k: int|
                        0 <= k < pre.len() && pre[k] == p && is_subnet_route(p, iface) && (forall|j: int|
                            0 <= j < pre.len() && #[trigger] is_subnet_route(pre[j], iface) ==> pre[j].mask <= p.mask)
                            && (forall|j: int|
                            k < j < pre.len() && #[trigger] is_subnet_route(pre[j], iface) ==> pre[j].mask < p.mask);
                    assert forall|j: int| 0 <= j < rs.len() && #[trigger] is_subnet_route(rs[j], iface) implies rs[j].mask
                        <= r.mask by {
                        if j < n {
                            assert(pre[j] == rs[j]);
                        }
                    }
                },
                None => {
                    assert forall|j: int| 0 <= j < rs.len() && #[trigger] is_subnet_route(rs[j], iface) implies rs[j].mask
                        <= r.mask by {
                        if j < n {
                            assert(pre[j] == rs[j]);
                        }
                    }
                },
            }
        } else {
            assert(best_subnet(rs, iface) == best_subnet(pre, iface));
            match best_subnet(pre, iface) {
                Some(p) => {
                    let k0 = choose|k: int|
                        0 <= k < pre.len() && pre[k] == p && is_subnet_route(p, iface) && (forall|j: int|
                            0 <= j < pre.len() && #[trigger] is_subnet_route(pre[j], iface) ==> pre[j].mask <= p.mask)
                            && (forall|j: int|
                            k < j < pre.len() && #[trigger] is_subnet_route(pre[j], iface) ==> pre[j].mask < p.mask);
                    assert(rs[k0] == p);
                    assert forall|j: int| 0 <= j < rs.len() && #[trigger] is_subnet_route(rs[j], iface) implies rs[j].mask
                        <= p.mask by {
                        if j < n {
                            assert(pre[j] == rs[j]);
                        }
                    }
                    assert forall|j: int| k0 < j < rs.len() && #[trigger] is_subnet_route(rs[j], iface) implies rs[j].mask
                        < p.mask by {
                        if j < n {
                            assert(pre[j] == rs[j]);
                        }
                    }
                },
                None => {
                    assert forall|j: int| 0 <= j < rs.len() implies !#[trigger] is_subnet_route(rs[j], iface) by {
                        if j < n {
                            assert(pre[j] == rs[j]);
                        }
                    }
                },
            }
        }
    }
}

/// The default route of an interface among `rs`: the first with
/// destination and mask 0.
pub open spec fn default_route(rs: Seq<RouteLine>, iface: Seq<char>) -> Option<RouteLine>
    decreases rs.len(),
{
    if rs.len() == 0 {
        None
    } else if rs[0].iface@ == iface && rs[0].dest == 0 && rs[0].mask == 0 {
        Some(rs[0])
    } else {
        default_route(rs.drop_first(), iface)
    }
}

/// The first of the local addresses in the segment `network/prefix`.
pub open spec fn first_local_in(ips: Seq<(u32, u8)>, network: u32, prefix: nat) -> Option<u32>
    decreases ips.len(),
{
    if ips.len() == 0 {
        None
    } else if (ips[0].0 & netmask(prefix)) == (network & netmask(prefix)) {
        Some(ips[0].0)
    } else {
        first_local_in(ips.drop_first(), network, prefix)
    }
}

/// The segment of an interface: its segment route's destination and the
/// prefix length of its mask (24 where the mask is not a netmask), or
/// nothing.
pub open spec fn iface_segment(rs: Seq<RouteLine>, iface: Seq<char>) -> (u32, nat) {
    match best_subnet(rs, iface) {
        Some(r) => (
            r.dest,
            match prefix_of(r.mask) {
                Some(p) => p,
                None => 24,
            },
        ),
        None => (0, 0),
    }
}

/// What a scan reports of one interface.
pub open spec fn linux_interface_ok(
    out: NetworkInterface,
    link: LinkInfo,
    rs: Seq<RouteLine>,
    ips: Seq<(u32, u8)>,
) -> bool {
    let (network, prefix) = iface_segment(rs, link.name@);
    &&& out.name@ == link.name@
    &&& out.iface_type == linux_type(
        link.name@,
        link.has_wireless,
        lowercase(link.name@),
        match link.driver {
            Some(d) => Some(lowercase(d@)),
            None => None,
        },
        link.has_device,
    )
    &&& out.ip_address@ == match first_local_in(ips, network, prefix) {
        Some(ip) => ipv4_text(ip),
        None => Seq::empty(),
    }
    &&& out.cidr@ == if prefix > 0 {
        ipv4_text(network) + seq!['/'] + decimal(prefix)
    } else {
        Seq::empty()
    }
    &&& (out.gateway is Some) == (default_route(rs, link.name@) is Some && default_route(
        rs,
        link.name@,
    )->0.gateway != 0)
    &&& (out.gateway is Some ==> out.gateway->0@ == ipv4_text(default_route(rs, link.name@)->0.gateway))
    &&& !out.recommended
}

fn find_best_subnet(rs: &[RouteLine], iface: &str) -> (r: Option<usize>)
    ensures
        match best_subnet(rs@, iface@) {
            Some(b) => r matches Some(k) && k < rs@.len() && rs@[k as int] == b,
            None => r is None,
        },
{
    let n = rs.len();
    let mut best: Option<usize> = None;
    let mut i: usize = 0;
    while i < n
        invariant
            n == rs@.len(),
            i <= n,
            match best_subnet(rs@.subrange(0, i as int), iface@) {
                Some(b) => best matches Some(k) && k < i && rs@[k as int] == b,
                None => best is None,
            },
        decreases n - i,
    {
        proof {
            assert(rs@.subrange(0, i + 1).drop_last() =~= rs@.subrange(0, i as int));
        }
        let r = &rs[i];
        if str_eq(r.iface.as_str(), iface) && r.mask != 0 && r.mask != 0xffff_ffff {
            let better = match best {
                Some(k) => r.mask >= rs[k].mask,
                None => true,
            };
            if better {
                best = Some(i);
            }
        }
        i += 1;
    }
    assert(rs@.subrange(0, n as int) =~= rs@);
    best
}

fn find_default_route(rs: &[RouteLine], iface: &str) -> (r: Option<usize>)
    ensures
        match default_route(rs@, iface@) {
            Some(d) => r matches Some(k) && k < rs@.len() && rs@[k as int] == d,
            None => r is None,
        },
{
    let n = rs.len();
    let mut i: usize = 0;
    assert(rs@.subrange(0, n as int) =~= rs@);
    while i < n
        invariant
            n == rs@.len(),
            i <= n,
            default_route(rs@.subrange(i as int, n as int), iface@) == default_route(rs@, iface@),
        decreases n - i,
    {
        proof {
            assert(rs@.subrange(i as int, n as int).drop_first() =~= rs@.subrange(i + 1, n as int));
            assert(rs@.subrange(i as int, n as int)[0] == rs@[i as int]);
        }
        let r = &rs[i];
        if str_eq(r.iface.as_str(), iface) && r.dest == 0 && r.mask == 0 {
            return Some(i);
        }
        i += 1;
    }
    None
}

fn find_local_in(ips: &[(u32, u8)], network: u32, prefix: u8) -> (r: Option<u32>)
    requires
        prefix <= 32,
    ensures
        r == first_local_in(ips@, network, prefix as nat),
{
    let n = ips.len();
    let mut i: usize = 0;
    assert(ips@.subrange(0, n as int) =~= ips@);
    while i < n
        invariant
            n == ips@.len(),
            prefix <= 32,
            i <= n,
            first_local_in(ips@.subrange(i as int, n as int), network, prefix as nat) == first_local_in(
                ips@,
                network,
                prefix as nat,
            ),
        decreases n - i,
    {
        proof {
            assert(ips@.subrange(i as int, n as int).drop_first() =~= ips@.subrange(i + 1, n as int));
            assert(ips@.subrange(i as int, n as int)[0] == ips@[i as int]);
        }
        let (ip, _) = ips[i];
        if ip_in_network(ip, network, prefix) {
            return Some(ip);
        }
        i += 1;
    }
    None
}

/// The interfaces of a Linux machine, from its links, the routes of
/// `/proc/net/route` and the local addresses of `/proc/net/fib_trie`: for
/// each link, its kind, the first local address in its segment, its
/// segment, and its default gateway.
pub fn scan_platform(links: &[LinkInfo], routes: &[RouteLine], local: &[(u32, u8)]) -> (r: Vec<
    NetworkInterface,
>)
    ensures
        r@.len() == links@.len(),
        forall|k: int| 0 <= k < r@.len() ==> linux_interface_ok(#[trigger] r@[k], links@[k], routes@, local@),
{
    let n = links.len();
    let mut out: Vec<NetworkInterface> = Vec::new();
    let mut k: usize = 0;
    while k < n
        invariant
            n == links@.len(),
            k <= n,
            out@.len() == k,
            forall|j: int| 0 <= j < k ==> linux_interface_ok(#[trigger] out@[j], links@[j], routes@, local@),
        decreases n - k,
    {
        let link = &links[k];
        let name = link.name.as_str();
        let iface_type = detect_type(link);
        let (network, prefix): (u32, u8) = match find_best_subnet(routes, name) {
            Some(b) => {
                let p = match prefix_from_netmask(routes[b].mask) {
                    Ok(p) => p,
                    Err(_) => 24,
                };
                (routes[b].dest, p)
            },
            None => (0, 0),
        };
        proof {
            if best_subnet(routes@, name@) is Some {
                let m = best_subnet(routes@, name@)->0.mask;
                if prefix_of(m) is Some {
                    assert(prefix_of(m)->0 <= 32);
                }
            }
        }
        let ip_address = match find_local_in(local, network, prefix) {
            Some(ip) => u32_to_ip(ip),
            None => String::new(),
        };
        let cidr = if prefix > 0 {
            let mut v: Vec<char> = Vec::new();
            crate::ip::push_ipv4(&mut v, network);
            v.push('/');
            push_decimal(&mut v, prefix as u64);
            string_from_chars(v.as_slice())
        } else {
            String::new()
        };
        let gateway = match find_default_route(routes, name) {
            Some(d) => if routes[d].gateway != 0 {
                Some(u32_to_ip(routes[d].gateway))
            } else {
                None
            },
            None => None,
        };
        let item = NetworkInterface {
            name: link.name.clone(),
            iface_type,
            ip_address,
            cidr,
            gateway,
            recommended: false,
        };
        proof {
            let (gn, gp) = iface_segment(routes@, name@);
            assert(gn == network && gp == prefix as nat);
            if prefix > 0 {
                assert(item.cidr@ == ipv4_text(network) + seq!['/'] + decimal(prefix as nat));
            }
            assert(linux_interface_ok(item, links@[k as int], routes@, local@));
        }
        out.push(item);
        k += 1;
    }
    out
}

} // verus!
