//! The network interfaces of a Windows machine, read from the output of
//! `ipconfig /all`.
//!
//! The output is a run of adapter sections; each starts with a title line
//! that names an adapter ("... adapter ...:" or "...适配器 ...:") and holds
//! lines for the IPv4 address, the subnet mask and the default gateway. An
//! adapter with an IPv4 address becomes an interface.

use vstd::prelude::*;
use vstd::utf8::{decode_utf8, valid_utf8};
use crate::ip::{cidr_from_ip_mask, spec_cidr_from_ip_mask};
use crate::scanner::{InterfaceType, NetworkInterface};
use crate::text::{chars_of, contains_seq, contains_str, ends_with, is_suffix, lemma_split_len, lines, lines_of, lowercase, split, split_chars, string_from_chars, strip_trailing, strip_trailing_chars, to_lowercase, trim_chars, trim_set, trim_set_chars, trimmed, utf8_lossy, utf8_lossy_string, TrimSet};

verus! {

/// The text of `ipconfig`'s output: the bytes as UTF-8 where they are valid
/// UTF-8, with U+FFFD for what is not.
pub fn decode_output(bytes: &[u8]) -> (s: String)
    ensures
        s@ == utf8_lossy(bytes@),
        valid_utf8(bytes@) ==> s@ == decode_utf8(bytes@),
{
    utf8_lossy_string(bytes)
}

/// The kind of a Windows adapter from its lowercase name. A `vEthernet`
/// adapter counts as Docker where `any_vethernet` holds, else only where
/// its name also holds `ws` (as WSL's does).
pub open spec fn windows_type(lower: Seq<char>, any_vethernet: bool) -> InterfaceType {
    if contains_seq(lower, "loopback"@) || contains_seq(lower, "环回"@) {
        InterfaceType::Loopback
    } else if contains_seq(lower, "wireless"@) || contains_seq(lower, "wi-fi"@) || contains_seq(lower, "无线"@) {
        InterfaceType::Wifi
    } else if contains_seq(lower, "vmware"@) || contains_seq(lower, "vmnet"@) {
        InterfaceType::Vmware
    } else if contains_seq(lower, "hyper-v"@) || contains_seq(lower, "vernet"@) {
        InterfaceType::HyperV
    } else if contains_seq(lower, "docker"@) || (contains_seq(lower, "vethernet"@) && (any_vethernet || contains_seq(lower, "ws"@))) {
        InterfaceType::Docker
    } else if contains_seq(lower, "vpn"@) || contains_seq(lower, "tun"@) || contains_seq(lower, "tap"@) {
        InterfaceType::Vpn
    } else {
        InterfaceType::Physical
    }
}

/// The kind of a Windows adapter from its lowercase name.
pub fn classify_windows(lower: &str, any_vethernet: bool) -> (t: InterfaceType)
    ensures
        t == windows_type(lower@, any_vethernet),
{
    let l = chars_of(lower);
    let s = l.as_slice();
    if contains_str(s, "loopback") || contains_str(s, "环回") {
        InterfaceType::Loopback
    } else if contains_str(s, "wireless") || contains_str(s, "wi-fi") || contains_str(s, "无线") {
        InterfaceType::Wifi
    } else if contains_str(s, "vmware") || contains_str(s, "vmnet") {
        InterfaceType::Vmware
    } else if contains_str(s, "hyper-v") || contains_str(s, "vernet") {
        InterfaceType::HyperV
    } else if contains_str(s, "docker") || (contains_str(s, "vethernet") && (any_vethernet || contains_str(s, "ws"))) {
        InterfaceType::Docker
    } else if contains_str(s, "vpn") || contains_str(s, "tun") || contains_str(s, "tap") {
        InterfaceType::Vpn
    } else {
        InterfaceType::Physical
    }
}

/// The kind of a Windows adapter from its name.
pub fn detect_type(name: &str, any_vethernet: bool) -> (t: InterfaceType)
    ensures
        t == windows_type(lowercase(name@), any_vethernet),
{
    let lower = to_lowercase(name);
    classify_windows(lower.as_str(), any_vethernet)
}

/// The value of a `label . . . : value` line: the text after the first
/// `:` (up to the next), trimmed and without `(` and `)` at either end;
/// nothing where it is empty.
pub open spec fn spec_split_value(line: Seq<char>) -> Option<Seq<char>> {
    let parts = split(line, ':');
    if parts.len() < 2 {
        None
    } else {
        let v = trimmed(parts[1]);
        if v.len() == 0 {
            None
        } else {
            Some(trim_set(v, TrimSet::Parens))
        }
    }
}

/// The value of a `label . . . : value` line.
pub fn split_value(line: &[char]) -> (r: Option<Vec<char>>)
    ensures
        match spec_split_value(line@) {
            Some(v) => r matches Some(x) && x@ == v,
            None => r is None,
        },
{
    let parts = split_chars(line, ':');
    if parts.len() < 2 {
        return None;
    }
    let v = trim_chars(parts[1].as_slice());
    if v.len() == 0 {
        return None;
    }
    Some(trim_set_chars(v.as_slice(), TrimSet::Parens))
}

/// An interface as texts: name, kind, address, segment, gateway.
pub type IfaceRec = (Seq<char>, InterfaceType, Seq<char>, Seq<char>, Option<Seq<char>>);

/// The adapter being read: name, address, mask, gateway.
pub type Pending = (Option<Seq<char>>, Option<Seq<char>>, Option<Seq<char>>, Option<Seq<char>>);

/// The segment of an address under a dotted-quad mask, or empty text.
pub open spec fn segment_of(ip: Seq<char>, mask: Option<Seq<char>>) -> Seq<char> {
    match mask {
        Some(m) => match spec_cidr_from_ip_mask(ip, m) {
            Ok(t) => t,
            Err(_) => Seq::empty(),
        },
        None => Seq::empty(),
    }
}

/// What finishing an adapter adds: one interface where it has a name and
/// an address.
pub open spec fn flushed(p: Pending, any_vethernet: bool) -> Seq<IfaceRec> {
    match (p.0, p.1) {
        (Some(name), Some(ip)) => seq![(name, windows_type(lowercase(name), any_vethernet), ip, segment_of(ip, p.2), p.3)],
        _ => Seq::empty(),
    }
}

/// Whether a trimmed line starts an adapter section.
pub open spec fn is_title(line: Seq<char>) -> bool {
    (contains_seq(line, "adapter"@) || contains_seq(line, "适配器"@)) && is_suffix(":"@, line)
}

/// Reading one more line of the output.
pub open spec fn step(acc: (Seq<IfaceRec>, Pending), raw: Seq<char>, any_vethernet: bool) -> (Seq<IfaceRec>, Pending) {
    let line = trimmed(raw);
    let p = acc.1;
    if is_title(line) {
        (acc.0 + flushed(p, any_vethernet), (Some(strip_trailing(line, ':')), None, None, None))
    } else {
        let lower = lowercase(line);
        let v = spec_split_value(line);
        if contains_seq(lower, "ipv4"@) || contains_seq(line, "IPv4 地址"@) {
            (acc.0, (p.0, if v is Some { v } else { p.1 }, p.2, p.3))
        } else if contains_seq(lower, "subnet mask"@) || contains_seq(line, "子网掩码"@) {
            (acc.0, (p.0, p.1, if v is Some { v } else { p.2 }, p.3))
        } else if contains_seq(lower, "default gateway"@) || contains_seq(line, "默认网关"@) {
            (acc.0, (p.0, p.1, p.2, if v is Some { v } else { p.3 }))
        } else {
            acc
        }
    }
}

/// Reading the lines `ls` in turn.
pub open spec fn read_all(ls: Seq<Seq<char>>, any_vethernet: bool) -> (Seq<IfaceRec>, Pending)
    decreases ls.len(),
{
    if ls.len() == 0 {
        (Seq::empty(), (None, None, None, None))
    } else {
        step(read_all(ls.drop_last(), any_vethernet), ls.last(), any_vethernet)
    }
}

/// Whether the output line `raw` is a `Default Gateway` line (in English or
/// Chinese) whose value is `g`.
pub open spec fn is_gateway_line(raw: Seq<char>, g: Seq<char>) -> bool {
    let line = trimmed(raw);
    &&& contains_seq(lowercase(line), "default gateway"@) || contains_seq(line, "默认网关"@)
    &&& spec_split_value(line) == Some(g)
}

/// The adapter being read depends on its own section only: where line `t`
/// is an adapter's title and no title follows it, the adapter read after
/// all the lines is the one read from line `t` on, as if nothing came
/// before; and right after its title it has its name and nothing else (no
/// address, mask or gateway is carried over from an earlier adapter).
pub proof fn lemma_adapter_section_local(ls: Seq<Seq<char>>, t: int, any_vethernet: bool)
    requires
        0 <= t < ls.len(),
        is_title(trimmed(ls[t])),
        forall|j: int| t < j < ls.len() ==> !is_title(trimmed(#[trigger] ls[j])),
    ensures
        read_all(ls, any_vethernet).1 == read_all(ls.subrange(t, ls.len() as int), any_vethernet).1,
        read_all(ls.subrange(t, t + 1), any_vethernet).1 == (
            Some(strip_trailing(trimmed(ls[t]), ':')),
            None::<Seq<char>>,
            None::<Seq<char>>,
            None::<Seq<char>>,
        ),
    decreases ls.len(),
{
    let n = ls.len() as int;
    let one = ls.subrange(t, t + 1);
    assert(one.drop_last() =~= Seq::<Seq<char>>::empty());
    assert(one.last() == ls[t]);
    if n - 1 == t {
        assert(ls.subrange(t, n) =~= one);
        assert(ls.last() == ls[t]);
    } else {
        let pre = ls.drop_last();
        assert forall|j: int| t < j < pre.len() implies !is_title(trimmed(#[trigger] pre[j])) by {
            assert(pre[j] == ls[j]);
        }
        assert(pre[t] == ls[t]);
        lemma_adapter_section_local(pre, t, any_vethernet);
        let sec = ls.subrange(t, n);
        assert(sec.drop_last() =~= pre.subrange(t, pre.len() as int));
        assert(sec.last() == ls.last());
        assert(!is_title(trimmed(ls[n - 1])));
        assert(ls.last() == ls[n - 1]);
    }
}

/// A gateway is known for the adapter being read only where a
/// `Default Gateway` line of its own section gives it: some line with that
/// value, after which no adapter title comes.
pub proof fn lemma_gateway_from_own_section(ls: Seq<Seq<char>>, g: Seq<char>, any_vethernet: bool)
    requires
        read_all(ls, any_vethernet).1.3 == Some(g),
    ensures
        exists|j: int|
            0 <= j < ls.len() && is_gateway_line(#[trigger] ls[j], g) && forall|i: int|
                j < i < ls.len() ==> !is_title(trimmed(#[trigger] ls[i])),
    decreases ls.len(),
{
    let n = ls.len() as int;
    let pre = ls.drop_last();
    let raw = ls.last();
    let line = trimmed(raw);
    let p = read_all(pre, any_vethernet).1;
    assert(ls.last() == ls[n - 1]);
    if is_title(line) {
        assert(read_all(ls, any_vethernet).1.3 is None);
    } else {
        let lower = lowercase(line);
        let v = spec_split_value(line);
        let ip_line = contains_seq(lower, "ipv4"@) || contains_seq(line, "IPv4 地址"@);
        let mask_line = contains_seq(lower, "subnet mask"@) || contains_seq(line, "子网掩码"@);
        let gw_line = contains_seq(lower, "default gateway"@) || contains_seq(line, "默认网关"@);
        if !ip_line && !mask_line && gw_line && v is Some {
            assert(v == Some(g));
            assert(is_gateway_line(ls[n - 1], g));
        } else {
            assert(p.3 == Some(g));
            lemma_gateway_from_own_section(pre, g, any_vethernet);
            let j = choose|j: int|
                0 <= j < pre.len() && is_gateway_line(#[trigger] pre[j], g) && forall|i: int|
                    j < i < pre.len() ==> !is_title(trimmed(#[trigger] pre[i]));
            assert(ls[j] == pre[j]);
            assert forall|i: int| j < i < ls.len() implies !is_title(trimmed(#[trigger] ls[i])) by {
                if i < n - 1 {
                    assert(ls[i] == pre[i]);
                }
            }
        }
    }
}

/// The interfaces that the output `text` lists.
pub open spec fn ipconfig_interfaces(text: Seq<char>, any_vethernet: bool) -> Seq<IfaceRec> {
    let r = read_all(lines(text), any_vethernet);
    r.0 + flushed(r.1, any_vethernet)
}

/// An interface as texts.
pub open spec fn rec_of(i: NetworkInterface) -> IfaceRec {
    (
        i.name@,
        i.iface_type,
        i.ip_address@,
        i.cidr@,
        match i.gateway {
            Some(g) => Some(g@),
            None => None,
        },
    )
}

pub open spec fn opt_view(o: Option<Vec<char>>) -> Option<Seq<char>> {
    match o {
        Some(v) => Some(v@),
        None => None,
    }
}

fn flush(
    out: &mut Vec<NetworkInterface>,
    name: &Option<Vec<char>>,
    ip: &Option<Vec<char>>,
    mask: &Option<Vec<char>>,
    gateway: &Option<Vec<char>>,
    any_vethernet: bool,
)
    ensures
        final(out)@.map_values(|i: NetworkInterface| rec_of(i)) == old(out)@.map_values(
            |i: NetworkInterface| rec_of(i),
        ) + flushed((opt_view(*name), opt_view(*ip), opt_view(*mask), opt_view(*gateway)), any_vethernet),
        forall|k: int| 0 <= k < final(out)@.len() ==> !(#[trigger] final(out)@[k]).recommended || (k < old(
            out,
        )@.len() && old(out)@[k].recommended),
{
    match (name, ip) {
        (Some(n), Some(a)) => {
            let name_s = string_from_chars(n.as_slice());
            let ip_s = string_from_chars(a.as_slice());
            let iface_type = detect_type(name_s.as_str(), any_vethernet);
            let cidr = match mask {
                Some(m) => {
                    let mask_s = string_from_chars(m.as_slice());
                    match cidr_from_ip_mask(ip_s.as_str(), mask_s.as_str()) {
                        Ok(c) => c,
                        Err(_) => String::new(),
                    }
                },
                None => String::new(),
            };
            let gw = match gateway {
                Some(g) => Some(string_from_chars(g.as_slice())),
                None => None,
            };
            let ghost before = out@;
            out.push(
                NetworkInterface {
                    name: name_s,
                    iface_type,
                    ip_address: ip_s,
                    cidr,
                    gateway: gw,
                    recommended: false,
                },
            );
            proof {
                assert(out@.map_values(|i: NetworkInterface| rec_of(i)) =~= before.map_values(
                    |i: NetworkInterface| rec_of(i),
                ) + flushed((opt_view(*name), opt_view(*ip), opt_view(*mask), opt_view(*gateway)), any_vethernet));
            }
        },
        _ => {
            assert(out@.map_values(|i: NetworkInterface| rec_of(i)) =~= old(out)@.map_values(
                |i: NetworkInterface| rec_of(i),
            ) + flushed((opt_view(*name), opt_view(*ip), opt_view(*mask), opt_view(*gateway)), any_vethernet));
        },
    }
}

/// The interfaces that the output of `ipconfig /all` lists, in order
/// (`any_vethernet` as for [`windows_type`]).
pub fn parse_ipconfig(text: &str, any_vethernet: bool) -> (r: Vec<NetworkInterface>)
    ensures
        r@.map_values(|i: NetworkInterface| rec_of(i)) == ipconfig_interfaces(text@, any_vethernet),
        forall|k: int| 0 <= k < r@.len() ==> !(#[trigger] r@[k]).recommended,
{
    let ls = lines_of(text);
    let ghost gl = lines(text@);
    let n = ls.len();
    let mut out: Vec<NetworkInterface> = Vec::new();
    let mut name: Option<Vec<char>> = None;
    let mut ip: Option<Vec<char>> = None;
    let mut mask: Option<Vec<char>> = None;
    let mut gateway: Option<Vec<char>> = None;
    let mut k: usize = 0;
    assert(gl.subrange(0, 0) =~= Seq::<Seq<char>>::empty());
    assert(out@.map_values(|i: NetworkInterface| rec_of(i)) =~= Seq::<IfaceRec>::empty());
    while k < n
        invariant
            n == ls@.len(),
            gl == lines(text@),
            n == gl.len(),
            forall|j: int| 0 <= j < n ==> (#[trigger] ls@[j])@ == gl[j],
            k <= n,
            (out@.map_values(|i: NetworkInterface| rec_of(i)), (
                opt_view(name),
                opt_view(ip),
                opt_view(mask),
                opt_view(gateway),
            )) == read_all(gl.subrange(0, k as int), any_vethernet),
            forall|j: int| 0 <= j < out@.len() ==> !(#[trigger] out@[j]).recommended,
        decreases n - k,
    {
        proof {
            assert(gl.subrange(0, k + 1).drop_last() =~= gl.subrange(0, k as int));
        }
        let line = trim_chars(ls[k].as_slice());
        let colon = chars_of(":");
        let title = (contains_str(line.as_slice(), "adapter") || contains_str(line.as_slice(), "适配器"))
            && ends_with(line.as_slice(), colon.as_slice());
        if title {
            flush(&mut out, &name, &ip, &mask, &gateway, any_vethernet);
            name = Some(strip_trailing_chars(line.as_slice(), ':'));
            ip = None;
            mask = None;
            gateway = None;
        } else {
            let line_s = string_from_chars(line.as_slice());
            let lower_s = to_lowercase(line_s.as_str());
            let lower = chars_of(lower_s.as_str());
            let v = split_value(line.as_slice());
            if contains_str(lower.as_slice(), "ipv4") || contains_str(line.as_slice(), "IPv4 地址") {
                if v.is_some() {
                    ip = v;
                }
            } else if contains_str(lower.as_slice(), "subnet mask") || contains_str(line.as_slice(), "子网掩码") {
                if v.is_some() {
                    mask = v;
                }
            } else if contains_str(lower.as_slice(), "default gateway") || contains_str(
                line.as_slice(),
                "默认网关",
            ) {
                if v.is_some() {
                    gateway = v;
                }
            }
        }
        k += 1;
    }
    flush(&mut out, &name, &ip, &mask, &gateway, any_vethernet);
    assert(gl.subrange(0, n as int) =~= gl);
    out
}

} // verus!
