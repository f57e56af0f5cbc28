//! The desktop application's core: what it shows of its session, the
//! results of its connectivity checks, and its own address conversion.
//!
//! The desktop application reads addresses more loosely than [`crate::ip`]:
//! each of the four dotted pieces is whatever `str::parse::<u32>` accepts
//! (an optional `+`, leading zeros) as long as it is at most 255.

use vstd::prelude::*;
use vstd::utf8::{decode_utf8, encode_utf8, encode_utf8_decode_utf8, is_char_boundary};
use crate::connection::ConnectionStatus;
use crate::ip::{from_octets, ipv4_text, lemma_octets_of, netmask, netmask_from_prefix, octet0, octet1, octet2, octet3, u32_to_ip};
use crate::models::RouteEntry;
use crate::api::SegmentSummary;
use crate::scanner::{kept_interfaces, scan_interfaces, InterfaceType, NetworkInterface};
use crate::text::{chars_of, contains_seq, lemma_decimal_facts, lemma_split_append, lemma_split_single, contains_str, decimal, lines, lines_of, parse_u32_text, parse_unsigned, push_chars, push_decimal, push_str, split, split_chars, string_from_chars, u32_parse_error};
use crate::tunnel::TunnelRoute;
use crate::tunnel_client::{get_tunnel_addr, spec_tunnel_addr, TunnelStatus};

verus! {

// ------------------------------------------------------------------
// Loose dotted-quad addresses
// ------------------------------------------------------------------

/// The largest `u32`.
pub open spec fn u32_max() -> nat {
    0xffff_ffff
}

/// The value of one dotted piece: what `str::parse::<u32>` gives, where it
/// is at most 255.
pub open spec fn octet_value(part: Seq<char>) -> Option<nat> {
    match parse_unsigned(part, u32_max()) {
        Some(v) => if v <= 255 {
            Some(v)
        } else {
            None
        },
        None => None,
    }
}

/// The address that the desktop application reads from `s`: four pieces
/// between dots, each an [`octet_value`].
pub open spec fn loose_ipv4(s: Seq<char>) -> Option<u32> {
    let p = split(s, '.');
    if p.len() == 4 && octet_value(p[0]) is Some && octet_value(p[1]) is Some && octet_value(p[2]) is Some
        && octet_value(p[3]) is Some {
        Some(
            from_octets(
                octet_value(p[0])->0,
                octet_value(p[1])->0,
                octet_value(p[2])->0,
                octet_value(p[3])->0,
            ) as u32,
        )
    } else {
        None
    }
}

/// One dotted piece.
fn octet(part: &Vec<char>) -> (r: Option<u32>)
    ensures
        match octet_value(part@) {
            Some(v) => r == Some(v as u32),
            None => r is None,
        },
{
    let text = string_from_chars(part.as_slice());
    match parse_u32_text(text.as_str()) {
        Ok(v) => if v <= 255 {
            Some(v)
        } else {
            None
        },
        Err(_) => None,
    }
}

/// Reads an address the desktop application's way (see [`loose_ipv4`]).
pub fn ip_to_u32(ip: &str) -> (r: Option<u32>)
    ensures
        r == loose_ipv4(ip@),
{
    let v = chars_of(ip);
    let parts = split_chars(v.as_slice(), '.');
    if parts.len() != 4 {
        return None;
    }
    let a = match octet(&parts[0]) {
        Some(x) => x,
        None => {
            return None;
        },
    };
    let b = match octet(&parts[1]) {
        Some(x) => x,
        None => {
            return None;
        },
    };
    let c = match octet(&parts[2]) {
        Some(x) => x,
        None => {
            return None;
        },
    };
    let d = match octet(&parts[3]) {
        Some(x) => x,
        None => {
            return None;
        },
    };
    Some(a * 16777216 + b * 65536 + c * 256 + d)
}

// ------------------------------------------------------------------
// Segments
// ------------------------------------------------------------------

/// The prefix length after the `/` of a segment, as `str::parse::<u32>`
/// reads it.
pub open spec fn prefix_value(p: Seq<char>) -> Option<nat> {
    parse_unsigned(p, u32_max())
}

/// Whether reading the segment `cidr` stays clear of a prefix length above
/// 32 (which the mask computation does not take): where the segment has one
/// `/`, a readable address before it and a number after it, that number is
/// at most 32.
pub open spec fn prefix_in_range(cidr: Seq<char>) -> bool {
    let p = split(cidr, '/');
    (p.len() == 2 && loose_ipv4(p[0]) is Some && prefix_value(p[1]) is Some) ==> prefix_value(p[1])->0 <= 32
}

/// What [`ip_in_cidr`] gives: whether `ip` lies in the segment `cidr`, or
/// the first thing wrong, in this order: the segment's shape, its address,
/// its prefix length, the address `ip`.
pub open spec fn cidr_membership(ip: Seq<char>, cidr: Seq<char>) -> Result<bool, Seq<char>> {
    let p = split(cidr, '/');
    if p.len() != 2 {
        Err("CIDR 格式错误: "@ + cidr)
    } else {
        match loose_ipv4(p[0]) {
            None => Err("IP 格式错误: "@ + p[0]),
            Some(net) => match prefix_value(p[1]) {
                None => Err("前缀长度解析失败: "@ + u32_parse_error(p[1])),
                Some(pre) => match loose_ipv4(ip) {
                    None => Err("IP 格式错误: "@ + ip),
                    Some(t) => Ok((t & netmask(pre)) == (net & netmask(pre))),
                },
            },
        }
    }
}

/// Whether the address `ip` lies in the segment `cidr`.
pub fn ip_in_cidr(ip: &str, cidr: &str) -> (r: Result<bool, String>)
    requires
        prefix_in_range(cidr@),
    ensures
        match r {
            Ok(b) => cidr_membership(ip@, cidr@) == Ok::<bool, Seq<char>>(b),
            Err(e) => cidr_membership(ip@, cidr@) == Err::<bool, Seq<char>>(e@),
        },
{
    let v = chars_of(cidr);
    let parts = split_chars(v.as_slice(), '/');
    if parts.len() != 2 {
        let mut m: Vec<char> = Vec::new();
        push_str(&mut m, "CIDR 格式错误: ");
        push_str(&mut m, cidr);
        return Err(string_from_chars(m.as_slice()));
    }
    let net_text = string_from_chars(parts[0].as_slice());
    let network = match ip_to_u32(net_text.as_str()) {
        Some(x) => x,
        None => {
            let mut m: Vec<char> = Vec::new();
            push_str(&mut m, "IP 格式错误: ");
            push_str(&mut m, net_text.as_str());
            return Err(string_from_chars(m.as_slice()));
        },
    };
    let prefix_text = string_from_chars(parts[1].as_slice());
    let prefix = match parse_u32_text(prefix_text.as_str()) {
        Ok(p) => p,
        Err(e) => {
            let mut m: Vec<char> = Vec::new();
            push_str(&mut m, "前缀长度解析失败: ");
            push_str(&mut m, e.as_str());
            return Err(string_from_chars(m.as_slice()));
        },
    };
    let mask = netmask_from_prefix(prefix as u8);
    let target = match ip_to_u32(ip) {
        Some(x) => x,
        None => {
            let mut m: Vec<char> = Vec::new();
            push_str(&mut m, "IP 格式错误: ");
            push_str(&mut m, ip);
            return Err(string_from_chars(m.as_slice()));
        },
    };
    Ok((target & mask) == (network & mask))
}

/// Whether converting within the pair `real_cidr` / `mapped_cidr` stays
/// clear of a prefix length above 32: where both segments have one `/`,
/// both addresses before it are readable and the real one's prefix length
/// is a number, that number is at most 32.
pub open spec fn pair_prefix_in_range(real_cidr: Seq<char>, mapped_cidr: Seq<char>) -> bool {
    let rp = split(real_cidr, '/');
    let mp = split(mapped_cidr, '/');
    (rp.len() == 2 && mp.len() == 2 && loose_ipv4(rp[0]) is Some && loose_ipv4(mp[0]) is Some
        && prefix_value(rp[1]) is Some) ==> prefix_value(rp[1])->0 <= 32
}

/// What [`convert_ip_in_segment`] gives: the address with the network bits
/// of the mapped segment and the host bits of `ip` under the real segment's
/// prefix length; nothing where a segment or `ip` cannot be read. The mapped
/// segment's own prefix length is not read.
pub open spec fn segment_conversion(ip: Seq<char>, real_cidr: Seq<char>, mapped_cidr: Seq<char>) -> Option<Seq<char>> {
    let rp = split(real_cidr, '/');
    let mp = split(mapped_cidr, '/');
    if rp.len() != 2 || mp.len() != 2 {
        None
    } else if loose_ipv4(rp[0]) is None || loose_ipv4(mp[0]) is None || prefix_value(rp[1]) is None
        || loose_ipv4(ip) is None {
        None
    } else {
        let mask = netmask(prefix_value(rp[1])->0);
        Some(ipv4_text(loose_ipv4(mp[0])->0 | (loose_ipv4(ip)->0 & !mask)))
    }
}

/// Converts `ip` from the real segment to the mapped one: for
/// `192.168.1.100` between `192.168.1.0/24` and `100.64.1.0/24`, it gives
/// `100.64.1.100`.
pub fn convert_ip_in_segment(ip: &str, real_cidr: &str, mapped_cidr: &str) -> (r: Option<String>)
    requires
        pair_prefix_in_range(real_cidr@, mapped_cidr@),
    ensures
        match segment_conversion(ip@, real_cidr@, mapped_cidr@) {
            Some(m) => r matches Some(s) && s@ == m,
            None => r is None,
        },
{
    let rv = chars_of(real_cidr);
    let mv = chars_of(mapped_cidr);
    let real_parts = split_chars(rv.as_slice(), '/');
    let mapped_parts = split_chars(mv.as_slice(), '/');
    if real_parts.len() != 2 || mapped_parts.len() != 2 {
        return None;
    }
    let real_text = string_from_chars(real_parts[0].as_slice());
    let mapped_text = string_from_chars(mapped_parts[0].as_slice());
    let prefix_text = string_from_chars(real_parts[1].as_slice());
    let _real_network = match ip_to_u32(real_text.as_str()) {
        Some(x) => x,
        None => {
            return None;
        },
    };
    let mapped_network = match ip_to_u32(mapped_text.as_str()) {
        Some(x) => x,
        None => {
            return None;
        },
    };
    let prefix = match parse_u32_text(prefix_text.as_str()) {
        Ok(p) => p,
        Err(_) => {
            return None;
        },
    };
    let mask = netmask_from_prefix(prefix as u8);
    let target = match ip_to_u32(ip) {
        Some(x) => x,
        None => {
            return None;
        },
    };
    let host_part = target & !mask;
    Some(u32_to_ip(mapped_network | host_part))
}


/// The pieces between the dots of dotted-quad text are its four octets.
proof fn lemma_ipv4_text_pieces(x: u32)
    ensures
        split(ipv4_text(x), '.') == seq![
            decimal(octet0(x)),
            decimal(octet1(x)),
            decimal(octet2(x)),
            decimal(octet3(x)),
        ],
{
    let d0 = decimal(octet0(x));
    let d1 = decimal(octet1(x));
    let d2 = decimal(octet2(x));
    let d3 = decimal(octet3(x));
    lemma_decimal_facts(octet0(x));
    lemma_decimal_facts(octet1(x));
    lemma_decimal_facts(octet2(x));
    lemma_decimal_facts(octet3(x));
    lemma_split_single(d0, '.');
    lemma_split_single(d1, '.');
    lemma_split_single(d2, '.');
    lemma_split_single(d3, '.');
    lemma_split_append(d0, d1, '.');
    lemma_split_append(d0 + seq!['.'] + d1, d2, '.');
    lemma_split_append(d0 + seq!['.'] + d1 + seq!['.'] + d2, d3, '.');
    assert(split(ipv4_text(x), '.') =~= seq![d0, d1, d2, d3]);
}

/// The rendering of an octet reads back as that octet.
proof fn lemma_octet_text(n: nat)
    requires
        n < 256,
    ensures
        octet_value(decimal(n)) == Some(n),
{
    lemma_decimal_facts(n);
}

/// The desktop application reads dotted-quad text as the address it
/// renders.
pub proof fn lemma_loose_ipv4_of_text(x: u32)
    ensures
        loose_ipv4(ipv4_text(x)) == Some(x),
{
    lemma_ipv4_text_pieces(x);
    lemma_octets_of(x);
    lemma_octet_text(octet0(x));
    lemma_octet_text(octet1(x));
    lemma_octet_text(octet2(x));
    lemma_octet_text(octet3(x));
}

/// A converted address reads back as one in the mapped segment (under the
/// real segment's prefix length), and where the mapped segment is written
/// by its network address it keeps the host part of the original address.
pub proof fn lemma_conversion_in_mapped_segment(ip: Seq<char>, real_cidr: Seq<char>, mapped_cidr: Seq<char>)
    requires
        pair_prefix_in_range(real_cidr, mapped_cidr),
        segment_conversion(ip, real_cidr, mapped_cidr) is Some,
    ensures
        ({
            let mask = netmask(prefix_value(split(real_cidr, '/')[1])->0);
            let mnet = loose_ipv4(split(mapped_cidr, '/')[0])->0;
            let t = loose_ipv4(ip)->0;
            let v = loose_ipv4(segment_conversion(ip, real_cidr, mapped_cidr)->0)->0;
            &&& loose_ipv4(segment_conversion(ip, real_cidr, mapped_cidr)->0) is Some
            &&& v & mask == mnet & mask
            &&& (mnet & !mask == 0 ==> v & !mask == t & !mask)
        }),
{
    let mask = netmask(prefix_value(split(real_cidr, '/')[1])->0);
    let mnet = loose_ipv4(split(mapped_cidr, '/')[0])->0;
    let t = loose_ipv4(ip)->0;
    let v: u32 = mnet | (t & !mask);
    lemma_loose_ipv4_of_text(v);
    assert((v & mask) == (mnet & mask)) by (bit_vector)
        requires
            v == mnet | (t & !mask),
    ;
    assert(mnet & !mask == 0 ==> v & !mask == t & !mask) by (bit_vector)
        requires
            v == mnet | (t & !mask),
    ;
}

// ------------------------------------------------------------------
// Address conversion over the accessible segments
// ------------------------------------------------------------------

/// The result of converting an address, as the desktop application shows
/// it.
#[derive(Debug, Clone)]
pub struct ConvertIpResult {
    pub input_ip: String,
    pub real_cidr: Option<String>,
    pub mapped_cidr: Option<String>,
    pub mapped_ip: Option<String>,
    pub message: String,
}

/// What a segment gives for `ip`: the converted address, where `ip` lies
/// in its real segment and converts.
pub open spec fn segment_hit(ip: Seq<char>, seg: RouteEntry) -> Option<Seq<char>> {
    if cidr_membership(ip, seg.real_cidr@) == Ok::<bool, Seq<char>>(true) {
        segment_conversion(ip, seg.real_cidr@, seg.mapped_cidr@)
    } else {
        None
    }
}

/// The first segment of `segs` that gives a converted address, with it.
pub open spec fn first_hit(ip: Seq<char>, segs: Seq<RouteEntry>) -> Option<(RouteEntry, Seq<char>)>
    decreases segs.len(),
{
    if segs.len() == 0 {
        None
    } else {
        match segment_hit(ip, segs[0]) {
            Some(m) => Some((segs[0], m)),
            None => first_hit(ip, segs.drop_first()),
        }
    }
}

/// Whether the segments tried for `ip`, up to the first that gives an
/// address, all have their prefix lengths in range.
pub open spec fn hits_in_range(ip: Seq<char>, segs: Seq<RouteEntry>) -> bool
    decreases segs.len(),
{
    segs.len() == 0 || (prefix_in_range(segs[0].real_cidr@) && (segment_hit(ip, segs[0]) is Some
        || hits_in_range(ip, segs.drop_first())))
}

/// The message for a conversion.
pub open spec fn conversion_message(ip: Seq<char>, hit: Option<(RouteEntry, Seq<char>)>) -> Seq<char> {
    match hit {
        Some((seg, m)) => ip + " ("@ + seg.real_cidr@ + ") -> "@ + m + " ("@ + seg.mapped_cidr@ + ")"@,
        None => "IP "@ + ip + " 不在任何已知网段中，或当前无可访问网段"@,
    }
}

/// Whether the prefix length of `cidr` is in range: see [`prefix_in_range`].
pub fn cidr_prefix_in_range(cidr: &str) -> (r: bool)
    ensures
        r == prefix_in_range(cidr@),
{
    let v = chars_of(cidr);
    let parts = split_chars(v.as_slice(), '/');
    if parts.len() != 2 {
        return true;
    }
    let net_text = string_from_chars(parts[0].as_slice());
    if ip_to_u32(net_text.as_str()).is_none() {
        return true;
    }
    let prefix_text = string_from_chars(parts[1].as_slice());
    match parse_u32_text(prefix_text.as_str()) {
        Ok(p) => p <= 32,
        Err(_) => true,
    }
}

/// Whether [`convert_ip`] can take `input_ip` over `accessible`: see
/// [`hits_in_range`].
pub fn conversion_in_range(input_ip: &str, accessible: &[RouteEntry]) -> (r: bool)
    ensures
        r == hits_in_range(input_ip@, accessible@),
{
    let n = accessible.len();
    let mut i: usize = 0;
    assert(accessible@.subrange(0, n as int) =~= accessible@);
    while i < n
        invariant
            n == accessible@.len(),
            i <= n,
            hits_in_range(input_ip@, accessible@.subrange(i as int, n as int)) == hits_in_range(
                input_ip@,
                accessible@,
            ),
        decreases n - i,
    {
        let ghost rest = accessible@.subrange(i as int, n as int);
        proof {
            assert(rest[0] == accessible@[i as int]);
            assert(rest.drop_first() =~= accessible@.subrange(i + 1, n as int));
        }
        let seg = &accessible[i];
        if !cidr_prefix_in_range(seg.real_cidr.as_str()) {
            return false;
        }
        match ip_in_cidr(input_ip, seg.real_cidr.as_str()) {
            Ok(true) => {
                if convert_ip_in_segment(input_ip, seg.real_cidr.as_str(), seg.mapped_cidr.as_str()).is_some() {
                    return true;
                }
            },
            _ => {},
        }
        i += 1;
    }
    assert(accessible@.subrange(n as int, n as int).len() == 0);
    true
}

/// Converts `input_ip` with the first accessible segment whose real
/// segment holds it.
pub fn convert_ip(input_ip: &str, accessible: &[RouteEntry]) -> (r: ConvertIpResult)
    requires
        hits_in_range(input_ip@, accessible@),
    ensures
        r.input_ip@ == input_ip@,
        r.message@ == conversion_message(input_ip@, first_hit(input_ip@, accessible@)),
        match first_hit(input_ip@, accessible@) {
            Some((seg, m)) => {
                &&& r.real_cidr == Some(seg.real_cidr)
                &&& r.mapped_cidr == Some(seg.mapped_cidr)
                &&& r.mapped_ip matches Some(x) && x@ == m
            },
            None => r.real_cidr is None && r.mapped_cidr is None && r.mapped_ip is None,
        },
{
    let n = accessible.len();
    let mut i: usize = 0;
    assert(accessible@.subrange(0, n as int) =~= accessible@);
    while i < n
        invariant
            n == accessible@.len(),
            i <= n,
            first_hit(input_ip@, accessible@.subrange(i as int, n as int)) == first_hit(input_ip@, accessible@),
            hits_in_range(input_ip@, accessible@.subrange(i as int, n as int)),
        decreases n - i,
    {
        let ghost rest = accessible@.subrange(i as int, n as int);
        proof {
            assert(rest[0] == accessible@[i as int]);
            assert(rest.drop_first() =~= accessible@.subrange(i + 1, n as int));
        }
        let seg = &accessible[i];
        let inside = ip_in_cidr(input_ip, seg.real_cidr.as_str());
        match inside {
            Ok(true) => {
                match convert_ip_in_segment(input_ip, seg.real_cidr.as_str(), seg.mapped_cidr.as_str()) {
                    Some(mapped_ip) => {
                        let mut m: Vec<char> = Vec::new();
                        push_str(&mut m, input_ip);
                        push_str(&mut m, " (");
                        push_str(&mut m, seg.real_cidr.as_str());
                        push_str(&mut m, ") -> ");
                        push_str(&mut m, mapped_ip.as_str());
                        push_str(&mut m, " (");
                        push_str(&mut m, seg.mapped_cidr.as_str());
                        push_str(&mut m, ")");
                        return ConvertIpResult {
                            input_ip: input_ip.to_owned(),
                            real_cidr: Some(seg.real_cidr.clone()),
                            mapped_cidr: Some(seg.mapped_cidr.clone()),
                            mapped_ip: Some(mapped_ip),
                            message: string_from_chars(m.as_slice()),
                        };
                    },
                    None => {},
                }
            },
            _ => {},
        }
        i += 1;
    }
    let mut m: Vec<char> = Vec::new();
    push_str(&mut m, "IP ");
    push_str(&mut m, input_ip);
    push_str(&mut m, " 不在任何已知网段中，或当前无可访问网段");
    ConvertIpResult {
        input_ip: input_ip.to_owned(),
        real_cidr: None,
        mapped_cidr: None,
        mapped_ip: None,
        message: string_from_chars(m.as_slice()),
    }
}


// ------------------------------------------------------------------
// Ping and TCP checks
// ------------------------------------------------------------------

/// The outcome of a ping check.
#[derive(Debug, Clone)]
pub struct PingResult {
    pub success: bool,
    pub target: String,
    pub elapsed_ms: u64,
    pub message: String,
}

/// Whether a line of `ping`'s output is its summary.
pub open spec fn is_stats_line(l: Seq<char>) -> bool {
    contains_seq(l, "packets transmitted"@) || contains_seq(l, "rtt"@) || contains_seq(l, "min/avg/max"@)
}

/// The last summary line among `ls`.
pub open spec fn last_stats_line(ls: Seq<Seq<char>>) -> Option<Seq<char>>
    decreases ls.len(),
{
    if ls.len() == 0 {
        None
    } else if is_stats_line(ls.last()) {
        Some(ls.last())
    } else {
        last_stats_line(ls.drop_last())
    }
}

/// What [`extract_ping_stats`] gives: the last summary line of the output;
/// where there is none, the output itself, cut after its 200th byte (and
/// marked `...`) where it is longer.
pub open spec fn ping_summary(out: Seq<char>) -> Seq<char> {
    match last_stats_line(lines(out)) {
        Some(l) => l,
        None => if encode_utf8(out).len() > 200 {
            decode_utf8(encode_utf8(out).subrange(0, 200)) + "..."@
        } else {
            out
        },
    }
}

/// Whether the output can be cut where [`ping_summary`] cuts it: its 200th
/// byte ends a character.
pub open spec fn ping_cut_on_boundary(out: Seq<char>) -> bool {
    (last_stats_line(lines(out)) is None && encode_utf8(out).len() > 200) ==> is_char_boundary(
        encode_utf8(out),
        200,
    )
}

/// The last summary line of `ping`'s output, where it has one.
fn stats_line(stdout: &str) -> (r: Option<Vec<char>>)
    ensures
        match last_stats_line(lines(stdout@)) {
            Some(l) => r matches Some(v) && v@ == l,
            None => r is None,
        },
{
    let ls = lines_of(stdout);
    let ghost gl = lines(stdout@);
    let mut k: usize = ls.len();
    assert(gl.subrange(0, k as int) =~= gl);
    while k > 0
        invariant
            ls@.len() == gl.len(),
            gl == lines(stdout@),
            forall|j: int| 0 <= j < gl.len() ==> (#[trigger] ls@[j])@ == gl[j],
            k <= gl.len(),
            last_stats_line(gl.subrange(0, k as int)) == last_stats_line(gl),
        decreases k,
    {
        let l = &ls[k - 1];
        proof {
            assert(gl.subrange(0, k as int).last() == gl[k - 1]);
            assert(gl.subrange(0, k as int).drop_last() =~= gl.subrange(0, k - 1));
        }
        if contains_str(l.as_slice(), "packets transmitted") || contains_str(l.as_slice(), "rtt")
            || contains_str(l.as_slice(), "min/avg/max") {
            return Some(l.clone());
        }
        k -= 1;
    }
    assert(gl.subrange(0, 0) =~= Seq::<Seq<char>>::empty());
    None
}

/// Whether [`extract_ping_stats`] can take `stdout`: see
/// [`ping_cut_on_boundary`].
pub fn ping_output_cuttable(stdout: &str) -> (r: bool)
    ensures
        r == ping_cut_on_boundary(stdout@),
{
    if stats_line(stdout).is_some() {
        return true;
    }
    let nbytes = stdout.as_bytes().len();
    if nbytes > 200 {
        stdout.is_char_boundary(200)
    } else {
        true
    }
}

/// The summary of `ping`'s output (see [`ping_summary`]).
pub fn extract_ping_stats(stdout: &str) -> (s: String)
    requires
        ping_cut_on_boundary(stdout@),
    ensures
        s@ == ping_summary(stdout@),
{
    match stats_line(stdout) {
        Some(l) => {
            return string_from_chars(l.as_slice());
        },
        None => {},
    }
    let nbytes = stdout.as_bytes().len();
    if nbytes > 200 {
        let (head, _) = stdout.split_at(200);
        proof {
            encode_utf8_decode_utf8(head@);
            assert(encode_utf8(head@) =~= encode_utf8(stdout@).subrange(0, 200));
            assert(head@ == decode_utf8(encode_utf8(stdout@).subrange(0, 200)));
        }
        let mut v = chars_of(head);
        push_str(&mut v, "...");
        assert(v@ == ping_summary(stdout@));
        string_from_chars(v.as_slice())
    } else {
        stdout.to_owned()
    }
}

/// The result of a ping check. `outcome` is what running `ping` gave:
/// whether it exited successfully with its standard output and error, or
/// why it could not be run. A success shows the summary of the output; a
/// failure shows the output, or the error output where the output is empty.
pub fn ping_result(target: &str, elapsed_ms: u64, outcome: Result<(bool, String, String), String>) -> (r: PingResult)
    requires
        outcome matches Ok((true, out, _)) ==> ping_cut_on_boundary(out@),
    ensures
        r.target@ == target@,
        r.elapsed_ms == elapsed_ms,
        match outcome {
            Ok((ok, out, err)) => {
                &&& r.success == ok
                &&& r.message@ == if ok {
                    ping_summary(out@)
                } else if out@.len() == 0 {
                    err@
                } else {
                    out@
                }
            },
            Err(e) => !r.success && r.message@ == "执行 ping 命令失败: "@ + e@,
        },
{
    match outcome {
        Ok((ok, out, err)) => {
            let message = if ok {
                extract_ping_stats(out.as_str())
            } else if out.as_str().is_empty() {
                err
            } else {
                out
            };
            PingResult { success: ok, target: target.to_owned(), elapsed_ms, message }
        },
        Err(e) => {
            let mut m: Vec<char> = Vec::new();
            push_str(&mut m, "执行 ping 命令失败: ");
            push_str(&mut m, e.as_str());
            PingResult {
                success: false,
                target: target.to_owned(),
                elapsed_ms,
                message: string_from_chars(m.as_slice()),
            }
        },
    }
}

/// The outcome of a TCP check.
#[derive(Debug, Clone)]
pub struct TcpTestResult {
    pub success: bool,
    pub target: String,
    pub port: u16,
    pub elapsed_ms: u64,
    pub message: String,
}

/// What a TCP connection attempt came to.
#[derive(Debug, Clone)]
pub enum TcpOutcome {
    Connected,
    /// The connection failed, with the error's text.
    Failed(String),
    /// No answer within the time allowed (five seconds).
    TimedOut,
}

/// `host:port`.
pub open spec fn host_port(host: Seq<char>, port: u16) -> Seq<char> {
    host + ":"@ + decimal(port as nat)
}

/// The text `host:port`.
fn host_port_text(host: &str, port: u16) -> (s: Vec<char>)
    ensures
        s@ == host_port(host@, port),
{
    let mut v: Vec<char> = Vec::new();
    push_str(&mut v, host);
    push_str(&mut v, ":");
    push_decimal(&mut v, port as u64);
    v
}

/// The result of a TCP check of `target_ip:port`.
pub fn tcp_result(target_ip: &str, port: u16, elapsed_ms: u64, outcome: TcpOutcome) -> (r: TcpTestResult)
    ensures
        r.target@ == target_ip@,
        r.port == port,
        r.elapsed_ms == elapsed_ms,
        r.success == (outcome is Connected),
        r.message@ == match outcome {
            TcpOutcome::Connected => "成功连接 "@ + host_port(target_ip@, port) + "（"@ + decimal(
                elapsed_ms as nat,
            ) + "ms）"@,
            TcpOutcome::Failed(e) => "连接失败: "@ + e@,
            TcpOutcome::TimedOut => "连接超时（5秒）"@,
        },
{
    let mut m: Vec<char> = Vec::new();
    let success = match &outcome {
        TcpOutcome::Connected => {
            push_str(&mut m, "成功连接 ");
            let addr = host_port_text(target_ip, port);
            push_chars(&mut m, addr.as_slice());
            push_str(&mut m, "（");
            push_decimal(&mut m, elapsed_ms);
            push_str(&mut m, "ms）");
            true
        },
        TcpOutcome::Failed(e) => {
            push_str(&mut m, "连接失败: ");
            push_str(&mut m, e.as_str());
            false
        },
        TcpOutcome::TimedOut => {
            push_str(&mut m, "连接超时（5秒）");
            false
        },
    };
    TcpTestResult {
        success,
        target: target_ip.to_owned(),
        port,
        elapsed_ms,
        message: string_from_chars(m.as_slice()),
    }
}

/// The outcome of a check that the server can be reached.
#[derive(Debug, Clone)]
pub struct ConnectivityResult {
    pub success: bool,
    pub elapsed_ms: u64,
    pub message: String,
}

/// What reaching `host:port` came to.
#[derive(Debug, Clone)]
pub enum Reachability {
    Connected,
    /// The connection to the first address failed, with the error's text.
    Refused(String),
    /// The name resolved to no address.
    NoAddress,
    /// The name could not be resolved, with the error's text.
    Unresolved(String),
}

/// The result of a check that `host:port` can be reached.
pub fn connectivity_result(host: &str, port: u16, elapsed_ms: u64, outcome: Reachability) -> (r: ConnectivityResult)
    ensures
        r.elapsed_ms == elapsed_ms,
        r.success == (outcome is Connected),
        r.message@ == match outcome {
            Reachability::Connected => "成功连接 "@ + host_port(host@, port),
            Reachability::Refused(e) => "连接 "@ + host_port(host@, port) + " 失败: "@ + e@,
            Reachability::NoAddress => "无可用地址: "@ + host_port(host@, port),
            Reachability::Unresolved(e) => "解析地址失败: "@ + host_port(host@, port) + " - "@ + e@,
        },
{
    let addr = host_port_text(host, port);
    let mut m: Vec<char> = Vec::new();
    let success = match &outcome {
        Reachability::Connected => {
            push_str(&mut m, "成功连接 ");
            push_chars(&mut m, addr.as_slice());
            true
        },
        Reachability::Refused(e) => {
            push_str(&mut m, "连接 ");
            push_chars(&mut m, addr.as_slice());
            push_str(&mut m, " 失败: ");
            push_str(&mut m, e.as_str());
            false
        },
        Reachability::NoAddress => {
            push_str(&mut m, "无可用地址: ");
            push_chars(&mut m, addr.as_slice());
            false
        },
        Reachability::Unresolved(e) => {
            push_str(&mut m, "解析地址失败: ");
            push_chars(&mut m, addr.as_slice());
            push_str(&mut m, " - ");
            push_str(&mut m, e.as_str());
            false
        },
    };
    ConnectivityResult { success, elapsed_ms, message: string_from_chars(m.as_slice()) }
}


// ------------------------------------------------------------------
// The session
// ------------------------------------------------------------------

/// What the desktop application is connected as.
#[derive(Debug, Clone, Copy, PartialEq, Eq, Structural)]
pub enum RunMode {
    Idle,
    Client,
    Operator,
}

impl RunMode {
    /// The mode's name as the front end reads it.
    pub open spec fn label(self) -> Seq<char> {
        match self {
            RunMode::Idle => "idle"@,
            RunMode::Client => "client"@,
            RunMode::Operator => "operator"@,
        }
    }

    /// The mode's name as the front end reads it.
    pub fn as_str(&self) -> (s: &'static str)
        ensures
            s@ == self.label(),
    {
        match self {
            RunMode::Idle => "idle",
            RunMode::Client => "client",
            RunMode::Operator => "operator",
        }
    }
}

/// What the front end shows of the session.
#[derive(Debug, Clone)]
pub struct StatusInfo {
    pub mode: String,
    pub connection_status: String,
    pub tunnel_status: String,
    pub node_id: Option<String>,
    pub node_name: Option<String>,
    pub virtual_ip: Option<String>,
    pub server_addr: Option<String>,
    pub accessible_segments_count: usize,
    pub reported_segments_count: usize,
}

/// What connecting to the server gave.
#[derive(Debug, Clone)]
pub struct ConnectResult {
    pub node_id: String,
    pub virtual_ip: Option<String>,
    pub accessible_segments: Vec<RouteEntry>,
}

/// A tunnel route as the front end shows it.
#[derive(Debug, Clone)]
pub struct RouteInfo {
    pub target_node_id: String,
    pub target_node_name: String,
    pub segment_name: String,
    pub real_cidr: String,
    pub mapped_cidr: String,
}

impl RouteInfo {
    /// Whether `self` shows the route `r`.
    pub open spec fn shows(self, r: TunnelRoute) -> bool {
        &&& self.target_node_id == r.target_node_id
        &&& self.target_node_name == r.target_node_name
        &&& self.segment_name == r.segment_name
        &&& self.real_cidr == r.real_cidr
        &&& self.mapped_cidr == r.mapped_cidr
    }

}

impl<'a> From<&'a TunnelRoute> for RouteInfo {
    /// The route `r` as the front end shows it.
    fn from(r: &'a TunnelRoute) -> (i: RouteInfo) {
        RouteInfo {
            target_node_id: r.target_node_id.clone(),
            target_node_name: r.target_node_name.clone(),
            segment_name: r.segment_name.clone(),
            real_cidr: r.real_cidr.clone(),
            mapped_cidr: r.mapped_cidr.clone(),
        }
    }
}

impl<'a> vstd::std_specs::convert::FromSpecImpl<&'a TunnelRoute> for RouteInfo {
    open spec fn obeys_from_spec() -> bool {
        true
    }

    open spec fn from_spec(r: &'a TunnelRoute) -> RouteInfo {
        RouteInfo {
            target_node_id: r.target_node_id,
            target_node_name: r.target_node_name,
            segment_name: r.segment_name,
            real_cidr: r.real_cidr,
            mapped_cidr: r.mapped_cidr,
        }
    }
}

/// The routes `routes` as the front end shows them, in order.
pub fn route_infos(routes: &[TunnelRoute]) -> (r: Vec<RouteInfo>)
    ensures
        r@.len() == routes@.len(),
        forall|k: int| 0 <= k < r@.len() ==> (#[trigger] r@[k]).shows(routes@[k]),
{
    let mut out: Vec<RouteInfo> = Vec::new();
    let mut i: usize = 0;
    while i < routes.len()
        invariant
            i <= routes@.len(),
            out@.len() == i,
            forall|k: int| 0 <= k < i ==> (#[trigger] out@[k]).shows(routes@[k]),
        decreases routes@.len() - i,
    {
        out.push(RouteInfo::from(&routes[i]));
        i += 1;
    }
    out
}

/// What starting the tunnel gave.
#[derive(Debug, Clone)]
pub struct TunnelStartResult {
    pub virtual_ip: Option<String>,
    pub routes: Vec<RouteInfo>,
}

/// The plain state of the desktop application's session: what it is
/// connected as, to which server, under which node, and the segments it
/// knows of.
#[derive(Debug, Clone)]
pub struct SessionState {
    pub mode: RunMode,
    pub node_id: Option<String>,
    pub node_name: Option<String>,
    pub virtual_ip: Option<String>,
    pub server_addr: Option<String>,
    /// The segments an operator may reach.
    pub accessible_segments: Vec<RouteEntry>,
    /// The segments a client has reported.
    pub reported_segments: Vec<SegmentSummary>,
}

impl SessionState {
    /// Not connected: idle, with nothing known.
    pub open spec fn is_idle(self) -> bool {
        &&& self.mode == RunMode::Idle
        &&& self.node_id is None
        &&& self.node_name is None
        &&& self.virtual_ip is None
        &&& self.server_addr is None
        &&& self.accessible_segments@.len() == 0
        &&& self.reported_segments@.len() == 0
    }

    /// A session that is not connected.
    pub fn new() -> (s: SessionState)
        ensures
            s.is_idle(),
    {
        SessionState {
            mode: RunMode::Idle,
            node_id: None,
            node_name: None,
            virtual_ip: None,
            server_addr: None,
            accessible_segments: Vec::new(),
            reported_segments: Vec::new(),
        }
    }

    /// Forgets the connection (after its tasks were stopped).
    pub fn clear(&mut self)
        ensures
            final(self).is_idle(),
    {
        self.mode = RunMode::Idle;
        self.node_id = None;
        self.node_name = None;
        self.virtual_ip = None;
        self.server_addr = None;
        self.accessible_segments = Vec::new();
        self.reported_segments = Vec::new();
    }

    /// Records a registration as a client.
    pub fn connected_as_client(&mut self, server_addr: &str, node_name: &str, node_id: String, virtual_ip: Option<String>)
        ensures
            final(self).mode == RunMode::Client,
            final(self).node_id == Some(node_id),
            final(self).node_name matches Some(n) && n@ == node_name@,
            final(self).virtual_ip == virtual_ip,
            final(self).server_addr matches Some(a) && a@ == server_addr@,
            final(self).accessible_segments == old(self).accessible_segments,
            final(self).reported_segments == old(self).reported_segments,
    {
        self.mode = RunMode::Client;
        self.node_id = Some(node_id);
        self.node_name = Some(node_name.to_owned());
        self.virtual_ip = virtual_ip;
        self.server_addr = Some(server_addr.to_owned());
    }

    /// Records a registration as an operator, with its virtual address and
    /// the segments it may reach.
    pub fn connected_as_operator(
        &mut self,
        server_addr: &str,
        node_name: &str,
        node_id: String,
        virtual_ip: String,
        accessible: Vec<RouteEntry>,
    )
        ensures
            final(self).mode == RunMode::Operator,
            final(self).node_id == Some(node_id),
            final(self).node_name matches Some(n) && n@ == node_name@,
            final(self).virtual_ip == Some(virtual_ip),
            final(self).server_addr matches Some(a) && a@ == server_addr@,
            final(self).accessible_segments == accessible,
            final(self).reported_segments == old(self).reported_segments,
    {
        self.mode = RunMode::Operator;
        self.node_id = Some(node_id);
        self.node_name = Some(node_name.to_owned());
        self.virtual_ip = Some(virtual_ip);
        self.server_addr = Some(server_addr.to_owned());
        self.accessible_segments = accessible;
    }

    /// Where the tunnel is to be opened: the node, the tunnel's address
    /// beside the server's, and whether the node is an operator; refused
    /// while no server is connected.
    pub fn tunnel_target(&self) -> (r: Result<(String, String, bool), String>)
        ensures
            match (self.node_id, self.server_addr) {
                (Some(id), Some(addr)) => r matches Ok((i, a, op)) && i == id && a@ == spec_tunnel_addr(addr@)
                    && op == (self.mode == RunMode::Operator),
                _ => r matches Err(e) && e@ == "未连接服务端，请先连接"@,
            },
    {
        let node_id = match &self.node_id {
            Some(id) => id.clone(),
            None => {
                return Err("未连接服务端，请先连接".to_owned());
            },
        };
        let server_addr = match &self.server_addr {
            Some(a) => a,
            None => {
                return Err("未连接服务端，请先连接".to_owned());
            },
        };
        let is_operator = match self.mode {
            RunMode::Operator => true,
            _ => false,
        };
        Ok((node_id, get_tunnel_addr(server_addr.as_str()), is_operator))
    }

    /// Records the virtual address that the tunnel's server gave, where it
    /// gave one.
    pub fn tunnel_started(&mut self, virtual_ip: &Option<String>)
        ensures
            final(self).virtual_ip == if virtual_ip is Some {
                *virtual_ip
            } else {
                old(self).virtual_ip
            },
            final(self).mode == old(self).mode,
            final(self).node_id == old(self).node_id,
            final(self).node_name == old(self).node_name,
            final(self).server_addr == old(self).server_addr,
            final(self).accessible_segments == old(self).accessible_segments,
            final(self).reported_segments == old(self).reported_segments,
    {
        match virtual_ip {
            Some(v) => {
                self.virtual_ip = Some(v.clone());
            },
            None => {},
        }
    }

    /// What the front end shows, with the connection's and the tunnel's
    /// states.
    pub fn status(&self, connection: ConnectionStatus, tunnel: TunnelStatus) -> (r: StatusInfo)
        ensures
            r.mode@ == self.mode.label(),
            r.connection_status@ == connection.label(),
            r.tunnel_status@ == tunnel.label(),
            r.node_id == self.node_id,
            r.node_name == self.node_name,
            r.virtual_ip == self.virtual_ip,
            r.server_addr == self.server_addr,
            r.accessible_segments_count == self.accessible_segments@.len(),
            r.reported_segments_count == self.reported_segments@.len(),
    {
        StatusInfo {
            mode: self.mode.as_str().to_owned(),
            connection_status: connection.as_str().to_owned(),
            tunnel_status: tunnel.as_str().to_owned(),
            node_id: self.node_id.clone(),
            node_name: self.node_name.clone(),
            virtual_ip: self.virtual_ip.clone(),
            server_addr: self.server_addr.clone(),
            accessible_segments_count: self.accessible_segments.len(),
            reported_segments_count: self.reported_segments.len(),
        }
    }
}

// ------------------------------------------------------------------
// Interfaces, application facts and settings
// ------------------------------------------------------------------

/// A network interface as the front end shows it.
#[derive(Debug, Clone)]
pub struct NetworkInterfaceInfo {
    pub name: String,
    /// The kind's label.
    pub iface_type: String,
    pub ip_address: String,
    pub cidr: String,
    pub gateway: Option<String>,
    pub recommended: bool,
}

/// The candidates among the interfaces `found` (as in
/// [`crate::scanner::scan_interfaces`]), as the front end shows them.
pub fn interface_infos(found: Vec<NetworkInterface>) -> (r: Vec<NetworkInterfaceInfo>)
    ensures
        r@.len() == kept_interfaces(found@).len(),
        forall|k: int|
            0 <= k < r@.len() ==> {
                let a = #[trigger] r@[k];
                let b = kept_interfaces(found@)[k];
                &&& a.name == b.name
                &&& a.iface_type@ == b.iface_type.label()
                &&& a.ip_address == b.ip_address
                &&& a.cidr == b.cidr
                &&& a.gateway == b.gateway
                &&& a.recommended == (b.iface_type is Physical || b.iface_type is Wifi)
            },
{
    let kept = scan_interfaces(found);
    let mut out: Vec<NetworkInterfaceInfo> = Vec::new();
    let mut i: usize = 0;
    while i < kept.len()
        invariant
            i <= kept@.len(),
            out@.len() == i,
            forall|k: int|
                0 <= k < i ==> {
                    let a = #[trigger] out@[k];
                    let b = kept@[k];
                    &&& a.name == b.name
                    &&& a.iface_type@ == b.iface_type.label()
                    &&& a.ip_address == b.ip_address
                    &&& a.cidr == b.cidr
                    &&& a.gateway == b.gateway
                    &&& a.recommended == b.recommended
                },
        decreases kept@.len() - i,
    {
        let f = &kept[i];
        out.push(
            NetworkInterfaceInfo {
                name: f.name.clone(),
                iface_type: f.iface_type.as_str().to_owned(),
                ip_address: f.ip_address.clone(),
                cidr: f.cidr.clone(),
                gateway: f.gateway.clone(),
                recommended: f.recommended,
            },
        );
        i += 1;
    }
    out
}

/// The application's name, version and platform.
#[derive(Debug, Clone)]
pub struct AppInfo {
    pub name: String,
    pub version: String,
    pub os: String,
    pub arch: String,
}

/// The application's name as it introduces itself.
pub const APP_NAME: &'static str = "NetTool 组网工具";

/// The desktop application's saved settings.
#[derive(Debug, Clone)]
pub struct DesktopConfig {
    /// `server`, `client` or `operator`.
    pub mode: String,
    pub server_addr: String,
    pub node_name: String,
    pub remark: String,
    pub auto_reconnect: bool,
}

impl Default for DesktopConfig {
    /// No mode and no name yet, the local server, reconnecting on its own.
    fn default() -> (c: DesktopConfig)
        ensures
            c.mode@.len() == 0,
            c.server_addr@ == "127.0.0.1:8443"@,
            c.node_name@.len() == 0,
            c.remark@.len() == 0,
            c.auto_reconnect,
    {
        DesktopConfig {
            mode: String::new(),
            server_addr: "127.0.0.1:8443".to_owned(),
            node_name: String::new(),
            remark: String::new(),
            auto_reconnect: true,
        }
    }
}

} // verus!
