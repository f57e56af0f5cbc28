//! IPv4 packets: reading the fields that forwarding needs, rewriting the
//! source or destination address, and the header checksum.
//!
//! ```text
//!  0       4       8              16              24             32
//! |Version|  IHL  |   DSCP/ECN    |          Total Length         |
//! |        Identification         |Flags|    Fragment Offset      |
//! |      TTL      |   Protocol    |        Header Checksum        |
//! |                       Source IP Address                       |
//! |                    Destination IP Address                     |
//! ```

use vstd::prelude::*;
use vstd::arithmetic::div_mod::{lemma_fundamental_div_mod, lemma_mod_multiples_vanish};
use vstd::slice::slice_to_vec;
use crate::ip::{ipv4_text, spec_ipv4, u32_to_ip, ip_to_u32};

verus! {

/// Protocol number of ICMP.
pub const PROTO_ICMP: u8 = 1;

/// Protocol number of TCP.
pub const PROTO_TCP: u8 = 6;

/// Protocol number of UDP.
pub const PROTO_UDP: u8 = 17;

/// Length of an IPv4 header without options.
pub const MIN_HEADER_LEN: usize = 20;

/// The fields of an IPv4 packet that forwarding needs, and the whole packet.
#[derive(Debug, Clone)]
pub struct IpPacket {
    /// IP version (always 4).
    pub version: u8,
    /// Upper-layer protocol number (1 ICMP, 6 TCP, 17 UDP).
    pub protocol: u8,
    /// Source address, dotted-quad.
    pub src_addr: String,
    /// Destination address, dotted-quad.
    pub dst_addr: String,
    /// The whole packet.
    pub raw: Vec<u8>,
}

/// Why a packet cannot be rewritten.
#[derive(Debug, Clone, Copy, PartialEq, Eq, Structural)]
pub enum PacketError {
    /// The packet is shorter than a minimal header; the length it has.
    TooShort(usize),
    /// The new address is not dotted-quad text.
    InvalidAddress,
}

// ------------------------------------------------------------------
// Header fields
// ------------------------------------------------------------------

/// The header length that the IHL field of `p` announces.
pub open spec fn header_len_of(p: Seq<u8>) -> nat {
    ((p[0] % 16) * 4) as nat
}

/// The big-endian address in the four bytes of `p` from `at`.
pub open spec fn addr_at(p: Seq<u8>, at: int) -> u32 {
    ((p[at] as nat) * 16777216 + (p[at + 1] as nat) * 65536 + (p[at + 2] as nat) * 256 + (
    p[at + 3] as nat)) as u32
}

/// `p` is an IPv4 packet whose header fits in it.
pub open spec fn packet_ok(p: Seq<u8>) -> bool {
    &&& p.len() >= 20
    &&& p[0] / 16 == 4
    &&& header_len_of(p) >= 20
    &&& p.len() >= header_len_of(p)
}

/// The name of a protocol number.
pub open spec fn protocol_label(proto: u8) -> Seq<char> {
    if proto == 1 {
        "ICMP"@
    } else if proto == 6 {
        "TCP"@
    } else if proto == 17 {
        "UDP"@
    } else {
        "Unknown"@
    }
}

fn read_addr(p: &[u8], at: usize) -> (x: u32)
    requires
        at + 4 <= p@.len(),
    ensures
        x == addr_at(p@, at as int),
{
    let a = p[at] as u32;
    let b = p[at + 1] as u32;
    let c = p[at + 2] as u32;
    let d = p[at + 3] as u32;
    a * 16777216 + b * 65536 + c * 256 + d
}

impl IpPacket {
    /// Reads an IPv4 packet; `None` where `data` is shorter than 20 bytes,
    /// is not version 4, or announces a header shorter than 20 bytes or
    /// longer than `data`.
    pub fn parse(data: &[u8]) -> (r: Option<IpPacket>)
        ensures
            packet_ok(data@) <==> r is Some,
            r matches Some(pk) ==> {
                &&& pk.version == 4
                &&& pk.protocol == data@[9]
                &&& pk.src_addr@ == ipv4_text(addr_at(data@, 12))
                &&& pk.dst_addr@ == ipv4_text(addr_at(data@, 16))
                &&& pk.raw@ == data@
            },
    {
        if data.len() < MIN_HEADER_LEN {
            return None;
        }
        let version = data[0] / 16;
        if version != 4 {
            return None;
        }
        let ihl = (data[0] % 16) as usize;
        let header_len = ihl * 4;
        if header_len < MIN_HEADER_LEN || data.len() < header_len {
            return None;
        }
        let protocol = data[9];
        let src_addr = u32_to_ip(read_addr(data, 12));
        let dst_addr = u32_to_ip(read_addr(data, 16));
        Some(IpPacket { version, protocol, src_addr, dst_addr, raw: slice_to_vec(data) })
    }

    /// The name of the packet's protocol.
    pub fn protocol_name(&self) -> (s: &'static str)
        ensures
            s@ == protocol_label(self.protocol),
    {
        if self.protocol == PROTO_ICMP {
            "ICMP"
        } else if self.protocol == PROTO_TCP {
            "TCP"
        } else if self.protocol == PROTO_UDP {
            "UDP"
        } else {
            "Unknown"
        }
    }
}

// ------------------------------------------------------------------
// Checksum
// ------------------------------------------------------------------

/// The sum of the first `k` big-endian 16-bit words of `p`.
pub open spec fn words_sum(p: Seq<u8>, k: nat) -> nat
    decreases k,
{
    if k == 0 {
        0
    } else {
        words_sum(p, (k - 1) as nat) + (p[2 * (k - 1)] as nat) * 256 + (p[2 * (k - 1) + 1] as nat)
    }
}

/// The ones'-complement 16-bit value of a sum: the carries folded back in
/// until it fits 16 bits. It is 0 only for 0, and otherwise the number in
/// `1..=0xFFFF` congruent to `s` modulo `0xFFFF`.
pub open spec fn fold_ones(s: nat) -> nat {
    if s == 0 {
        0
    } else {
        ((s - 1) % 65535 + 1) as nat
    }
}

/// `p` with its checksum field cleared.
pub open spec fn zero_checksum(p: Seq<u8>) -> Seq<u8> {
    p.update(10, 0u8).update(11, 0u8)
}

/// The header checksum of `p`: the complement of the folded sum of the
/// header's words, the checksum field counted as 0.
pub open spec fn checksum_of(p: Seq<u8>) -> nat {
    (0xFFFF - fold_ones(words_sum(zero_checksum(p), header_len_of(p) / 2))) as nat
}

/// `p` with its header checksum written; `p` itself where it is shorter
/// than 20 bytes or than the header it announces.
pub open spec fn spec_recalculate(p: Seq<u8>) -> Seq<u8> {
    if p.len() < 20 || p.len() < header_len_of(p) {
        p
    } else {
        let c = checksum_of(p);
        zero_checksum(p).update(10, (c / 256) as u8).update(11, (c % 256) as u8)
    }
}

proof fn lemma_fold_step(s: nat)
    requires
        s >= 65536,
    ensures
        fold_ones(s % 65536 + s / 65536) == fold_ones(s),
        s % 65536 + s / 65536 < s,
        s % 65536 + s / 65536 >= 1,
{
    let q = s / 65536;
    let r = s % 65536;
    lemma_fundamental_div_mod(s as int, 65536);
    assert(q >= 1);
    assert(s - 1 == 65535 * q + (q + r - 1));
    lemma_mod_multiples_vanish(q as int, (q + r - 1) as int, 65535);
}

proof fn lemma_words_sum_bound(p: Seq<u8>, k: nat)
    ensures
        words_sum(p, k) <= k * 65535,
    decreases k,
{
    if k > 0 {
        lemma_words_sum_bound(p, (k - 1) as nat);
        assert(p[2 * (k - 1)] <= 255);
        assert(p[2 * (k - 1) + 1] <= 255);
    }
}

/// Two byte sequences that agree on the first `2k` bytes but bytes 10 and 11
/// have word sums that differ by the difference of word 5.
proof fn lemma_words_sum_field(p: Seq<u8>, q: Seq<u8>, k: nat)
    requires
        k >= 6,
        p.len() >= 2 * k,
        q.len() >= 2 * k,
        forall|i: int| 0 <= i < 2 * k && i != 10 && i != 11 ==> p[i] == q[i],
    ensures
        words_sum(q, k) + (p[10] as nat) * 256 + (p[11] as nat) == words_sum(p, k) + (
        q[10] as nat) * 256 + (q[11] as nat),
    decreases k,
{
    if k == 6 {
        assert(words_sum(q, 5) == words_sum(p, 5)) by {
            lemma_words_sum_prefix(p, q, 5);
        }
    } else {
        lemma_words_sum_field(p, q, (k - 1) as nat);
    }
}

proof fn lemma_words_sum_prefix(p: Seq<u8>, q: Seq<u8>, k: nat)
    requires
        p.len() >= 2 * k,
        q.len() >= 2 * k,
        forall|i: int| 0 <= i < 2 * k && i != 10 && i != 11 ==> p[i] == q[i],
        k <= 5,
    ensures
        words_sum(q, k) == words_sum(p, k),
    decreases k,
{
    if k > 0 {
        lemma_words_sum_prefix(p, q, (k - 1) as nat);
    }
}

/// Writes the header checksum of `packet` (bytes 10 and 11); leaves a
/// packet shorter than 20 bytes or than its announced header as it is.
pub fn recalculate_checksum(packet: &mut Vec<u8>)
    ensures
        final(packet)@ == spec_recalculate(old(packet)@),
{
    if packet.len() < MIN_HEADER_LEN {
        return;
    }
    let ihl = (packet[0] % 16) as usize;
    let header_len = ihl * 4;
    if packet.len() < header_len {
        return;
    }
    let ghost p0 = packet@;
    packet.set(10, 0);
    packet.set(11, 0);
    let ghost z = packet@;
    assert(z == zero_checksum(p0));
    let words = header_len / 2;
    let mut sum: u32 = 0;
    let mut k: usize = 0;
    while k < words
        invariant
            packet@ == z,
            words == header_len / 2,
            header_len <= packet@.len(),
            header_len <= 60,
            k <= words,
            sum == words_sum(z, k as nat),
            sum <= k * 65535,
        decreases words - k,
    {
        let word = (packet[2 * k] as u32) * 256 + (packet[2 * k + 1] as u32);
        sum = sum + word;
        k += 1;
    }
    let ghost total = sum as nat;
    while sum >= 65536
        invariant
            fold_ones(sum as nat) == fold_ones(total),
        decreases sum,
    {
        proof {
            lemma_fold_step(sum as nat);
        }
        sum = sum % 65536 + sum / 65536;
    }
    assert(fold_ones(sum as nat) == sum);
    let checksum: u32 = 0xFFFF - sum;
    assert(checksum == checksum_of(p0));
    packet.set(10, (checksum / 256) as u8);
    packet.set(11, (checksum % 256) as u8);
}

/// After the checksum is written, the folded sum of the header's words is
/// `0xFFFF`: the header checks. This holds for every header that is at least
/// 12 bytes (so that it holds the checksum field) and fits in the packet.
pub proof fn lemma_checksum_valid(p: Seq<u8>)
    requires
        p.len() >= 20,
        header_len_of(p) <= p.len(),
        header_len_of(p) >= 12,
    ensures
        fold_ones(words_sum(spec_recalculate(p), header_len_of(p) / 2)) == 0xFFFF,
{
    let h = header_len_of(p);
    let k = h / 2;
    let z = zero_checksum(p);
    let q = spec_recalculate(p);
    let s = words_sum(z, k);
    let c = checksum_of(p);
    assert(header_len_of(q) == h);
    lemma_words_sum_field(z, q, k);
    assert(q[10] as nat * 256 + q[11] as nat == c);
    assert(words_sum(q, k) == s + c);
    if s == 0 {
        assert(c == 0xFFFF);
    } else {
        let f = fold_ones(s);
        assert(f <= s);
        lemma_fundamental_div_mod((s - 1) as int, 65535);
        let m = (s - 1) / 65535;
        assert(s + c == 65535 * (m + 1)) by {
            assert(f == (s - 1) % 65535 + 1);
        }
        lemma_mod_multiples_vanish(m as int, 65534, 65535);
        assert((s + c - 1) % 65535 == 65534);
    }
}

// ------------------------------------------------------------------
// Rewriting addresses
// ------------------------------------------------------------------

/// `p` with the four bytes from `at` set to the big-endian address `x`.
pub open spec fn set_addr(p: Seq<u8>, at: int, x: u32) -> Seq<u8> {
    p.update(at, (x / 16777216) as u8).update(at + 1, ((x / 65536) % 256) as u8).update(
        at + 2,
        ((x / 256) % 256) as u8,
    ).update(at + 3, (x % 256) as u8)
}

/// What rewriting the address at `at` (12 source, 16 destination) to the
/// dotted-quad `addr` makes of `p`.
pub open spec fn spec_rewrite(p: Seq<u8>, addr: Seq<char>, at: int) -> Result<Seq<u8>, PacketError> {
    if p.len() < 20 {
        Err(PacketError::TooShort(p.len() as usize))
    } else {
        match spec_ipv4(addr) {
            None => Err(PacketError::InvalidAddress),
            Some(x) => Ok(spec_recalculate(set_addr(p, at, x))),
        }
    }
}

fn rewrite_addr(packet: &mut Vec<u8>, addr: &str, at: usize) -> (r: Result<(), PacketError>)
    requires
        at == 12 || at == 16,
    ensures
        match spec_rewrite(old(packet)@, addr@, at as int) {
            Ok(q) => r is Ok && final(packet)@ == q,
            Err(e) => r == Err::<(), PacketError>(e) && final(packet)@ == old(packet)@,
        },
{
    if packet.len() < MIN_HEADER_LEN {
        return Err(PacketError::TooShort(packet.len()));
    }
    let x = match ip_to_u32(addr) {
        Ok(x) => x,
        Err(_) => {
            return Err(PacketError::InvalidAddress);
        },
    };
    packet.set(at, (x / 16777216) as u8);
    packet.set(at + 1, ((x / 65536) % 256) as u8);
    packet.set(at + 2, ((x / 256) % 256) as u8);
    packet.set(at + 3, (x % 256) as u8);
    recalculate_checksum(packet);
    Ok(())
}

/// Sets the destination address (bytes 16..20) and writes the checksum
/// anew.
pub fn rewrite_destination(packet: &mut Vec<u8>, new_dest: &str) -> (r: Result<(), PacketError>)
    ensures
        match spec_rewrite(old(packet)@, new_dest@, 16) {
            Ok(q) => r is Ok && final(packet)@ == q,
            Err(e) => r == Err::<(), PacketError>(e) && final(packet)@ == old(packet)@,
        },
{
    rewrite_addr(packet, new_dest, 16)
}

/// Sets the source address (bytes 12..16) and writes the checksum anew.
pub fn rewrite_source(packet: &mut Vec<u8>, new_source: &str) -> (r: Result<(), PacketError>)
    ensures
        match spec_rewrite(old(packet)@, new_source@, 12) {
            Ok(q) => r is Ok && final(packet)@ == q,
            Err(e) => r == Err::<(), PacketError>(e) && final(packet)@ == old(packet)@,
        },
{
    rewrite_addr(packet, new_source, 12)
}

/// Rewriting one address of a valid packet keeps it a valid packet of the
/// same length and protocol, gives the new address where it was written,
/// and keeps the other address.
pub proof fn lemma_rewrite_fields(p: Seq<u8>, addr: Seq<char>, at: int)
    requires
        packet_ok(p),
        spec_ipv4(addr) is Some,
        at == 12 || at == 16,
    ensures
        spec_rewrite(p, addr, at) matches Ok(q) && {
            &&& packet_ok(q)
            &&& q.len() == p.len()
            &&& q[9] == p[9]
            &&& addr_at(q, at) == spec_ipv4(addr)->0
            &&& addr_at(q, 28 - at) == addr_at(p, 28 - at)
        },
{
    let x = spec_ipv4(addr)->0;
    let s = set_addr(p, at, x);
    let q = spec_recalculate(s);
    assert(header_len_of(s) == header_len_of(p));
    assert(q[at] == s[at] && q[at + 1] == s[at + 1] && q[at + 2] == s[at + 2] && q[at + 3] == s[at + 3]);
    let o = 28 - at;
    assert(q[o] == p[o] && q[o + 1] == p[o + 1] && q[o + 2] == p[o + 2] && q[o + 3] == p[o + 3]);
    assert(addr_at(q, at) == x) by {
        let a = x / 16777216;
        let b = (x / 65536) % 256;
        let c = (x / 256) % 256;
        let d = x % 256;
        assert(a * 16777216 + b * 65536 + c * 256 + d == x);
    }
}

} // verus!
