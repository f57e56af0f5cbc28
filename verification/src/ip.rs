//! IPv4 / CIDR arithmetic.
//!
//! Addresses are `u32` values whose most significant byte is the first octet
//! (`192.168.1.5` is `0xC0A80105`). Dotted-quad text follows the grammar of
//! `std::net::Ipv4Addr`: four decimal octets, each 0..=255 written without a
//! superfluous leading zero, separated by `.`.

use vstd::prelude::*;
use vstd::arithmetic::power2::{pow2, lemma_pow2_strictly_increases, lemma2_to64_rest, lemma2_to64};
use vstd::bits::{lemma_u32_pow2_no_overflow, lemma_u32_shl_is_mul};
use crate::text::{
    canonical_digits, chars_of, decimal, decimal_value, digit_char, find_char, first_index_of,
    is_digit, lemma_canonical_is_decimal, lemma_decimal_facts, lemma_first_index_of,
    parse_u8_chars, parse_unsigned, parse_unsigned_chars, push_chars, push_decimal, push_str, slice_chars,
    string_from_chars,
};

verus! {

/// Errors of the address arithmetic.
#[derive(Debug, Clone, Copy, PartialEq, Eq, Structural)]
pub enum IpError {
    /// The text is not a dotted-quad IPv4 address.
    InvalidAddress,
    /// A CIDR without `/`.
    MissingSlash,
    /// The part after `/` is not a number in 0..=255.
    InvalidPrefix,
    /// A prefix length above 32.
    PrefixTooLarge,
    /// A netmask whose one bits are not contiguous.
    NonContiguousMask,
    /// Real and mapped segments of different prefix lengths.
    PrefixMismatch,
}

// ------------------------------------------------------------------
// Dotted-quad text
// ------------------------------------------------------------------

pub open spec fn octet0(x: u32) -> nat {
    (x as nat) / 16777216
}

pub open spec fn octet1(x: u32) -> nat {
    ((x as nat) / 65536) % 256
}

pub open spec fn octet2(x: u32) -> nat {
    ((x as nat) / 256) % 256
}

pub open spec fn octet3(x: u32) -> nat {
    (x as nat) % 256
}

pub open spec fn from_octets(a: nat, b: nat, c: nat, d: nat) -> nat {
    a * 16777216 + b * 65536 + c * 256 + d
}

/// The dotted-quad text of an address.
pub open spec fn ipv4_text(x: u32) -> Seq<char> {
    decimal(octet0(x)) + seq!['.'] + decimal(octet1(x)) + seq!['.'] + decimal(octet2(x))
        + seq!['.'] + decimal(octet3(x))
}

/// The address that `s` denotes, if `s` is dotted-quad text.
pub open spec fn spec_ipv4(s: Seq<char>) -> Option<u32> {
    if exists|x: u32| s == ipv4_text(x) {
        Some(choose|x: u32| s == ipv4_text(x))
    } else {
        None
    }
}

/// A canonical octet `w` starts at `start` and is followed by a non-digit or
/// the end.
pub open spec fn octet_at(s: Seq<char>, start: int, w: nat) -> bool {
    let l = decimal(w).len() as int;
    &&& 0 <= start
    &&& start + l <= s.len()
    &&& s.subrange(start, start + l) == decimal(w)
    &&& (start + l == s.len() || !is_digit(s[start + l]))
}

pub proof fn lemma_octets(a: nat, b: nat, c: nat, d: nat)
    requires
        a < 256,
        b < 256,
        c < 256,
        d < 256,
    ensures
        from_octets(a, b, c, d) < 4294967296,
        from_octets(a, b, c, d) / 16777216 == a,
        (from_octets(a, b, c, d) / 65536) % 256 == b,
        (from_octets(a, b, c, d) / 256) % 256 == c,
        from_octets(a, b, c, d) % 256 == d,
{
    let v = from_octets(a, b, c, d);
    assert(v < 4294967296) by (nonlinear_arith)
        requires
            v == a * 16777216 + b * 65536 + c * 256 + d,
            a < 256,
            b < 256,
            c < 256,
            d < 256,
    ;
    assert(v / 16777216 == a) by (nonlinear_arith)
        requires
            v == a * 16777216 + b * 65536 + c * 256 + d,
            b < 256,
            c < 256,
            d < 256,
    ;
    assert(v / 65536 == a * 256 + b) by (nonlinear_arith)
        requires
            v == a * 16777216 + b * 65536 + c * 256 + d,
            c < 256,
            d < 256,
    ;
    assert((a * 256 + b) % 256 == b) by (nonlinear_arith)
        requires
            b < 256,
    ;
    assert(v / 256 == a * 65536 + b * 256 + c) by (nonlinear_arith)
        requires
            v == a * 16777216 + b * 65536 + c * 256 + d,
            d < 256,
    ;
    assert((a * 65536 + b * 256 + c) % 256 == c) by (nonlinear_arith)
        requires
            c < 256,
    ;
    assert(v % 256 == d) by (nonlinear_arith)
        requires
            v == a * 16777216 + b * 65536 + c * 256 + d,
            d < 256,
    ;
}

pub proof fn lemma_octets_of(x: u32)
    ensures
        octet0(x) < 256,
        octet1(x) < 256,
        octet2(x) < 256,
        octet3(x) < 256,
        from_octets(octet0(x), octet1(x), octet2(x), octet3(x)) == x as nat,
{
    let v = x as nat;
    assert(v / 16777216 < 256) by (nonlinear_arith)
        requires
            v < 4294967296,
    ;
    assert(v == (v / 16777216) * 16777216 + ((v / 65536) % 256) * 65536 + ((v / 256) % 256) * 256
        + v % 256) by (nonlinear_arith);
}

/// Two canonical octets that start at the same place are the same octet.
pub proof fn lemma_octet_at_unique(s: Seq<char>, start: int, x: nat, y: nat)
    requires
        octet_at(s, start, x),
        octet_at(s, start, y),
    ensures
        x == y,
{
    lemma_decimal_facts(x);
    lemma_decimal_facts(y);
    let lx = decimal(x).len() as int;
    let ly = decimal(y).len() as int;
    if lx < ly {
        assert(s[start + lx] == s.subrange(start, start + ly)[lx]);
        assert(is_digit(decimal(y)[lx]));
    } else if ly < lx {
        assert(s[start + ly] == s.subrange(start, start + lx)[ly]);
        assert(is_digit(decimal(x)[ly]));
    } else {
        assert(decimal(x) == decimal(y));
    }
}

/// The layout of dotted-quad text: where each octet and dot stands.
pub proof fn lemma_ipv4_text_layout(x: u32)
    ensures
        ({
            let t = ipv4_text(x);
            let l0 = decimal(octet0(x)).len() as int;
            let l1 = decimal(octet1(x)).len() as int;
            let l2 = decimal(octet2(x)).len() as int;
            let l3 = decimal(octet3(x)).len() as int;
            &&& t.len() == l0 + l1 + l2 + l3 + 3
            &&& octet_at(t, 0, octet0(x))
            &&& t[l0] == '.'
            &&& octet_at(t, l0 + 1, octet1(x))
            &&& t[l0 + 1 + l1] == '.'
            &&& octet_at(t, l0 + l1 + 2, octet2(x))
            &&& t[l0 + l1 + 2 + l2] == '.'
            &&& octet_at(t, l0 + l1 + l2 + 3, octet3(x))
        }),
{
    lemma_octets_of(x);
    let d0 = decimal(octet0(x));
    let d1 = decimal(octet1(x));
    let d2 = decimal(octet2(x));
    let d3 = decimal(octet3(x));
    let dot = seq!['.'];
    let t = ipv4_text(x);
    let l0 = d0.len() as int;
    let l1 = d1.len() as int;
    let l2 = d2.len() as int;
    let l3 = d3.len() as int;
    assert(t == d0 + dot + d1 + dot + d2 + dot + d3);
    assert(t.subrange(0, l0) =~= d0);
    assert(t[l0] == '.');
    assert(t.subrange(l0 + 1, l0 + 1 + l1) =~= d1);
    assert(t[l0 + 1 + l1] == '.');
    assert(t.subrange(l0 + l1 + 2, l0 + l1 + 2 + l2) =~= d2);
    assert(t[l0 + l1 + 2 + l2] == '.');
    assert(t.subrange(l0 + l1 + l2 + 3, l0 + l1 + l2 + 3 + l3) =~= d3);
}

/// Dotted-quad text names one address only.
pub proof fn lemma_ipv4_text_injective(x: u32, y: u32)
    requires
        ipv4_text(x) == ipv4_text(y),
    ensures
        x == y,
{
    let t = ipv4_text(x);
    lemma_ipv4_text_layout(x);
    lemma_ipv4_text_layout(y);
    lemma_octet_at_unique(t, 0, octet0(x), octet0(y));
    let p1 = decimal(octet0(x)).len() as int + 1;
    lemma_octet_at_unique(t, p1, octet1(x), octet1(y));
    let p2 = p1 + decimal(octet1(x)).len() as int + 1;
    lemma_octet_at_unique(t, p2, octet2(x), octet2(y));
    let p3 = p2 + decimal(octet2(x)).len() as int + 1;
    lemma_octet_at_unique(t, p3, octet3(x), octet3(y));
    lemma_octets_of(x);
    lemma_octets_of(y);
}

/// The address of dotted-quad text is the address it was made from.
pub proof fn lemma_spec_ipv4_of_text(x: u32)
    ensures
        spec_ipv4(ipv4_text(x)) == Some(x),
{
    assert(exists|y: u32| ipv4_text(x) == ipv4_text(y));
    let c = choose|y: u32| ipv4_text(x) == ipv4_text(y);
    lemma_ipv4_text_injective(x, c);
}

/// Reads the canonical octet that starts at `start`, if there is one.
fn read_octet(s: &[char], start: usize) -> (r: Option<(u32, usize)>)
    requires
        start <= s@.len(),
    ensures
        match r {
            Some((v, e)) => v < 256 && e == start + decimal(v as nat).len() && octet_at(
                s@,
                start as int,
                v as nat,
            ),
            None => forall|w: nat| w < 256 ==> !octet_at(s@, start as int, w),
        },
{
    let n = s.len();
    let mut j: usize = start;
    while j < n && s[j] >= '0' && s[j] <= '9'
        invariant
            n == s@.len(),
            start <= j <= n,
            forall|k: int| start <= k < j ==> is_digit(s@[k]),
        decreases n - j,
    {
        j += 1;
    }
    // every octet that starts here spans exactly the run `start..j`
    assert forall|w: nat| octet_at(s@, start as int, w) implies decimal(w).len() == j - start by {
        lemma_decimal_facts(w);
        let l = decimal(w).len() as int;
        if start + l < j {
            assert(is_digit(s@[start + l]));
        } else if start + l > j {
            assert(s@[j as int] == s@.subrange(start as int, start + l)[j - start]);
            assert(is_digit(decimal(w)[j - start]));
        }
    }
    let len = j - start;
    if len == 0 || len > 3 {
        proof {
            assert forall|w: nat| w < 256 implies !octet_at(s@, start as int, w) by {
                lemma_decimal_facts(w);
            }
        }
        return None;
    }
    if len > 1 && s[start] == '0' {
        proof {
            assert forall|w: nat| w < 256 implies !octet_at(s@, start as int, w) by {
                if octet_at(s@, start as int, w) {
                    lemma_decimal_facts(w);
                    assert(decimal(w)[0] == s@[start as int]);
                }
            }
        }
        return None;
    }
    let run = slice_chars(s, start, j);
    let parsed = parse_unsigned_chars(run.as_slice(), 255);
    proof {
        assert(canonical_digits(run@)) by {
            assert forall|i: int| 0 <= i < run@.len() implies is_digit(#[trigger] run@[i]) by {
                assert(run@[i] == s@[start + i]);
            }
        }
        assert(run@[0] != '+');
        lemma_canonical_is_decimal(run@);
    }
    match parsed {
        Some(v) => {
            proof {
                assert(decimal_value(run@) == v);
                assert(run@ == decimal(v as nat));
                if j < n {
                    assert(!is_digit(s@[j as int]));
                }
            }
            Some((v as u32, j))
        },
        None => {
            proof {
                assert(decimal_value(run@) > 255);
                assert forall|w: nat| w < 256 implies !octet_at(s@, start as int, w) by {
                    if octet_at(s@, start as int, w) {
                        assert(s@.subrange(start as int, j as int) == decimal(w));
                        lemma_decimal_facts(w);
                    }
                }
            }
            None
        },
    }
}

/// A canonical octet `w` at `start`, followed by `.` (or, for the last
/// octet, by the end of the text).
pub open spec fn dotted_at(s: Seq<char>, start: int, w: nat, last: bool) -> bool {
    let e = start + decimal(w).len();
    &&& w < 256
    &&& octet_at(s, start, w)
    &&& if last {
        e == s.len()
    } else {
        e < s.len() && s[e] == '.'
    }
}

/// Where the four octets of dotted-quad text stand.
pub open spec fn field_start(x: u32, k: int) -> int {
    if k <= 0 {
        0
    } else if k == 1 {
        (decimal(octet0(x)).len() + 1) as int
    } else if k == 2 {
        (decimal(octet0(x)).len() + decimal(octet1(x)).len() + 2) as int
    } else {
        (decimal(octet0(x)).len() + decimal(octet1(x)).len() + decimal(octet2(x)).len() + 3) as int
    }
}

pub proof fn lemma_ipv4_text_fields(x: u32)
    ensures
        dotted_at(ipv4_text(x), field_start(x, 0), octet0(x), false),
        dotted_at(ipv4_text(x), field_start(x, 1), octet1(x), false),
        dotted_at(ipv4_text(x), field_start(x, 2), octet2(x), false),
        dotted_at(ipv4_text(x), field_start(x, 3), octet3(x), true),
{
    lemma_ipv4_text_layout(x);
    lemma_octets_of(x);
}

/// Reads one field: a canonical octet followed by `.` or, when `last`, by the
/// end of the text. Returns the octet and where it ends.
fn read_field(s: &[char], start: usize, last: bool) -> (r: Option<(u32, usize)>)
    requires
        start <= s@.len(),
    ensures
        match r {
            Some((v, e)) => dotted_at(s@, start as int, v as nat, last) && e == start + decimal(
                v as nat,
            ).len() && (!last ==> e < s@.len()),
            None => forall|w: nat| !dotted_at(s@, start as int, w, last),
        },
{
    match read_octet(s, start) {
        None => None,
        Some((v, e)) => {
            proof {
                assert forall|w: nat| dotted_at(s@, start as int, w, last) implies w == v by {
                    lemma_octet_at_unique(s@, start as int, w, v as nat);
                }
            }
            if last {
                if e == s.len() {
                    Some((v, e))
                } else {
                    None
                }
            } else if e < s.len() && s[e] == '.' {
                Some((v, e))
            } else {
                None
            }
        },
    }
}

proof fn lemma_field_pins(s: Seq<char>, x: u32, k: int, start: int, v: nat, last: bool)
    requires
        s == ipv4_text(x),
        0 <= k <= 3,
        last == (k == 3),
        start == field_start(x, k),
        dotted_at(s, start, v, last),
    ensures
        v == (if k == 0 {
            octet0(x)
        } else if k == 1 {
            octet1(x)
        } else if k == 2 {
            octet2(x)
        } else {
            octet3(x)
        }),
        k < 3 ==> start + decimal(v).len() + 1 == field_start(x, k + 1),
{
    lemma_ipv4_text_fields(x);
    let o = if k == 0 {
        octet0(x)
    } else if k == 1 {
        octet1(x)
    } else if k == 2 {
        octet2(x)
    } else {
        octet3(x)
    };
    lemma_octet_at_unique(s, start, v, o);
}

/// Parses dotted-quad text.
pub fn parse_ipv4_chars(s: &[char]) -> (r: Option<u32>)
    ensures
        r == spec_ipv4(s@),
{
    let ghost gs = s@;
    let n = s.len();
    assert(gs.len() == n);
    let (a, e1) = match read_field(s, 0, false) {
        Some(p) => p,
        None => {
            proof {
                assert forall|x: u32| gs != ipv4_text(x) by {
                    if gs == ipv4_text(x) {
                        lemma_ipv4_text_fields(x);
                    }
                }
            }
            return None;
        },
    };
    let (b, e2) = match read_field(s, e1 + 1, false) {
        Some(p) => p,
        None => {
            proof {
                assert forall|x: u32| gs != ipv4_text(x) by {
                    if gs == ipv4_text(x) {
                        lemma_ipv4_text_fields(x);
                        lemma_field_pins(gs, x, 0, 0, a as nat, false);
                    }
                }
            }
            return None;
        },
    };
    let (c, e3) = match read_field(s, e2 + 1, false) {
        Some(p) => p,
        None => {
            proof {
                assert forall|x: u32| gs != ipv4_text(x) by {
                    if gs == ipv4_text(x) {
                        lemma_ipv4_text_fields(x);
                        lemma_field_pins(gs, x, 0, 0, a as nat, false);
                        lemma_field_pins(gs, x, 1, e1 + 1, b as nat, false);
                    }
                }
            }
            return None;
        },
    };
    let (d, e4) = match read_field(s, e3 + 1, true) {
        Some(p) => p,
        None => {
            proof {
                assert forall|x: u32| gs != ipv4_text(x) by {
                    if gs == ipv4_text(x) {
                        lemma_ipv4_text_fields(x);
                        lemma_field_pins(gs, x, 0, 0, a as nat, false);
                        lemma_field_pins(gs, x, 1, e1 + 1, b as nat, false);
                        lemma_field_pins(gs, x, 2, e2 + 1, c as nat, false);
                    }
                }
            }
            return None;
        },
    };
    proof {
        lemma_octets(a as nat, b as nat, c as nat, d as nat);
    }
    let v: u32 = a * 16777216 + b * 65536 + c * 256 + d;
    proof {
        lemma_assemble(gs, a as nat, b as nat, c as nat, d as nat, e1 as int, e2 as int, e3 as int, e4 as int, v);
        lemma_spec_ipv4_of_text(v);
    }
    Some(v)
}

proof fn lemma_assemble(
    gs: Seq<char>,
    a: nat,
    b: nat,
    c: nat,
    d: nat,
    e1: int,
    e2: int,
    e3: int,
    e4: int,
    v: u32,
)
    requires
        dotted_at(gs, 0, a, false),
        e1 == decimal(a).len(),
        dotted_at(gs, e1 + 1, b, false),
        e2 == e1 + 1 + decimal(b).len(),
        dotted_at(gs, e2 + 1, c, false),
        e3 == e2 + 1 + decimal(c).len(),
        dotted_at(gs, e3 + 1, d, true),
        e4 == e3 + 1 + decimal(d).len(),
        v as nat == from_octets(a, b, c, d),
    ensures
        gs == ipv4_text(v),
{
    lemma_octets(a, b, c, d);
    let da = decimal(a);
    let db = decimal(b);
    let dc = decimal(c);
    let dd = decimal(d);
    assert(gs.subrange(0, e1) == da);
    assert(gs.subrange(e1 + 1, e2) == db);
    assert(gs.subrange(e2 + 1, e3) == dc);
    assert(gs.subrange(e3 + 1, e4) == dd);
    assert(gs =~= gs.subrange(0, e1) + seq![gs[e1]] + gs.subrange(e1 + 1, e2) + seq![gs[e2]]
        + gs.subrange(e2 + 1, e3) + seq![gs[e3]] + gs.subrange(e3 + 1, e4));
    assert(gs =~= da + seq!['.'] + db + seq!['.'] + dc + seq!['.'] + dd);
}

/// Appends the dotted-quad text of `x` to `out`.
pub fn push_ipv4(out: &mut Vec<char>, x: u32)
    ensures
        final(out)@ == old(out)@ + ipv4_text(x),
{
    push_decimal(out, (x / 16777216) as u64);
    out.push('.');
    push_decimal(out, ((x / 65536) % 256) as u64);
    out.push('.');
    push_decimal(out, ((x / 256) % 256) as u64);
    out.push('.');
    push_decimal(out, (x % 256) as u64);
    assert(out@ =~= old(out)@ + ipv4_text(x));
}


/// Dotted-quad text that denotes an address is that address's own text.
pub proof fn lemma_ipv4_canonical(s: Seq<char>)
    requires
        spec_ipv4(s) is Some,
    ensures
        ipv4_text(spec_ipv4(s)->0) == s,
{
}

/// Parsing the text of an address gives the address back, and two addresses
/// with the same text are the same address.
pub proof fn lemma_ipv4_text_roundtrip(x: u32, y: u32)
    ensures
        spec_ipv4(ipv4_text(x)) == Some(x),
        ipv4_text(x) == ipv4_text(y) ==> x == y,
{
    lemma_spec_ipv4_of_text(x);
    if ipv4_text(x) == ipv4_text(y) {
        lemma_ipv4_text_injective(x, y);
    }
}

// ------------------------------------------------------------------
// Addresses as text
// ------------------------------------------------------------------

/// What [`ip_to_u32`] gives for `s`.
pub open spec fn spec_ip_to_u32(s: Seq<char>) -> Result<u32, IpError> {
    match spec_ipv4(s) {
        Some(x) => Ok(x),
        None => Err(IpError::InvalidAddress),
    }
}

/// Parses dotted-quad text into an address.
pub fn ip_to_u32(ip: &str) -> (r: Result<u32, IpError>)
    ensures
        r == spec_ip_to_u32(ip@),
{
    let v = chars_of(ip);
    match parse_ipv4_chars(v.as_slice()) {
        Some(x) => Ok(x),
        None => Err(IpError::InvalidAddress),
    }
}

/// The dotted-quad text of an address.
pub fn u32_to_ip(val: u32) -> (s: String)
    ensures
        s@ == ipv4_text(val),
{
    let mut v: Vec<char> = Vec::new();
    push_ipv4(&mut v, val);
    assert(v@ =~= ipv4_text(val));
    string_from_chars(v.as_slice())
}

// ------------------------------------------------------------------
// Netmasks
// ------------------------------------------------------------------

/// The netmask of prefix length `p` (at most 32): the address whose `p`
/// high bits are set and whose other bits are clear.
pub open spec fn netmask(p: nat) -> u32 {
    (0x1_0000_0000 - pow2((32 - p) as nat)) as u32
}

/// The prefix length whose netmask is `m`, if `m` is a netmask.
pub open spec fn prefix_of(m: u32) -> Option<nat> {
    if exists|p: nat| p <= 32 && netmask(p) == m {
        Some(choose|p: nat| p <= 32 && netmask(p) == m)
    } else {
        None
    }
}

/// Distinct prefix lengths have distinct netmasks.
pub proof fn lemma_netmask_injective(p: nat, q: nat)
    requires
        p <= 32,
        q <= 32,
        netmask(p) == netmask(q),
    ensures
        p == q,
{
    lemma_netmask_value(p);
    lemma_netmask_value(q);
    if p < q {
        lemma_pow2_strictly_increases((32 - q) as nat, (32 - p) as nat);
    } else if q < p {
        lemma_pow2_strictly_increases((32 - p) as nat, (32 - q) as nat);
    }
}

proof fn lemma_netmask_value(p: nat)
    requires
        p <= 32,
    ensures
        netmask(p) as int == 0x1_0000_0000 - pow2((32 - p) as nat),
        1 <= pow2((32 - p) as nat) <= 0x1_0000_0000,
{
    lemma2_to64();
    lemma2_to64_rest();
    if p > 0 {
        lemma_u32_pow2_no_overflow((32 - p) as nat);
        lemma_pow2_strictly_increases((32 - p) as nat, 32);
    }
}

/// A netmask is its own prefix length's mask, and that prefix length is the
/// only one: a prefix length and its netmask determine each other.
pub proof fn lemma_prefix_of_netmask(p: nat)
    requires
        p <= 32,
    ensures
        prefix_of(netmask(p)) == Some(p),
{
    assert(exists|q: nat| q <= 32 && netmask(q) == netmask(p));
    let q = choose|q: nat| q <= 32 && netmask(q) == netmask(p);
    lemma_netmask_injective(p, q);
}

/// The netmask of a prefix length.
pub fn netmask_from_prefix(prefix: u8) -> (m: u32)
    requires
        prefix <= 32,
    ensures
        m == netmask(prefix as nat),
{
    proof {
        lemma_netmask_value(prefix as nat);
    }
    if prefix == 0 {
        proof {
            lemma2_to64();
        }
        0
    } else {
        let s: u32 = (32 - prefix) as u32;
        proof {
            lemma_u32_pow2_no_overflow(s as nat);
            lemma_u32_shl_is_mul(1, s);
            assert((1u32 << s) as nat == pow2(s as nat));
            assert((0xffff_ffffu32 << s) == 0xffff_ffffu32 - ((1u32 << s) - 1u32)) by (bit_vector)
                requires
                    s < 32,
            ;
        }
        0xffff_ffffu32 << s
    }
}

/// The prefix length of a netmask; a mask whose set bits are not the high
/// bits is refused.
pub fn prefix_from_netmask(mask: u32) -> (r: Result<u8, IpError>)
    ensures
        r == match prefix_of(mask) {
            Some(p) => Ok::<u8, IpError>(p as u8),
            None => Err(IpError::NonContiguousMask),
        },
{
    let mut p: u8 = 0;
    while p <= 32
        invariant
            p <= 33,
            forall|q: nat| q < p ==> netmask(q) != mask,
        decreases 33 - p,
    {
        if netmask_from_prefix(p) == mask {
            proof {
                lemma_prefix_of_netmask(p as nat);
            }
            return Ok(p);
        }
        p += 1;
    }
    Err(IpError::NonContiguousMask)
}

/// The network address of `ip` under a prefix length.
pub fn network_address(ip: u32, prefix: u8) -> (r: u32)
    requires
        prefix <= 32,
    ensures
        r == ip & netmask(prefix as nat),
{
    ip & netmask_from_prefix(prefix)
}

/// Whether `ip` lies in the segment of `network` under a prefix length.
pub fn ip_in_network(ip: u32, network: u32, prefix: u8) -> (r: bool)
    requires
        prefix <= 32,
    ensures
        r == ((ip & netmask(prefix as nat)) == (network & netmask(prefix as nat))),
{
    let mask = netmask_from_prefix(prefix);
    (ip & mask) == (network & mask)
}

// ------------------------------------------------------------------
// CIDR text
// ------------------------------------------------------------------

/// What [`parse_cidr`] gives for `s`: the network address of the address
/// before the first `/` (its host bits cleared) and the prefix length after
/// it.
pub open spec fn spec_parse_cidr(s: Seq<char>) -> Result<(u32, u8), IpError> {
    match first_index_of(s, '/') {
        None => Err(IpError::MissingSlash),
        Some(i) => match spec_ipv4(s.subrange(0, i)) {
            None => Err(IpError::InvalidAddress),
            Some(ip) => match parse_unsigned(s.subrange(i + 1, s.len() as int), 255) {
                None => Err(IpError::InvalidPrefix),
                Some(p) => if p > 32 {
                    Err(IpError::PrefixTooLarge)
                } else {
                    Ok((ip & netmask(p), p as u8))
                },
            },
        },
    }
}

/// Parses `a.b.c.d/p` into the network address and the prefix length.
pub fn parse_cidr(cidr: &str) -> (r: Result<(u32, u8), IpError>)
    ensures
        r == spec_parse_cidr(cidr@),
{
    let v = chars_of(cidr);
    let n = v.len();
    let slash = match find_char(v.as_slice(), '/') {
        Some(i) => i,
        None => {
            return Err(IpError::MissingSlash);
        },
    };
    proof {
        lemma_first_index_of(v@, '/', slash as int);
    }
    let head = slice_chars(v.as_slice(), 0, slash);
    let ip = match parse_ipv4_chars(head.as_slice()) {
        Some(x) => x,
        None => {
            return Err(IpError::InvalidAddress);
        },
    };
    let tail = slice_chars(v.as_slice(), slash + 1, n);
    let prefix = match parse_u8_chars(tail.as_slice()) {
        Some(p) => p,
        None => {
            return Err(IpError::InvalidPrefix);
        },
    };
    if prefix > 32 {
        return Err(IpError::PrefixTooLarge);
    }
    Ok((ip & netmask_from_prefix(prefix), prefix))
}

/// The message that refuses `ip` as an address.
pub open spec fn address_error_text(ip: Seq<char>) -> Seq<char> {
    "无效的 IPv4 地址: "@ + ip
}

/// The message that refuses the segment text `s`, where [`spec_parse_cidr`]
/// refuses it: it has no `/`; the address before the first `/`; the text
/// after it, which is no number up to 255; or that number, above 32.
pub open spec fn cidr_error_text(s: Seq<char>) -> Seq<char> {
    match first_index_of(s, '/') {
        None => "无效的 CIDR（缺少 /）: "@ + s,
        Some(i) => if spec_ipv4(s.subrange(0, i)) is None {
            address_error_text(s.subrange(0, i))
        } else {
            match parse_unsigned(s.subrange(i + 1, s.len() as int), 255) {
                None => "无效的前缀长度: "@ + s.subrange(i + 1, s.len() as int),
                Some(p) => "前缀长度不能大于 32: "@ + decimal(p),
            }
        },
    }
}

/// The message that refuses the segment `cidr` (see [`cidr_error_text`]).
pub fn cidr_error_message(cidr: &str) -> (m: String)
    ensures
        m@ == cidr_error_text(cidr@),
{
    let v = chars_of(cidr);
    let n = v.len();
    let mut out: Vec<char> = Vec::new();
    match find_char(v.as_slice(), '/') {
        None => {
            push_str(&mut out, "无效的 CIDR（缺少 /）: ");
            push_str(&mut out, cidr);
        },
        Some(slash) => {
            proof {
                lemma_first_index_of(v@, '/', slash as int);
            }
            let head = slice_chars(v.as_slice(), 0, slash);
            if parse_ipv4_chars(head.as_slice()).is_none() {
                push_str(&mut out, "无效的 IPv4 地址: ");
                push_chars(&mut out, head.as_slice());
            } else {
                let tail = slice_chars(v.as_slice(), slash + 1, n);
                match parse_u8_chars(tail.as_slice()) {
                    None => {
                        push_str(&mut out, "无效的前缀长度: ");
                        push_chars(&mut out, tail.as_slice());
                    },
                    Some(p) => {
                        push_str(&mut out, "前缀长度不能大于 32: ");
                        push_decimal(&mut out, p as u64);
                    },
                }
            }
        },
    }
    string_from_chars(out.as_slice())
}

/// What [`cidr_from_ip_mask`] gives.
pub open spec fn spec_cidr_from_ip_mask(ip: Seq<char>, mask: Seq<char>) -> Result<
    Seq<char>,
    IpError,
> {
    match spec_ipv4(ip) {
        None => Err(IpError::InvalidAddress),
        Some(a) => match spec_ipv4(mask) {
            None => Err(IpError::InvalidAddress),
            Some(m) => match prefix_of(m) {
                None => Err(IpError::NonContiguousMask),
                Some(p) => Ok(ipv4_text(a & m) + seq!['/'] + decimal(p)),
            },
        },
    }
}

/// The segment, as `net/prefix`, of an address under a dotted-quad netmask.
pub fn cidr_from_ip_mask(ip: &str, mask: &str) -> (r: Result<String, IpError>)
    ensures
        match spec_cidr_from_ip_mask(ip@, mask@) {
            Ok(t) => r matches Ok(s) && s@ == t,
            Err(e) => r == Err::<String, IpError>(e),
        },
{
    let ip_u = match ip_to_u32(ip) {
        Ok(x) => x,
        Err(e) => {
            return Err(e);
        },
    };
    let mask_u = match ip_to_u32(mask) {
        Ok(x) => x,
        Err(e) => {
            return Err(e);
        },
    };
    let prefix = match prefix_from_netmask(mask_u) {
        Ok(p) => p,
        Err(e) => {
            return Err(e);
        },
    };
    let mut v: Vec<char> = Vec::new();
    push_ipv4(&mut v, ip_u & mask_u);
    v.push('/');
    push_decimal(&mut v, prefix as u64);
    proof {
        let p = prefix_of(mask_u)->0;
        assert(p == prefix as nat);
    }
    assert(v@ =~= ipv4_text(ip_u & mask_u) + seq!['/'] + decimal(prefix as nat));
    Ok(string_from_chars(v.as_slice()))
}

/// Moves an address between a real segment and its mapped segment: keeps
/// the host bits of `ip` and takes the network bits from the mapped segment
/// (`to_mapped`) or from the real one.
pub open spec fn spec_rebase(ip: Seq<char>, real_seg: Seq<char>, mapped_seg: Seq<char>, to_mapped: bool) -> Result<
    u32,
    IpError,
> {
    match spec_parse_cidr(real_seg) {
        Err(e) => Err(e),
        Ok((real_net, real_prefix)) => match spec_parse_cidr(mapped_seg) {
            Err(e) => Err(e),
            Ok((mapped_net, mapped_prefix)) => if real_prefix != mapped_prefix {
                Err(IpError::PrefixMismatch)
            } else {
                match spec_ipv4(ip) {
                    None => Err(IpError::InvalidAddress),
                    Some(x) => Ok(
                        (if to_mapped {
                            mapped_net
                        } else {
                            real_net
                        }) | (x & !netmask(real_prefix as nat)),
                    ),
                }
            },
        },
    }
}

fn rebase(ip: &str, real_cidr: &str, mapped_cidr: &str, to_mapped: bool) -> (r: Result<u32, IpError>)
    ensures
        r == spec_rebase(ip@, real_cidr@, mapped_cidr@, to_mapped),
{
    let (real_net, real_prefix) = match parse_cidr(real_cidr) {
        Ok(c) => c,
        Err(e) => {
            return Err(e);
        },
    };
    let (mapped_net, mapped_prefix) = match parse_cidr(mapped_cidr) {
        Ok(c) => c,
        Err(e) => {
            return Err(e);
        },
    };
    if real_prefix != mapped_prefix {
        return Err(IpError::PrefixMismatch);
    }
    let x = match ip_to_u32(ip) {
        Ok(x) => x,
        Err(e) => {
            return Err(e);
        },
    };
    let mask = netmask_from_prefix(real_prefix);
    let host = x & !mask;
    if to_mapped {
        Ok(mapped_net | host)
    } else {
        Ok(real_net | host)
    }
}

/// The mapped address of a real address: the real segment's host bits put
/// into the mapped segment (both segments of one prefix length).
pub fn convert_real_to_mapped(real_ip: &str, real_cidr: &str, mapped_cidr: &str) -> (r: Result<
    String,
    IpError,
>)
    ensures
        match spec_rebase(real_ip@, real_cidr@, mapped_cidr@, true) {
            Ok(v) => r matches Ok(s) && s@ == ipv4_text(v),
            Err(e) => r == Err::<String, IpError>(e),
        },
{
    match rebase(real_ip, real_cidr, mapped_cidr, true) {
        Ok(v) => Ok(u32_to_ip(v)),
        Err(e) => Err(e),
    }
}

/// The real_seg address of a mapped_seg address, the inverse of
/// [`convert_real_to_mapped`].
pub fn convert_mapped_to_real(mapped_ip: &str, real_cidr: &str, mapped_cidr: &str) -> (r: Result<
    String,
    IpError,
>)
    ensures
        match spec_rebase(mapped_ip@, real_cidr@, mapped_cidr@, false) {
            Ok(v) => r matches Ok(s) && s@ == ipv4_text(v),
            Err(e) => r == Err::<String, IpError>(e),
        },
{
    match rebase(mapped_ip, real_cidr, mapped_cidr, false) {
        Ok(v) => Ok(u32_to_ip(v)),
        Err(e) => Err(e),
    }
}

/// What [`ip_in_cidr`] gives.
pub open spec fn spec_ip_in_cidr(ip: Seq<char>, cidr: Seq<char>) -> Result<bool, IpError> {
    match spec_parse_cidr(cidr) {
        Err(e) => Err(e),
        Ok((net, p)) => match spec_ipv4(ip) {
            None => Err(IpError::InvalidAddress),
            Some(x) => Ok((x & netmask(p as nat)) == (net & netmask(p as nat))),
        },
    }
}

/// Whether the address `ip` lies in the segment `cidr`.
pub fn ip_in_cidr(ip: &str, cidr: &str) -> (r: Result<bool, IpError>)
    ensures
        r == spec_ip_in_cidr(ip@, cidr@),
{
    let (net, prefix) = match parse_cidr(cidr) {
        Ok(c) => c,
        Err(e) => {
            return Err(e);
        },
    };
    let x = match ip_to_u32(ip) {
        Ok(x) => x,
        Err(e) => {
            return Err(e);
        },
    };
    Ok(ip_in_network(x, net, prefix))
}

// ------------------------------------------------------------------
// Laws
// ------------------------------------------------------------------

/// `net` has no host bits under prefix length `p`.
pub open spec fn is_network(net: u32, p: nat) -> bool {
    net & netmask(p) == net
}

/// Both segments are written by their network address, of one prefix
/// length, and `ip` is an address of the real segment.
pub open spec fn rebase_roundtrip_applies(ip: Seq<char>, real_seg: Seq<char>, mapped_seg: Seq<char>) -> bool {
    match (spec_parse_cidr(real_seg), spec_parse_cidr(mapped_seg), spec_ipv4(ip)) {
        (Ok((rn, rp)), Ok((mn, mp)), Some(x)) => {
            &&& rp == mp
            &&& is_network(rn, rp as nat)
            &&& is_network(mn, mp as nat)
            &&& x & netmask(rp as nat) == rn
        },
        _ => false,
    }
}

/// Mapping an address of the real segment and mapping the result back gives
/// the same address, as text too.
pub proof fn lemma_convert_roundtrip(ip: Seq<char>, real_seg: Seq<char>, mapped_seg: Seq<char>)
    requires
        rebase_roundtrip_applies(ip, real_seg, mapped_seg),
    ensures
        spec_rebase(ip, real_seg, mapped_seg, true) is Ok,
        spec_rebase(ipv4_text(spec_rebase(ip, real_seg, mapped_seg, true)->Ok_0), real_seg, mapped_seg, false)
            == spec_ip_to_u32(ip),
        ipv4_text(spec_rebase(ipv4_text(spec_rebase(ip, real_seg, mapped_seg, true)->Ok_0), real_seg, mapped_seg, false)->Ok_0)
            == ip,
{
    let (rn, rp) = spec_parse_cidr(real_seg)->Ok_0;
    let (mn, mp) = spec_parse_cidr(mapped_seg)->Ok_0;
    let x = spec_ipv4(ip)->0;
    let m = netmask(rp as nat);
    let mid = mn | (x & !m);
    assert(spec_rebase(ip, real_seg, mapped_seg, true) == Ok::<u32, IpError>(mid));
    lemma_ipv4_text_roundtrip(mid, mid);
    let back = rn | (mid & !m);
    assert(back == x) by (bit_vector)
        requires
            rn & m == rn,
            mn & m == mn,
            x & m == rn,
            mid == mn | (x & !m),
            back == rn | (mid & !m),
    ;
    assert(spec_rebase(ipv4_text(mid), real_seg, mapped_seg, false) == Ok::<u32, IpError>(back));
    lemma_ipv4_canonical(ip);
}

/// An address lies in the segment of its own network address, and the
/// network address of a network address is itself.
pub proof fn lemma_network_address(ip: u32, p: nat)
    ensures
        is_network(ip & netmask(p), p),
        ((ip & netmask(p)) & netmask(p)) == (ip & netmask(p)),
{
    let m = netmask(p);
    assert((ip & m) & m == ip & m) by (bit_vector);
}


/// Dotted-quad text holds digits and dots only.
pub proof fn lemma_ipv4_text_chars(x: u32)
    ensures
        forall|i: int| 0 <= i < ipv4_text(x).len() ==> is_digit(#[trigger] ipv4_text(x)[i]) || ipv4_text(x)[i] == '.',
{
    lemma_octets_of(x);
    lemma_decimal_facts(octet0(x));
    lemma_decimal_facts(octet1(x));
    lemma_decimal_facts(octet2(x));
    lemma_decimal_facts(octet3(x));
    let d0 = decimal(octet0(x));
    let d1 = decimal(octet1(x));
    let d2 = decimal(octet2(x));
    let d3 = decimal(octet3(x));
    let t = ipv4_text(x);
    assert forall|i: int| 0 <= i < t.len() implies is_digit(#[trigger] t[i]) || t[i] == '.' by {
        let l0 = d0.len() as int;
        let l1 = d1.len() as int;
        let l2 = d2.len() as int;
        if i < l0 {
            assert(t[i] == d0[i]);
        } else if i == l0 {
        } else if i < l0 + 1 + l1 {
            assert(t[i] == d1[i - l0 - 1]);
        } else if i == l0 + 1 + l1 {
        } else if i < l0 + l1 + 2 + l2 {
            assert(t[i] == d2[i - l0 - l1 - 2]);
        } else if i == l0 + l1 + 2 + l2 {
        } else {
            assert(t[i] == d3[i - l0 - l1 - l2 - 3]);
        }
    }
}

/// `addr/prefix` text parses back to the network address of `addr` and the
/// prefix length; where `addr` is already a network address, as
/// [`cidr_from_ip_mask`] writes it, that is `addr` itself.
pub proof fn lemma_cidr_text_parses(x: u32, p: nat)
    requires
        p <= 32,
    ensures
        spec_parse_cidr(ipv4_text(x) + seq!['/'] + decimal(p)) == Ok::<(u32, u8), IpError>(
            (x & netmask(p), p as u8),
        ),
        is_network(x, p) ==> spec_parse_cidr(ipv4_text(x) + seq!['/'] + decimal(p)) == Ok::<(u32, u8), IpError>(
            (x, p as u8),
        ),
{
    let t = ipv4_text(x);
    let s = t + seq!['/'] + decimal(p);
    lemma_ipv4_text_chars(x);
    lemma_decimal_facts(p);
    assert forall|j: int| 0 <= j < t.len() implies s[j] != '/' by {
        assert(s[j] == t[j]);
    }
    lemma_first_index_of(s, '/', t.len() as int);
    assert(s.subrange(0, t.len() as int) =~= t);
    lemma_spec_ipv4_of_text(x);
    let tail = s.subrange(t.len() as int + 1, s.len() as int);
    assert(tail =~= decimal(p));
    assert(tail[0] != '+');
    assert(parse_unsigned(tail, 255) == Some(p));
}

/// The netmask of a /24.
pub proof fn lemma_netmask_24()
    ensures
        netmask(24) == 0xFFFF_FF00u32,
{
    lemma2_to64();
}

} // verus!
