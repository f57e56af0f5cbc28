//! The server's address allocation and segment checks.
//!
//! Mapped segments are `100.64.N.0/24` for N = 1, 2, ... up to 254, and
//! operator addresses `100.127.0.N` for N = 2, 3, ... up to 254. The
//! counters live in the database; these functions decide, from the current
//! counter, what is handed out.

use vstd::prelude::*;
use vstd::string::*;
use crate::ip::{from_octets, ipv4_text, is_network, lemma_cidr_text_parses, lemma_netmask_24, lemma_octets, lemma_spec_ipv4_of_text, spec_ipv4, spec_parse_cidr, IpError};
use crate::text::{chars_of, decimal, ends_with, int_text, lemma_decimal_facts, lemma_split_len, parse_u8_chars, parse_unsigned, push_chars, push_i64, push_str, slice_chars, split, split_chars, string_from_chars, is_suffix};

verus! {

/// Largest counter value that still gives a segment or an address.
pub const MAX_ALLOCATION_INDEX: i64 = 254;

/// The mapped segment of counter value `i`: `100.64.{i}.0/24`.
pub open spec fn client_segment_text(i: int) -> Seq<char> {
    "100.64."@ + int_text(i) + ".0/24"@
}

/// The operator address of counter value `i`: `100.127.0.{i}`.
pub open spec fn operator_ip_text(i: int) -> Seq<char> {
    "100.127.0."@ + int_text(i)
}

/// The mapped segment for the current counter value, or the message that
/// the pool is used up (counter above 254). The caller stores `index + 1`.
pub fn allocate_client_segment(index: i64) -> (r: Result<String, String>)
    ensures
        index > 254 ==> (r matches Err(m) && m@ == "客户映射网段已耗尽（最大 254）"@),
        index <= 254 ==> (r matches Ok(s) && s@ == client_segment_text(index as int)),
{
    if index > MAX_ALLOCATION_INDEX {
        return Err("客户映射网段已耗尽（最大 254）".to_owned());
    }
    let mut v: Vec<char> = Vec::new();
    push_str(&mut v, "100.64.");
    push_i64(&mut v, index);
    push_str(&mut v, ".0/24");
    assert(v@ =~= client_segment_text(index as int));
    Ok(string_from_chars(v.as_slice()))
}

/// The operator address for the current counter value, or the message that
/// the pool is used up (counter above 254). The caller stores `index + 1`.
pub fn allocate_operator_ip(index: i64) -> (r: Result<String, String>)
    ensures
        index > 254 ==> (r matches Err(m) && m@ == "实施端 IP 已耗尽（最大 254）"@),
        index <= 254 ==> (r matches Ok(s) && s@ == operator_ip_text(index as int)),
{
    if index > MAX_ALLOCATION_INDEX {
        return Err("实施端 IP 已耗尽（最大 254）".to_owned());
    }
    let mut v: Vec<char> = Vec::new();
    push_str(&mut v, "100.127.0.");
    push_i64(&mut v, index);
    assert(v@ =~= operator_ip_text(index as int));
    Ok(string_from_chars(v.as_slice()))
}

/// One allocation of a mapped segment from the pool counter `counter`: the
/// segment handed out and the counter to store (one further); or, with the
/// pool used up, the message and the counter as it was.
pub fn client_segment_step(counter: i64) -> (r: (Result<String, String>, i64))
    ensures
        counter <= 254 ==> (r.0 matches Ok(s) && s@ == client_segment_text(counter as int)),
        counter > 254 ==> (r.0 matches Err(m) && m@ == "客户映射网段已耗尽（最大 254）"@),
        r.1 == next_counter(counter as int),
{
    match allocate_client_segment(counter) {
        Ok(s) => (Ok(s), counter + 1),
        Err(m) => (Err(m), counter),
    }
}

/// One allocation of an operator address from the pool counter `counter`:
/// the address handed out and the counter to store (one further); or, with
/// the pool used up, the message and the counter as it was.
pub fn operator_ip_step(counter: i64) -> (r: (Result<String, String>, i64))
    ensures
        counter <= 254 ==> (r.0 matches Ok(s) && s@ == operator_ip_text(counter as int)),
        counter > 254 ==> (r.0 matches Err(m) && m@ == "实施端 IP 已耗尽（最大 254）"@),
        r.1 == next_counter(counter as int),
{
    match allocate_operator_ip(counter) {
        Ok(s) => (Ok(s), counter + 1),
        Err(m) => (Err(m), counter),
    }
}

/// The counter stored after one allocation from `c`.
pub open spec fn next_counter(c: int) -> int {
    if c <= 254 {
        c + 1
    } else {
        c
    }
}

/// The counter after `n` allocations that start from `c`.
pub open spec fn counter_after(c: int, n: nat) -> int
    decreases n,
{
    if n == 0 {
        c
    } else {
        next_counter(counter_after(c, (n - 1) as nat))
    }
}

/// The counter after `n` allocations from `c`: `c + n` up to 255 where `c`
/// is at most 254, else `c` unchanged.
proof fn lemma_counter_after(c: int, n: nat)
    ensures
        counter_after(c, n) == if c > 254 {
            c
        } else if c + n > 255 {
            255
        } else {
            c + n
        },
    decreases n,
{
    if n > 0 {
        lemma_counter_after(c, (n - 1) as nat);
    }
}

/// Successive allocations from a pool counter `c` (at least 0; a fresh pool
/// starts at 1 for segments and 2 for operator addresses): the `n`-th one
/// (from 0) uses counter `c + n` while that is at most 254 and hands out its
/// segment and address; from then on every allocation fails and the counter
/// stays; and no two allocations that succeed hand out the same segment or
/// the same address.
pub proof fn lemma_allocation_sequence(c: int, i: nat, j: nat)
    requires
        0 <= c,
        i < j,
    ensures
        c + i <= 254 ==> counter_after(c, i) == c + i,
        counter_after(c, i) > 254 ==> counter_after(c, j) == counter_after(c, i),
        (counter_after(c, i) <= 254 && counter_after(c, j) <= 254) ==> {
            &&& client_segment_text(counter_after(c, i)) != client_segment_text(counter_after(c, j))
            &&& operator_ip_text(counter_after(c, i)) != operator_ip_text(counter_after(c, j))
        },
{
    lemma_counter_after(c, i);
    lemma_counter_after(c, j);
    if counter_after(c, i) <= 254 && counter_after(c, j) <= 254 {
        lemma_client_segment_parses(counter_after(c, i), counter_after(c, j));
        lemma_operator_ip_parses(counter_after(c, i), counter_after(c, j));
    }
}

proof fn lemma_small_decimals()
    ensures
        decimal(0) == seq!['0'],
        decimal(24) == seq!['2', '4'],
        decimal(64) == seq!['6', '4'],
        decimal(100) == seq!['1', '0', '0'],
        decimal(127) == seq!['1', '2', '7'],
{
    reveal_with_fuel(decimal, 4);
    assert(decimal(0) =~= seq!['0']);
    assert(decimal(24) =~= seq!['2', '4']);
    assert(decimal(64) =~= seq!['6', '4']);
    assert(decimal(100) =~= seq!['1', '0', '0']);
    assert(decimal(127) =~= seq!['1', '2', '7']);
}

/// The address `100.64.i.0`.
pub open spec fn client_segment_addr(i: nat) -> u32 {
    from_octets(100, 64, i, 0) as u32
}

/// The address `100.127.0.i`.
pub open spec fn operator_addr(i: nat) -> u32 {
    from_octets(100, 127, 0, i) as u32
}

/// Every counter value from 0 to 254 gives a segment that parses as the
/// /24 of `100.64.i.0`, so distinct counter values give distinct segments.
pub proof fn lemma_client_segment_parses(i: int, j: int)
    requires
        0 <= i <= 254,
        0 <= j <= 254,
    ensures
        spec_parse_cidr(client_segment_text(i)) == Ok::<(u32, u8), IpError>(
            (client_segment_addr(i as nat), 24u8),
        ),
        i != j ==> client_segment_text(i) != client_segment_text(j),
{
    assert(spec_parse_cidr(client_segment_text(i)) == Ok::<(u32, u8), IpError>(
        (client_segment_addr(i as nat), 24u8),
    )) by {
        lemma_client_segment_text(i);
        lemma_client_segment_is_network(i);
        lemma_cidr_text_parses(client_segment_addr(i as nat), 24);
    }
    if i != j {
        assert(client_segment_text(i) != client_segment_text(j)) by {
            lemma_client_segment_text(i);
            lemma_client_segment_text(j);
            lemma_client_segment_is_network(i);
            lemma_client_segment_is_network(j);
            lemma_cidr_text_parses(client_segment_addr(i as nat), 24);
            lemma_cidr_text_parses(client_segment_addr(j as nat), 24);
            lemma_octets(100, 64, i as nat, 0);
            lemma_octets(100, 64, j as nat, 0);
        }
    }
}

proof fn lemma_client_segment_is_network(i: int)
    requires
        0 <= i <= 254,
    ensures
        is_network(client_segment_addr(i as nat), 24),
{
    lemma_netmask_24();
    let x = client_segment_addr(i as nat);
    let k = i as u32;
    assert(x == (0x6440_0000u32 + k * 256) as u32);
    assert(((0x6440_0000u32 + k * 256) as u32) & 0xFFFF_FF00u32 == ((0x6440_0000u32 + k * 256) as u32))
        by (bit_vector)
        requires
            k <= 254,
    ;
}

proof fn lemma_client_segment_text(i: int)
    requires
        0 <= i <= 254,
    ensures
        client_segment_text(i) == ipv4_text(client_segment_addr(i as nat)) + seq!['/'] + decimal(24),
{
    lemma_small_decimals();
    lemma_octets(100, 64, i as nat, 0);
    reveal_strlit("100.64.");
    reveal_strlit(".0/24");
    let x = client_segment_addr(i as nat);
    assert(x as nat == from_octets(100, 64, i as nat, 0));
    assert(ipv4_text(x) == decimal(100) + seq!['.'] + decimal(64) + seq!['.'] + decimal(i as nat)
        + seq!['.'] + decimal(0));
    assert("100.64."@ =~= decimal(100) + seq!['.'] + decimal(64) + seq!['.']);
    assert(".0/24"@ =~= seq!['.'] + decimal(0) + seq!['/'] + decimal(24));
    assert(int_text(i) == decimal(i as nat));
    assert(client_segment_text(i) =~= ipv4_text(x) + seq!['/'] + decimal(24));
}

/// Every counter value from 0 to 254 gives an address that parses as
/// `100.127.0.i`, so distinct counter values give distinct addresses.
pub proof fn lemma_operator_ip_parses(i: int, j: int)
    requires
        0 <= i <= 254,
        0 <= j <= 254,
    ensures
        spec_ipv4(operator_ip_text(i)) == Some(operator_addr(i as nat)),
        i != j ==> operator_ip_text(i) != operator_ip_text(j),
{
    lemma_small_decimals();
    lemma_octets(100, 127, 0, i as nat);
    lemma_octets(100, 127, 0, j as nat);
    reveal_strlit("100.127.0.");
    let pre = decimal(100) + seq!['.'] + decimal(127) + seq!['.'] + decimal(0) + seq!['.'];
    assert("100.127.0."@ =~= pre);
    assert(operator_addr(i as nat) as nat == from_octets(100, 127, 0, i as nat));
    assert(operator_addr(j as nat) as nat == from_octets(100, 127, 0, j as nat));
    assert(ipv4_text(operator_addr(i as nat)) =~= pre + decimal(i as nat));
    assert(ipv4_text(operator_addr(j as nat)) =~= pre + decimal(j as nat));
    assert(operator_ip_text(i) =~= ipv4_text(operator_addr(i as nat)));
    assert(operator_ip_text(j) =~= ipv4_text(operator_addr(j as nat)));
    lemma_spec_ipv4_of_text(operator_addr(i as nat));
    lemma_spec_ipv4_of_text(operator_addr(j as nat));
}

// ------------------------------------------------------------------
// Segment checks
// ------------------------------------------------------------------

/// A reported segment is accepted when it ends in `/24` and what stands
/// before that is four `.`-separated parts, each of which `u8` parses
/// (an optional `+` and digits of value at most 255).
pub open spec fn valid_cidr_24(cidr: Seq<char>) -> bool {
    &&& is_suffix("/24"@, cidr)
    &&& {
        let parts = split(cidr.subrange(0, cidr.len() - 3), '.');
        &&& parts.len() == 4
        &&& forall|k: int| 0 <= k < 4 ==> parse_unsigned(#[trigger] parts[k], 255) is Some
    }
}

/// Whether a reported segment is written as a /24.
pub fn validate_cidr_24(cidr: &str) -> (r: bool)
    ensures
        r == valid_cidr_24(cidr@),
{
    let v = chars_of(cidr);
    let tail = chars_of("/24");
    if !ends_with(v.as_slice(), tail.as_slice()) {
        return false;
    }
    proof {
        reveal_strlit("/24");
    }
    let n = v.len();
    let head = slice_chars(v.as_slice(), 0, n - 3);
    let parts = split_chars(head.as_slice(), '.');
    if parts.len() != 4 {
        return false;
    }
    let mut k: usize = 0;
    while k < 4
        invariant
            parts@.len() == 4,
            head@ == cidr@.subrange(0, cidr@.len() - 3),
            forall|j: int| 0 <= j < parts@.len() ==> (#[trigger] parts@[j])@ == split(head@, '.')[j],
            k <= 4,
            forall|j: int| 0 <= j < k ==> parse_unsigned(#[trigger] split(head@, '.')[j], 255) is Some,
        decreases 4 - k,
    {
        if parse_u8_chars(parts[k].as_slice()).is_none() {
            return false;
        }
        k += 1;
    }
    true
}

/// The example line of a mapping: the `.10` host of the real segment and
/// of the mapped segment, `a.b.c.10 -> d.e.f.10`, taken from the first
/// three `.`-parts of each segment's address; `real -> mapped` where either
/// address does not have four parts.
pub open spec fn access_example(real_cidr: Seq<char>, mapped_cidr: Seq<char>) -> Seq<char> {
    let rp = split(split(real_cidr, '/')[0], '.');
    let mp = split(split(mapped_cidr, '/')[0], '.');
    if rp.len() == 4 && mp.len() == 4 {
        rp[0] + "."@ + rp[1] + "."@ + rp[2] + ".10 -> "@ + mp[0] + "."@ + mp[1] + "."@ + mp[2]
            + ".10"@
    } else {
        real_cidr + " -> "@ + mapped_cidr
    }
}

/// The example line of a mapping, such as `192.168.1.10 -> 100.64.1.10`.
pub fn generate_access_example(real_cidr: &str, mapped_cidr: &str) -> (s: String)
    ensures
        s@ == access_example(real_cidr@, mapped_cidr@),
{
    let rv = chars_of(real_cidr);
    let mv = chars_of(mapped_cidr);
    let r_pieces = split_chars(rv.as_slice(), '/');
    let m_pieces = split_chars(mv.as_slice(), '/');
    proof {
        lemma_split_len(rv@, '/');
        lemma_split_len(mv@, '/');
    }
    let rp = split_chars(r_pieces[0].as_slice(), '.');
    let mp = split_chars(m_pieces[0].as_slice(), '.');
    let mut out: Vec<char> = Vec::new();
    if rp.len() == 4 && mp.len() == 4 {
        push_chars(&mut out, rp[0].as_slice());
        push_str(&mut out, ".");
        push_chars(&mut out, rp[1].as_slice());
        push_str(&mut out, ".");
        push_chars(&mut out, rp[2].as_slice());
        push_str(&mut out, ".10 -> ");
        push_chars(&mut out, mp[0].as_slice());
        push_str(&mut out, ".");
        push_chars(&mut out, mp[1].as_slice());
        push_str(&mut out, ".");
        push_chars(&mut out, mp[2].as_slice());
        push_str(&mut out, ".10");
    } else {
        push_str(&mut out, real_cidr);
        push_str(&mut out, " -> ");
        push_str(&mut out, mapped_cidr);
    }
    assert(out@ =~= access_example(real_cidr@, mapped_cidr@));
    string_from_chars(out.as_slice())
}

} // verus!
