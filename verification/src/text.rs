//! Character-sequence helpers: conversion between `&str` / `String` and
//! `Vec<char>`, decimal numbers in the grammar that `str::parse` accepts for
//! unsigned integers, and their canonical decimal rendering.

use vstd::prelude::*;
use vstd::string::*;
use vstd::utf8::{decode_utf8, valid_utf8};

verus! {

// ------------------------------------------------------------------
// Conversion between strings and character vectors
// ------------------------------------------------------------------

/// The characters of `s`, in order.
pub fn chars_of(s: &str) -> (v: Vec<char>)
    ensures
        v@ == s@,
{
    let mut v: Vec<char> = Vec::new();
    let n = s.unicode_len();
    let mut i: usize = 0;
    while i < n
        invariant
            n == s@.len(),
            i <= n,
            v@ == s@.subrange(0, i as int),
        decreases n - i,
    {
        let c = s.get_char(i);
        v.push(c);
        i += 1;
        assert(v@ =~= s@.subrange(0, i as int));
    }
    assert(v@ =~= s@);
    v
}

/// `String`'s `FromIterator<&char>`: the string made of the characters of `v`.
#[verifier::external_body]
pub(crate) fn string_from_chars(v: &[char]) -> (s: String)
    ensures
        s@ == v@,
{
    v.iter().collect()
}

/// Appends every character of `s` to `out`.
pub fn push_str(out: &mut Vec<char>, s: &str)
    ensures
        final(out)@ == old(out)@ + s@,
{
    let v = chars_of(s);
    let n = v.len();
    let mut i: usize = 0;
    while i < n
        invariant
            n == v@.len(),
            i <= n,
            out@ == old(out)@ + v@.subrange(0, i as int),
        decreases n - i,
    {
        out.push(v[i]);
        i += 1;
        assert(out@ =~= old(out)@ + v@.subrange(0, i as int));
    }
    assert(v@.subrange(0, n as int) =~= v@);
}

/// Appends the characters of `src` to `out`.
pub fn push_chars(out: &mut Vec<char>, src: &[char])
    ensures
        final(out)@ == old(out)@ + src@,
{
    let n = src.len();
    let mut i: usize = 0;
    while i < n
        invariant
            n == src@.len(),
            i <= n,
            out@ == old(out)@ + src@.subrange(0, i as int),
        decreases n - i,
    {
        out.push(src[i]);
        i += 1;
        assert(out@ =~= old(out)@ + src@.subrange(0, i as int));
    }
    assert(src@.subrange(0, n as int) =~= src@);
}

/// The characters `v[from..to]` as a new vector.
pub fn slice_chars(v: &[char], from: usize, to: usize) -> (r: Vec<char>)
    requires
        from <= to <= v@.len(),
    ensures
        r@ == v@.subrange(from as int, to as int),
{
    let mut r: Vec<char> = Vec::new();
    let mut i: usize = from;
    while i < to
        invariant
            from <= i <= to,
            to <= v@.len(),
            r@ == v@.subrange(from as int, i as int),
        decreases to - i,
    {
        r.push(v[i]);
        i += 1;
        assert(r@ =~= v@.subrange(from as int, i as int));
    }
    r
}

/// Whether two character sequences are equal.
pub fn chars_eq(a: &[char], b: &[char]) -> (r: bool)
    ensures
        r == (a@ == b@),
{
    if a.len() != b.len() {
        return false;
    }
    let n = a.len();
    let mut i: usize = 0;
    while i < n
        invariant
            n == a@.len(),
            n == b@.len(),
            i <= n,
            forall|j: int| 0 <= j < i ==> a@[j] == b@[j],
        decreases n - i,
    {
        if a[i] != b[i] {
            return false;
        }
        i += 1;
    }
    assert(a@ =~= b@);
    true
}

/// Whether `s` equals the string literal `lit`.
pub fn chars_eq_str(s: &[char], lit: &str) -> (r: bool)
    ensures
        r == (s@ == lit@),
{
    let l = chars_of(lit);
    chars_eq(s, l.as_slice())
}

// ------------------------------------------------------------------
// Prefixes, suffixes, searching
// ------------------------------------------------------------------

pub open spec fn is_prefix(p: Seq<char>, s: Seq<char>) -> bool {
    p.len() <= s.len() && s.subrange(0, p.len() as int) == p
}

pub open spec fn is_suffix(p: Seq<char>, s: Seq<char>) -> bool {
    p.len() <= s.len() && s.subrange(s.len() - p.len(), s.len() as int) == p
}

/// Whether `p` occurs in `s` starting at position `i`.
pub open spec fn occurs_at(p: Seq<char>, s: Seq<char>, i: int) -> bool {
    0 <= i && i + p.len() <= s.len() && s.subrange(i, i + p.len()) == p
}

/// Whether `p` occurs anywhere in `s`.
pub open spec fn contains_seq(s: Seq<char>, p: Seq<char>) -> bool {
    exists|i: int| occurs_at(p, s, i)
}

/// Whether `p` occurs in `s` at position `i` (executable).
pub fn occurs_at_exec(p: &[char], s: &[char], i: usize) -> (r: bool)
    ensures
        r == occurs_at(p@, s@, i as int),
{
    if i > s.len() || p.len() > s.len() - i {
        return false;
    }
    let n = p.len();
    let mut k: usize = 0;
    while k < n
        invariant
            n == p@.len(),
            k <= n,
            i + n <= s@.len(),
            s@.len() == s.len(),
            forall|j: int| 0 <= j < k ==> s@[i + j] == p@[j],
        decreases n - k,
    {
        if s[i + k] != p[k] {
            assert(s@.subrange(i as int, i + n)[k as int] != p@[k as int]);
            return false;
        }
        k += 1;
    }
    assert(s@.subrange(i as int, i + n) =~= p@);
    true
}

/// Whether `s` starts with `p`.
pub fn starts_with(s: &[char], p: &[char]) -> (r: bool)
    ensures
        r == is_prefix(p@, s@),
{
    occurs_at_exec(p, s, 0)
}

/// Whether `s` ends with `p`.
pub fn ends_with(s: &[char], p: &[char]) -> (r: bool)
    ensures
        r == is_suffix(p@, s@),
{
    if p.len() > s.len() {
        return false;
    }
    occurs_at_exec(p, s, s.len() - p.len())
}

/// Whether `s` starts with the literal `lit`.
pub fn starts_with_str(s: &[char], lit: &str) -> (r: bool)
    ensures
        r == is_prefix(lit@, s@),
{
    let l = chars_of(lit);
    starts_with(s, l.as_slice())
}

/// Whether `p` occurs in `s`.
pub fn contains_chars(s: &[char], p: &[char]) -> (r: bool)
    ensures
        r == contains_seq(s@, p@),
{
    if p.len() > s.len() {
        assert forall|i: int| !occurs_at(p@, s@, i) by {}
        return false;
    }
    if p.len() == 0 {
        assert(s@.subrange(0, 0) =~= p@);
        assert(occurs_at(p@, s@, 0));
        return true;
    }
    let last = s.len() - p.len();
    let mut i: usize = 0;
    while i <= last
        invariant
            last == s@.len() - p@.len(),
            p@.len() >= 1,
            s@.len() == s.len(),
            i <= last + 1,
            forall|j: int| 0 <= j < i ==> !occurs_at(p@, s@, j),
        decreases last + 1 - i,
    {
        if occurs_at_exec(p, s, i) {
            return true;
        }
        i += 1;
    }
    assert forall|j: int| !occurs_at(p@, s@, j) by {
        if 0 <= j < i {
        }
    }
    false
}

/// Whether the literal `lit` occurs in `s`.
pub fn contains_str(s: &[char], lit: &str) -> (r: bool)
    ensures
        r == contains_seq(s@, lit@),
{
    let l = chars_of(lit);
    contains_chars(s, l.as_slice())
}

/// Index of the first occurrence of `c` in `s`.
pub open spec fn first_index_of(s: Seq<char>, c: char) -> Option<int> {
    if exists|i: int| 0 <= i < s.len() && s[i] == c {
        Some(choose|i: int| 0 <= i < s.len() && s[i] == c && forall|j: int| 0 <= j < i ==> s[j] != c)
    } else {
        None
    }
}

/// `first_index_of` names the one index at which `c` first occurs.
pub proof fn lemma_first_index_of(s: Seq<char>, c: char, i: int)
    requires
        0 <= i < s.len(),
        s[i] == c,
        forall|j: int| 0 <= j < i ==> s[j] != c,
    ensures
        first_index_of(s, c) == Some(i),
{
    assert(exists|k: int| 0 <= k < s.len() && s[k] == c);
    assert(exists|k: int| 0 <= k < s.len() && s[k] == c && forall|j: int| 0 <= j < k ==> s[j] != c);
    let k = choose|k: int| 0 <= k < s.len() && s[k] == c && forall|j: int| 0 <= j < k ==> s[j] != c;
    if k < i {
        assert(s[k] != c);
    } else if k > i {
        assert(s[i] != c);
    }
}

/// The first index at which `c` occurs in `s`, if any.
pub fn find_char(s: &[char], c: char) -> (r: Option<usize>)
    ensures
        match r {
            Some(i) => i < s@.len() && s@[i as int] == c && forall|j: int| 0 <= j < i ==> s@[j] != c,
            None => forall|j: int| 0 <= j < s@.len() ==> s@[j] != c,
        },
{
    let n = s.len();
    let mut i: usize = 0;
    while i < n
        invariant
            n == s@.len(),
            i <= n,
            forall|j: int| 0 <= j < i ==> s@[j] != c,
        decreases n - i,
    {
        if s[i] == c {
            return Some(i);
        }
        i += 1;
    }
    None
}

/// The last index at which `c` occurs in `s`, if any.
pub fn rfind_char(s: &[char], c: char) -> (r: Option<usize>)
    ensures
        match r {
            Some(i) => i < s@.len() && s@[i as int] == c && forall|j: int| i < j < s@.len() ==> s@[j] != c,
            None => forall|j: int| 0 <= j < s@.len() ==> s@[j] != c,
        },
{
    let mut i: usize = s.len();
    while i > 0
        invariant
            i <= s@.len(),
            forall|j: int| i <= j < s@.len() ==> s@[j] != c,
        decreases i,
    {
        if s[i - 1] == c {
            return Some(i - 1);
        }
        i -= 1;
    }
    None
}

// ------------------------------------------------------------------
// Decimal numbers
// ------------------------------------------------------------------

pub open spec fn is_digit(c: char) -> bool {
    '0' <= c && c <= '9'
}

pub open spec fn digit_value(c: char) -> nat {
    (c as int - '0' as int) as nat
}

pub open spec fn digit_char(d: nat) -> char {
    (d + '0' as int) as char
}

pub open spec fn all_digits(s: Seq<char>) -> bool {
    forall|i: int| 0 <= i < s.len() ==> is_digit(#[trigger] s[i])
}

/// The number that the decimal digits `s` denote.
pub open spec fn decimal_value(s: Seq<char>) -> nat
    decreases s.len(),
{
    if s.len() == 0 {
        0
    } else {
        decimal_value(s.drop_last()) * 10 + digit_value(s.last())
    }
}

/// The canonical decimal rendering of `n` (no sign, no leading zeros).
pub open spec fn decimal(n: nat) -> Seq<char>
    decreases n,
{
    if n < 10 {
        seq![digit_char(n)]
    } else {
        decimal(n / 10).push(digit_char(n % 10))
    }
}

/// Digits without a superfluous leading zero.
pub open spec fn canonical_digits(s: Seq<char>) -> bool {
    s.len() >= 1 && all_digits(s) && (s.len() == 1 || s[0] != '0')
}

/// What `str::parse` gives for an unsigned integer type whose largest value
/// is `max`: an optional `+`, then one or more ASCII digits whose value does
/// not exceed `max`.
pub open spec fn parse_unsigned(s: Seq<char>, max: nat) -> Option<nat> {
    let d = if s.len() > 0 && s[0] == '+' {
        s.drop_first()
    } else {
        s
    };
    if d.len() > 0 && all_digits(d) && decimal_value(d) <= max {
        Some(decimal_value(d))
    } else {
        None
    }
}

pub proof fn lemma_decimal_value_prefix_le(s: Seq<char>, k: int)
    requires
        all_digits(s),
        0 <= k <= s.len(),
    ensures
        decimal_value(s.subrange(0, k)) <= decimal_value(s),
    decreases s.len(),
{
    if k < s.len() {
        let t = s.drop_last();
        assert(all_digits(t)) by {
            assert forall|i: int| 0 <= i < t.len() implies is_digit(#[trigger] t[i]) by {
                assert(t[i] == s[i]);
            }
        }
        lemma_decimal_value_prefix_le(t, k);
        assert(t.subrange(0, k) =~= s.subrange(0, k));
    } else {
        assert(s.subrange(0, k) =~= s);
    }
}

pub proof fn lemma_decimal_value_push(s: Seq<char>, c: char)
    ensures
        decimal_value(s.push(c)) == decimal_value(s) * 10 + digit_value(c),
{
    assert(s.push(c).drop_last() =~= s);
}

pub proof fn lemma_digit_roundtrip(c: char)
    requires
        is_digit(c),
    ensures
        digit_value(c) < 10,
        digit_char(digit_value(c)) == c,
{
}

pub proof fn lemma_decimal_facts(n: nat)
    ensures
        canonical_digits(decimal(n)),
        decimal_value(decimal(n)) == n,
        n < 10 ==> decimal(n).len() == 1,
        10 <= n < 100 ==> decimal(n).len() == 2,
        100 <= n < 1000 ==> decimal(n).len() == 3,
        n >= 10 ==> decimal(n).len() >= 2,
        decimal(n).len() <= n + 1,
    decreases n,
{
    if n < 10 {
        assert(decimal(n) =~= seq![digit_char(n)]);
        assert(decimal(n).drop_last() =~= Seq::<char>::empty());
        assert(digit_char(n) as int == n + 48);
        assert(digit_value(digit_char(n)) == n);
        assert(decimal(n).last() == digit_char(n));
        assert(decimal_value(Seq::<char>::empty()) == 0);
    } else {
        lemma_decimal_facts(n / 10);
        let p = decimal(n / 10);
        let d = digit_char(n % 10);
        lemma_decimal_value_push(p, d);
        assert(decimal(n) == p.push(d));
        assert(all_digits(p.push(d))) by {
            assert forall|i: int| 0 <= i < p.push(d).len() implies is_digit(#[trigger] p.push(d)[i]) by {
                if i < p.len() {
                    assert(p.push(d)[i] == p[i]);
                }
            }
        }
        assert(p.push(d)[0] == p[0]);
        if n / 10 < 10 {
            assert(p[0] != '0');
        }
    }
}

/// Canonical digit strings are exactly the renderings of their values.
pub proof fn lemma_canonical_is_decimal(s: Seq<char>)
    requires
        canonical_digits(s),
    ensures
        s == decimal(decimal_value(s)),
    decreases s.len(),
{
    if s.len() == 1 {
        assert(s.drop_last() =~= Seq::<char>::empty());
        assert(decimal_value(Seq::<char>::empty()) == 0);
        lemma_digit_roundtrip(s[0]);
        assert(decimal(decimal_value(s)) =~= s);
    } else {
        let t = s.drop_last();
        let c = s.last();
        assert(t[0] == s[0]);
        assert(all_digits(t)) by {
            assert forall|i: int| 0 <= i < t.len() implies is_digit(#[trigger] t[i]) by {
                assert(t[i] == s[i]);
            }
        }
        lemma_canonical_is_decimal(t);
        lemma_decimal_value_prefix_le(t, 1);
        assert(t.subrange(0, 1).drop_last() =~= Seq::<char>::empty());
        assert(t.subrange(0, 1).last() == t[0]);
        assert(decimal_value(Seq::<char>::empty()) == 0);
        assert(decimal_value(t.subrange(0, 1)) == digit_value(t[0]));
        assert(decimal_value(t) >= 1);
        assert(is_digit(c));
        lemma_digit_roundtrip(c);
        let v = decimal_value(s);
        assert(v == decimal_value(t) * 10 + digit_value(c));
        assert(v / 10 == decimal_value(t));
        assert(v % 10 == digit_value(c));
        assert(v >= 10);
        assert(decimal(v) == decimal(v / 10).push(digit_char(v % 10)));
        assert(s =~= t.push(c));
    }
}

/// The digit character for `d < 10`.
pub fn digit_to_char(d: u64) -> (c: char)
    requires
        d < 10,
    ensures
        c == digit_char(d as nat),
        is_digit(c),
{
    match d {
        0 => '0',
        1 => '1',
        2 => '2',
        3 => '3',
        4 => '4',
        5 => '5',
        6 => '6',
        7 => '7',
        8 => '8',
        _ => '9',
    }
}

/// Appends the canonical decimal rendering of `n` to `out`.
pub fn push_decimal(out: &mut Vec<char>, n: u64)
    ensures
        final(out)@ == old(out)@ + decimal(n as nat),
    decreases n,
{
    if n >= 10 {
        push_decimal(out, n / 10);
    }
    let c = digit_to_char(n % 10);
    out.push(c);
    proof {
        if n < 10 {
            assert(decimal(n as nat) =~= seq![c]);
        } else {
            assert(decimal(n as nat) == decimal((n / 10) as nat).push(digit_char((n % 10) as nat)));
        }
    }
    assert(out@ =~= old(out)@ + decimal(n as nat));
}

/// Appends the canonical decimal rendering of `n` to `out`.
pub fn push_decimal_u128(out: &mut Vec<char>, n: u128)
    ensures
        final(out)@ == old(out)@ + decimal(n as nat),
    decreases n,
{
    if n >= 10 {
        push_decimal_u128(out, n / 10);
    }
    let c = digit_to_char((n % 10) as u64);
    out.push(c);
    proof {
        if n < 10 {
            assert(decimal(n as nat) =~= seq![c]);
        } else {
            assert(decimal(n as nat) == decimal((n / 10) as nat).push(digit_char((n % 10) as nat)));
        }
    }
    assert(out@ =~= old(out)@ + decimal(n as nat));
}

/// The canonical decimal rendering of `n`.
pub fn decimal_string(n: u64) -> (s: String)
    ensures
        s@ == decimal(n as nat),
{
    let mut v: Vec<char> = Vec::new();
    push_decimal(&mut v, n);
    assert(v@ =~= decimal(n as nat));
    string_from_chars(v.as_slice())
}

/// `str::parse` for an unsigned integer type whose largest value is `max`.
pub fn parse_unsigned_chars(s: &[char], max: u64) -> (r: Option<u64>)
    ensures
        match r {
            Some(v) => parse_unsigned(s@, max as nat) == Some(v as nat),
            None => parse_unsigned(s@, max as nat) is None,
        },
{
    let n = s.len();
    let start: usize = if n > 0 && s[0] == '+' {
        1
    } else {
        0
    };
    let ghost d = if s@.len() > 0 && s@[0] == '+' {
        s@.drop_first()
    } else {
        s@
    };
    assert(d =~= s@.subrange(start as int, n as int));
    if start >= n {
        return None;
    }
    let mut acc: u128 = 0;
    let mut i: usize = start;
    while i < n
        invariant
            n == s@.len(),
            start <= i <= n,
            d == s@.subrange(start as int, n as int),
            d == (if s@.len() > 0 && s@[0] == '+' {
                s@.drop_first()
            } else {
                s@
            }),
            acc as nat == decimal_value(s@.subrange(start as int, i as int)),
            acc <= max,
            all_digits(s@.subrange(start as int, i as int)),
        decreases n - i,
    {
        let c = s[i];
        if !(c >= '0' && c <= '9') {
            assert(d[i - start] == c);
            assert(!is_digit(d[i - start]));
            assert(!all_digits(d));
            assert(parse_unsigned(s@, max as nat) is None);
            return None;
        }
        let dv = (c as u32 - '0' as u32) as u128;
        proof {
            lemma_decimal_value_push(s@.subrange(start as int, i as int), c);
            assert(s@.subrange(start as int, i as int).push(c) =~= s@.subrange(start as int, i + 1));
        }
        acc = acc * 10 + dv;
        assert(acc as nat == decimal_value(s@.subrange(start as int, i + 1)));
        assert(all_digits(s@.subrange(start as int, i + 1))) by {
            let t = s@.subrange(start as int, i + 1);
            assert forall|j: int| 0 <= j < t.len() implies is_digit(#[trigger] t[j]) by {
                if j < t.len() - 1 {
                    assert(t[j] == s@.subrange(start as int, i as int)[j]);
                }
            }
        }
        if acc > max as u128 {
            proof {
                if all_digits(d) {
                    lemma_decimal_value_prefix_le(d, i + 1 - start);
                    assert(d.subrange(0, i + 1 - start) =~= s@.subrange(start as int, i + 1));
                }
            }
            return None;
        }
        i += 1;
    }
    assert(s@.subrange(start as int, n as int) == d);
    Some(acc as u64)
}

/// `str::parse::<u8>`.
pub fn parse_u8_chars(s: &[char]) -> (r: Option<u8>)
    ensures
        match r {
            Some(v) => parse_unsigned(s@, 255) == Some(v as nat),
            None => parse_unsigned(s@, 255) is None,
        },
{
    match parse_unsigned_chars(s, 255) {
        Some(v) => Some(v as u8),
        None => None,
    }
}

/// `str::parse::<u16>`.
pub fn parse_u16_chars(s: &[char]) -> (r: Option<u16>)
    ensures
        match r {
            Some(v) => parse_unsigned(s@, 65535) == Some(v as nat),
            None => parse_unsigned(s@, 65535) is None,
        },
{
    match parse_unsigned_chars(s, 65535) {
        Some(v) => Some(v as u16),
        None => None,
    }
}

/// `str::parse::<u32>`.
pub fn parse_u32_chars(s: &[char]) -> (r: Option<u32>)
    ensures
        match r {
            Some(v) => parse_unsigned(s@, 4294967295) == Some(v as nat),
            None => parse_unsigned(s@, 4294967295) is None,
        },
{
    match parse_unsigned_chars(s, 4294967295) {
        Some(v) => Some(v as u32),
        None => None,
    }
}

/// `str::parse::<usize>`.
pub fn parse_usize_chars(s: &[char]) -> (r: Option<usize>)
    ensures
        match r {
            Some(v) => parse_unsigned(s@, usize::MAX as nat) == Some(v as nat),
            None => parse_unsigned(s@, usize::MAX as nat) is None,
        },
{
    match parse_unsigned_chars(s, usize::MAX as u64) {
        Some(v) => Some(v as usize),
        None => None,
    }
}


// ------------------------------------------------------------------
// Hexadecimal
// ------------------------------------------------------------------

/// The upper-case hexadecimal digit for `d < 16`.
pub open spec fn hex_upper(d: nat) -> char {
    if d < 10 {
        digit_char(d)
    } else {
        ((d - 10) + 'A' as int) as char
    }
}

/// The two upper-case hexadecimal digits of a byte (`{:02X}`).
pub open spec fn hex2(b: u8) -> Seq<char> {
    seq![hex_upper((b / 16) as nat), hex_upper((b % 16) as nat)]
}

fn hex_digit_upper(d: u8) -> (c: char)
    requires
        d < 16,
    ensures
        c == hex_upper(d as nat),
{
    match d {
        0 => '0',
        1 => '1',
        2 => '2',
        3 => '3',
        4 => '4',
        5 => '5',
        6 => '6',
        7 => '7',
        8 => '8',
        9 => '9',
        10 => 'A',
        11 => 'B',
        12 => 'C',
        13 => 'D',
        14 => 'E',
        _ => 'F',
    }
}

/// Appends the two upper-case hexadecimal digits of `b` to `out`.
pub fn push_hex2(out: &mut Vec<char>, b: u8)
    ensures
        final(out)@ == old(out)@ + hex2(b),
{
    let hi = hex_digit_upper(b / 16);
    let lo = hex_digit_upper(b % 16);
    out.push(hi);
    out.push(lo);
    assert(out@ =~= old(out)@ + hex2(b));
}


// ------------------------------------------------------------------
// Joining
// ------------------------------------------------------------------

/// The texts of a sequence of strings.
pub open spec fn views(v: Seq<String>) -> Seq<Seq<char>> {
    v.map_values(|s: String| s@)
}

/// The parts, with `sep` between each two.
pub open spec fn join(parts: Seq<Seq<char>>, sep: Seq<char>) -> Seq<char>
    decreases parts.len(),
{
    if parts.len() == 0 {
        Seq::empty()
    } else if parts.len() == 1 {
        parts[0]
    } else {
        join(parts.drop_last(), sep) + sep + parts.last()
    }
}

/// `parts.join(sep)`.
pub fn join_strings(parts: &[String], sep: &str) -> (r: String)
    ensures
        r@ == join(views(parts@), sep@),
{
    let n = parts.len();
    let mut out: Vec<char> = Vec::new();
    let mut i: usize = 0;
    while i < n
        invariant
            n == parts@.len(),
            i <= n,
            out@ == join(views(parts@.subrange(0, i as int)), sep@),
        decreases n - i,
    {
        let ghost before = views(parts@.subrange(0, i as int));
        if i > 0 {
            push_str(&mut out, sep);
        }
        push_str(&mut out, parts[i].as_str());
        proof {
            let after = views(parts@.subrange(0, i + 1));
            assert(after.drop_last() =~= before);
            assert(after.last() == parts@[i as int]@);
            if i == 0 {
                assert(out@ =~= after[0]);
            }
        }
        i += 1;
    }
    assert(parts@.subrange(0, n as int) =~= parts@);
    string_from_chars(out.as_slice())
}

/// Whether two strings hold the same text.
pub fn str_eq(a: &str, b: &str) -> (r: bool)
    ensures
        r == (a@ == b@),
{
    let x = chars_of(a);
    let y = chars_of(b);
    chars_eq(x.as_slice(), y.as_slice())
}


/// The decimal rendering of a signed integer, `-` before a negative one.
pub open spec fn int_text(i: int) -> Seq<char> {
    if i < 0 {
        seq!['-'] + decimal((-i) as nat)
    } else {
        decimal(i as nat)
    }
}

/// Appends the decimal rendering of `i` to `out`.
pub fn push_i64(out: &mut Vec<char>, i: i64)
    ensures
        final(out)@ == old(out)@ + int_text(i as int),
{
    if i < 0 {
        out.push('-');
        let m: u64 = ((-(i + 1)) as u64) + 1;
        push_decimal(out, m);
        assert(out@ =~= old(out)@ + int_text(i as int));
    } else {
        push_decimal(out, i as u64);
    }
}

/// Characters that `char::is_whitespace` accepts: the Unicode
/// `White_Space` property.
pub open spec fn is_white_space(c: char) -> bool {
    ||| c == '\t'
    ||| c == '\n'
    ||| c == '\u{0B}'
    ||| c == '\u{0C}'
    ||| c == '\r'
    ||| c == ' '
    ||| c == '\u{85}'
    ||| c == '\u{A0}'
    ||| c == '\u{1680}'
    ||| ('\u{2000}' <= c && c <= '\u{200A}')
    ||| c == '\u{2028}'
    ||| c == '\u{2029}'
    ||| c == '\u{202F}'
    ||| c == '\u{205F}'
    ||| c == '\u{3000}'
}

/// `char::is_whitespace`.
pub fn char_is_white_space(c: char) -> (r: bool)
    ensures
        r == is_white_space(c),
{
    c == '\t' || c == '\n' || c == '\u{0B}' || c == '\u{0C}' || c == '\r' || c == ' ' || c == '\u{85}'
        || c == '\u{A0}' || c == '\u{1680}' || ('\u{2000}' <= c && c <= '\u{200A}') || c == '\u{2028}'
        || c == '\u{2029}' || c == '\u{202F}' || c == '\u{205F}' || c == '\u{3000}'
}

/// The bounds of `s` without white space at either end: `(start, end)` with
/// only white space before `start` and from `end`, and `s[start]`,
/// `s[end - 1]` not white space where `start < end`.
pub open spec fn trim_bounds(s: Seq<char>, start: int, end: int) -> bool {
    &&& 0 <= start <= end <= s.len()
    &&& forall|i: int| 0 <= i < start ==> is_white_space(#[trigger] s[i])
    &&& forall|i: int| end <= i < s.len() ==> is_white_space(#[trigger] s[i])
    &&& start < end ==> !is_white_space(s[start]) && !is_white_space(s[end - 1])
    &&& start == end ==> forall|i: int| 0 <= i < s.len() ==> is_white_space(#[trigger] s[i])
}

/// `str::trim`: `s` without leading and trailing white space.
pub open spec fn trimmed(s: Seq<char>) -> Seq<char> {
    let b = choose|b: (int, int)| trim_bounds(s, b.0, b.1);
    s.subrange(b.0, b.1)
}

proof fn lemma_trim_bounds_unique(s: Seq<char>, a: int, b: int, c: int, d: int)
    requires
        trim_bounds(s, a, b),
        trim_bounds(s, c, d),
    ensures
        s.subrange(a, b) == s.subrange(c, d),
{
    if a < b && c < d {
        if a < c {
            assert(is_white_space(s[a]));
        }
        if c < a {
            assert(is_white_space(s[c]));
        }
        if b < d {
            assert(is_white_space(s[d - 1]));
        }
        if d < b {
            assert(is_white_space(s[b - 1]));
        }
    } else if a < b {
        assert(is_white_space(s[a]));
    } else if c < d {
        assert(is_white_space(s[c]));
    }
}

/// The characters of `s` without leading and trailing white space.
pub fn trim_chars(s: &[char]) -> (r: Vec<char>)
    ensures
        r@ == trimmed(s@),
{
    let n = s.len();
    let mut start: usize = 0;
    while start < n && char_is_white_space(s[start])
        invariant
            n == s@.len(),
            start <= n,
            forall|i: int| 0 <= i < start ==> is_white_space(#[trigger] s@[i]),
        decreases n - start,
    {
        start += 1;
    }
    let mut end: usize = n;
    while end > start && char_is_white_space(s[end - 1])
        invariant
            n == s@.len(),
            start <= end <= n,
            forall|i: int| end <= i < n ==> is_white_space(#[trigger] s@[i]),
        decreases end,
    {
        end -= 1;
    }
    proof {
        if start == end {
            assert forall|i: int| 0 <= i < s@.len() implies is_white_space(#[trigger] s@[i]) by {
                if i < start {
                } else {
                }
            }
        }
        let w = (start as int, end as int);
        assert(trim_bounds(s@, w.0, w.1));
        assert(exists|b: (int, int)| trim_bounds(s@, b.0, b.1));
        let b = choose|b: (int, int)| trim_bounds(s@, b.0, b.1);
        lemma_trim_bounds_unique(s@, start as int, end as int, b.0, b.1);
    }
    slice_chars(s, start, end)
}

/// `str::split(c)`: the pieces of `s` between the occurrences of `c`.
pub open spec fn split(s: Seq<char>, c: char) -> Seq<Seq<char>>
    decreases s.len(),
{
    if s.len() == 0 {
        seq![Seq::empty()]
    } else {
        let prev = split(s.drop_last(), c);
        if s.last() == c {
            prev.push(Seq::empty())
        } else {
            prev.update(prev.len() - 1, prev.last().push(s.last()))
        }
    }
}

pub proof fn lemma_split_len(s: Seq<char>, c: char)
    ensures
        split(s, c).len() >= 1,
    decreases s.len(),
{
    if s.len() > 0 {
        lemma_split_len(s.drop_last(), c);
    }
}

/// Text without `c` is one piece.
pub proof fn lemma_split_single(s: Seq<char>, c: char)
    requires
        forall|i: int| 0 <= i < s.len() ==> s[i] != c,
    ensures
        split(s, c) == seq![s],
    decreases s.len(),
{
    if s.len() > 0 {
        assert forall|i: int| 0 <= i < s.drop_last().len() implies s.drop_last()[i] != c by {
            assert(s.drop_last()[i] == s[i]);
        }
        lemma_split_single(s.drop_last(), c);
        assert(s.last() != c);
        assert(s.drop_last().push(s.last()) =~= s);
        assert(split(s, c) =~= seq![s]);
    } else {
        assert(s =~= Seq::<char>::empty());
    }
}

/// Splitting `a`, `c`, `b` gives the pieces of `a` and then those of `b`.
pub proof fn lemma_split_append(a: Seq<char>, b: Seq<char>, c: char)
    ensures
        split(a + seq![c] + b, c) == split(a, c) + split(b, c),
    decreases b.len(),
{
    let s = a + seq![c] + b;
    if b.len() == 0 {
        assert(s.drop_last() =~= a);
        assert(split(s, c) =~= split(a, c) + split(b, c));
    } else {
        lemma_split_append(a, b.drop_last(), c);
        assert(s.drop_last() =~= a + seq![c] + b.drop_last());
        lemma_split_len(b.drop_last(), c);
        lemma_split_len(a, c);
        assert(split(s, c) =~= split(a, c) + split(b, c));
    }
}

/// The pieces of `s` between the occurrences of `c`.
pub fn split_chars(s: &[char], c: char) -> (r: Vec<Vec<char>>)
    ensures
        r@.len() == split(s@, c).len(),
        forall|k: int| 0 <= k < r@.len() ==> (#[trigger] r@[k])@ == split(s@, c)[k],
{
    let n = s.len();
    let mut parts: Vec<Vec<char>> = Vec::new();
    let mut cur: Vec<char> = Vec::new();
    let mut i: usize = 0;
    while i < n
        invariant
            n == s@.len(),
            i <= n,
            parts@.len() + 1 == split(s@.subrange(0, i as int), c).len(),
            forall|k: int| 0 <= k < parts@.len() ==> (#[trigger] parts@[k])@ == split(s@.subrange(0, i as int), c)[k],
            cur@ == split(s@.subrange(0, i as int), c).last(),
        decreases n - i,
    {
        proof {
            lemma_split_len(s@.subrange(0, i as int), c);
            assert(s@.subrange(0, i + 1).drop_last() =~= s@.subrange(0, i as int));
        }
        if s[i] == c {
            let done = cur;
            parts.push(done);
            cur = Vec::new();
        } else {
            cur.push(s[i]);
        }
        i += 1;
    }
    proof {
        assert(s@.subrange(0, n as int) =~= s@);
    }
    parts.push(cur);
    parts
}


// ------------------------------------------------------------------
// Stripping
// ------------------------------------------------------------------

/// `str::trim_end_matches(c)`: `s` without every `c` at its end.
pub open spec fn strip_trailing(s: Seq<char>, c: char) -> Seq<char>
    decreases s.len(),
{
    if s.len() > 0 && s.last() == c {
        strip_trailing(s.drop_last(), c)
    } else {
        s
    }
}

/// The characters of `s` without every `c` at its end.
pub fn strip_trailing_chars(s: &[char], c: char) -> (r: Vec<char>)
    ensures
        r@ == strip_trailing(s@, c),
{
    let mut end: usize = s.len();
    assert(s@.subrange(0, end as int) =~= s@);
    while end > 0 && s[end - 1] == c
        invariant
            end <= s@.len(),
            strip_trailing(s@.subrange(0, end as int), c) == strip_trailing(s@, c),
        decreases end,
    {
        proof {
            assert(s@.subrange(0, end as int).drop_last() =~= s@.subrange(0, end - 1));
        }
        end -= 1;
    }
    proof {
        assert(s@.subrange(0, end as int) =~= s@.subrange(0, end as int));
        assert(s@.subrange(0, s@.len() as int) =~= s@);
    }
    slice_chars(s, 0, end)
}

/// `str::trim_start_matches(p)` for a non-empty `p`: `s` without every
/// leading repetition of `p`.
pub open spec fn strip_leading_all(s: Seq<char>, p: Seq<char>) -> Seq<char>
    decreases s.len(),
{
    if p.len() > 0 && is_prefix(p, s) {
        strip_leading_all(s.subrange(p.len() as int, s.len() as int), p)
    } else {
        s
    }
}

/// The characters of `s` without every leading repetition of `lit`
/// (`lit` not empty).
pub fn strip_leading_all_chars(s: &[char], lit: &str) -> (r: Vec<char>)
    requires
        lit@.len() > 0,
    ensures
        r@ == strip_leading_all(s@, lit@),
{
    let p = chars_of(lit);
    let n = s.len();
    let m = p.len();
    let mut start: usize = 0;
    assert(s@.subrange(0, n as int) =~= s@);
    while m <= n - start && occurs_at_exec(p.as_slice(), s, start)
        invariant
            n == s@.len(),
            m == p@.len(),
            m > 0,
            p@ == lit@,
            start <= n,
            strip_leading_all(s@.subrange(start as int, n as int), p@) == strip_leading_all(s@, p@),
        decreases n - start,
    {
        proof {
            let t = s@.subrange(start as int, n as int);
            assert(is_prefix(p@, t)) by {
                assert(t.subrange(0, m as int) =~= s@.subrange(start as int, start + m));
            }
            assert(t.subrange(m as int, t.len() as int) =~= s@.subrange(start + m, n as int));
        }
        start += m;
    }
    proof {
        let t = s@.subrange(start as int, n as int);
        if is_prefix(p@, t) {
            assert(t.subrange(0, m as int) =~= s@.subrange(start as int, start + m));
            assert(occurs_at(p@, s@, start as int));
        }
        assert(s@.subrange(0, n as int) =~= s@);
    }
    slice_chars(s, start, n)
}


// ------------------------------------------------------------------
// Outside text functions
// ------------------------------------------------------------------

/// What `String::from_utf8_lossy` makes of `b`.
pub uninterp spec fn utf8_lossy(b: Seq<u8>) -> Seq<char>;

/// `String::from_utf8_lossy`, as an owned string. Its documentation says
/// that valid UTF-8 comes out as the text it encodes; how invalid sequences
/// are replaced by U+FFFD is left to the name.
#[verifier::external_body]
pub(crate) fn utf8_lossy_string(b: &[u8]) -> (s: String)
    ensures
        s@ == utf8_lossy(b@),
        valid_utf8(b@) ==> s@ == decode_utf8(b@),
{
    String::from_utf8_lossy(b).into_owned()
}

/// What `str::to_lowercase` makes of `s`.
pub uninterp spec fn lowercase(s: Seq<char>) -> Seq<char>;

/// `str::to_lowercase`: the lowercase of `s` by the Unicode `Lowercase`
/// property. The contract only names the result as a function of the text.
#[verifier::external_body]
pub(crate) fn to_lowercase(s: &str) -> (r: String)
    ensures
        r@ == lowercase(s@),
{
    s.to_lowercase()
}

/// The text of the error that `str::parse::<u32>` gives for `s`.
pub uninterp spec fn u32_parse_error(s: Seq<char>) -> Seq<char>;

/// `str::parse::<u32>`, its error as text. Its documentation says that the
/// text is an optional `+` and then only digits, whose number must fit in a
/// `u32`; the wording of the error (empty text, invalid digit, too large) is
/// left to the name.
#[verifier::external_body]
pub(crate) fn parse_u32_text(s: &str) -> (r: Result<u32, String>)
    ensures
        match r {
            Ok(v) => parse_unsigned(s@, 0xffff_ffff) == Some(v as nat),
            Err(e) => parse_unsigned(s@, 0xffff_ffff) is None && e@ == u32_parse_error(s@),
        },
{
    match s.parse::<u32>() {
        Ok(v) => Ok(v),
        Err(e) => Err(e.to_string()),
    }
}

// ------------------------------------------------------------------
// Lines and words
// ------------------------------------------------------------------

/// `l` without one `\r` at its end.
pub open spec fn strip_cr(l: Seq<char>) -> Seq<char> {
    if l.len() > 0 && l.last() == '\r' {
        l.drop_last()
    } else {
        l
    }
}

/// `str::lines`: the lines of `s`; a line that ends in `\n` loses it and a
/// `\r` before it; a last line without `\n` is kept as it is, and an empty
/// one is no line.
pub open spec fn lines(s: Seq<char>) -> Seq<Seq<char>> {
    let parts = split(s, '\n');
    let n = parts.len();
    let ended = Seq::new((n - 1) as nat, |k: int| strip_cr(parts[k]));
    if parts.last().len() == 0 {
        ended
    } else {
        ended.push(parts.last())
    }
}

/// The lines of `s`.
pub fn lines_of(s: &str) -> (r: Vec<Vec<char>>)
    ensures
        r@.len() == lines(s@).len(),
        forall|k: int| 0 <= k < r@.len() ==> (#[trigger] r@[k])@ == lines(s@)[k],
{
    let v = chars_of(s);
    let parts = split_chars(v.as_slice(), '\n');
    proof {
        lemma_split_len(v@, '\n');
    }
    let n = parts.len();
    let mut out: Vec<Vec<char>> = Vec::new();
    let mut k: usize = 0;
    while k + 1 < n
        invariant
            n == parts@.len(),
            n == split(s@, '\n').len(),
            n >= 1,
            v@ == s@,
            forall|j: int| 0 <= j < n ==> (#[trigger] parts@[j])@ == split(s@, '\n')[j],
            k + 1 <= n,
            out@.len() == k,
            forall|j: int| 0 <= j < k ==> (#[trigger] out@[j])@ == strip_cr(split(s@, '\n')[j]),
        decreases n - k,
    {
        let p = &parts[k];
        let m = p.len();
        if m > 0 && p[m - 1] == '\r' {
            out.push(slice_chars(p.as_slice(), 0, m - 1));
        } else {
            out.push(slice_chars(p.as_slice(), 0, m));
        }
        proof {
            assert(p@.drop_last() =~= p@.subrange(0, m - 1));
            assert(p@ =~= p@.subrange(0, m as int));
        }
        k += 1;
    }
    let last = &parts[n - 1];
    if last.len() > 0 {
        out.push(slice_chars(last.as_slice(), 0, last.len()));
        assert(last@ =~= last@.subrange(0, last@.len() as int));
    }
    out
}

/// The pieces of `s` between white-space characters (empty pieces too).
pub open spec fn split_ws(s: Seq<char>) -> Seq<Seq<char>>
    decreases s.len(),
{
    if s.len() == 0 {
        seq![Seq::empty()]
    } else {
        let prev = split_ws(s.drop_last());
        if is_white_space(s.last()) {
            prev.push(Seq::empty())
        } else {
            prev.update(prev.len() - 1, prev.last().push(s.last()))
        }
    }
}

proof fn lemma_split_ws_len(s: Seq<char>)
    ensures
        split_ws(s).len() >= 1,
    decreases s.len(),
{
    if s.len() > 0 {
        lemma_split_ws_len(s.drop_last());
    }
}

/// The non-empty ones of `parts`, in order.
pub open spec fn non_empty(parts: Seq<Seq<char>>) -> Seq<Seq<char>>
    decreases parts.len(),
{
    if parts.len() == 0 {
        Seq::empty()
    } else {
        let prev = non_empty(parts.drop_last());
        if parts.last().len() > 0 {
            prev.push(parts.last())
        } else {
            prev
        }
    }
}

/// `str::split_whitespace`: the words of `s`.
pub open spec fn words(s: Seq<char>) -> Seq<Seq<char>> {
    non_empty(split_ws(s))
}

/// The words of `s`.
pub fn words_of(s: &[char]) -> (r: Vec<Vec<char>>)
    ensures
        r@.len() == words(s@).len(),
        forall|k: int| 0 <= k < r@.len() ==> (#[trigger] r@[k])@ == words(s@)[k],
{
    let n = s.len();
    let mut parts: Vec<Vec<char>> = Vec::new();
    let mut cur: Vec<char> = Vec::new();
    let mut i: usize = 0;
    while i < n
        invariant
            n == s@.len(),
            i <= n,
            parts@.len() + 1 == split_ws(s@.subrange(0, i as int)).len(),
            forall|k: int| 0 <= k < parts@.len() ==> (#[trigger] parts@[k])@ == split_ws(s@.subrange(0, i as int))[k],
            cur@ == split_ws(s@.subrange(0, i as int)).last(),
        decreases n - i,
    {
        proof {
            lemma_split_ws_len(s@.subrange(0, i as int));
            assert(s@.subrange(0, i + 1).drop_last() =~= s@.subrange(0, i as int));
        }
        if char_is_white_space(s[i]) {
            let done = cur;
            parts.push(done);
            cur = Vec::new();
        } else {
            cur.push(s[i]);
        }
        i += 1;
    }
    proof {
        assert(s@.subrange(0, n as int) =~= s@);
    }
    parts.push(cur);
    let ghost all = split_ws(s@);
    let m = parts.len();
    let mut out: Vec<Vec<char>> = Vec::new();
    let mut k: usize = 0;
    while k < m
        invariant
            m == parts@.len(),
            all == split_ws(s@),
            m == all.len(),
            forall|j: int| 0 <= j < m ==> (#[trigger] parts@[j])@ == all[j],
            k <= m,
            out@.len() == non_empty(all.subrange(0, k as int)).len(),
            forall|j: int| 0 <= j < out@.len() ==> (#[trigger] out@[j])@ == non_empty(all.subrange(0, k as int))[j],
        decreases m - k,
    {
        proof {
            assert(all.subrange(0, k + 1).drop_last() =~= all.subrange(0, k as int));
        }
        if parts[k].len() > 0 {
            out.push(slice_chars(parts[k].as_slice(), 0, parts[k].len()));
            assert(parts@[k as int]@ =~= parts@[k as int]@.subrange(0, parts@[k as int]@.len() as int));
        }
        k += 1;
    }
    assert(all.subrange(0, m as int) =~= all);
    out
}

// ------------------------------------------------------------------
// Trimming by a set of characters
// ------------------------------------------------------------------

/// The characters that a trim takes off.
#[derive(Debug, Clone, Copy, PartialEq, Eq, Structural)]
pub enum TrimSet {
    /// `(` and `)`.
    Parens,
    /// Everything but ASCII digits and `.`.
    NotAddress,
}

pub open spec fn in_trim_set(set: TrimSet, c: char) -> bool {
    match set {
        TrimSet::Parens => c == '(' || c == ')',
        TrimSet::NotAddress => !is_digit(c) && c != '.',
    }
}

fn in_trim_set_exec(set: TrimSet, c: char) -> (r: bool)
    ensures
        r == in_trim_set(set, c),
{
    match set {
        TrimSet::Parens => c == '(' || c == ')',
        TrimSet::NotAddress => !('0' <= c && c <= '9') && c != '.',
    }
}

/// `s` without characters of the set at its start.
pub open spec fn strip_leading_set(s: Seq<char>, set: TrimSet) -> Seq<char>
    decreases s.len(),
{
    if s.len() > 0 && in_trim_set(set, s[0]) {
        strip_leading_set(s.drop_first(), set)
    } else {
        s
    }
}

/// `s` without characters of the set at its end.
pub open spec fn strip_trailing_set(s: Seq<char>, set: TrimSet) -> Seq<char>
    decreases s.len(),
{
    if s.len() > 0 && in_trim_set(set, s.last()) {
        strip_trailing_set(s.drop_last(), set)
    } else {
        s
    }
}

/// `str::trim_matches` with the set as pattern.
pub open spec fn trim_set(s: Seq<char>, set: TrimSet) -> Seq<char> {
    strip_trailing_set(strip_leading_set(s, set), set)
}

/// The characters of `s` without characters of the set at either end.
pub fn trim_set_chars(s: &[char], set: TrimSet) -> (r: Vec<char>)
    ensures
        r@ == trim_set(s@, set),
{
    let n = s.len();
    let mut start: usize = 0;
    assert(s@.subrange(0, n as int) =~= s@);
    while start < n && in_trim_set_exec(set, s[start])
        invariant
            n == s@.len(),
            start <= n,
            strip_leading_set(s@.subrange(start as int, n as int), set) == strip_leading_set(s@, set),
        decreases n - start,
    {
        proof {
            assert(s@.subrange(start as int, n as int).drop_first() =~= s@.subrange(start + 1, n as int));
        }
        start += 1;
    }
    let mut end: usize = n;
    let ghost mid = s@.subrange(start as int, n as int);
    assert(mid.subrange(0, mid.len() as int) =~= mid);
    while end > start && in_trim_set_exec(set, s[end - 1])
        invariant
            n == s@.len(),
            start <= end <= n,
            mid == s@.subrange(start as int, n as int),
            strip_trailing_set(s@.subrange(start as int, end as int), set) == strip_trailing_set(mid, set),
        decreases end,
    {
        proof {
            assert(s@.subrange(start as int, end as int).drop_last() =~= s@.subrange(start as int, end - 1));
        }
        end -= 1;
    }
    slice_chars(s, start, end)
}

} // verus!
