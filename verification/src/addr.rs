//! The textual forms of an endpoint: a dotted-quad IPv4 address and a port.
//!
//! An address is four decimal octets separated by dots. An octet has one to
//! three digits, is at most 255 and has no leading zero. A port in a listing
//! is a decimal number from 1 to 65535, with an optional `+` in front and any
//! number of leading zeros. An endpoint is written as address, colon, port;
//! that is the form under which the pool's file keeps the counters.

use vstd::prelude::*;
use crate::text::{all_digits, decimal_value, digit_of, lemma_decimal_prefix, lemma_decimal_push};

verus! {

/// The number written by `s`, if `s` holds only digits and the number is at
/// most `cap`. The empty text writes zero.
pub open spec fn bounded_decimal(s: Seq<char>, cap: nat) -> Option<nat> {
    if all_digits(s) && decimal_value(s) <= cap {
        Some(decimal_value(s))
    } else {
        None
    }
}

/// Reads the characters of `chars` from `from` up to `to` as a decimal number
/// that may not exceed `cap`.
pub fn read_decimal(chars: &Vec<char>, from: usize, to: usize, cap: u32) -> (r: Option<u32>)
    requires
        from <= to <= chars.len(),
        cap <= 400_000_000,
    ensures
        match r {
            Some(v) => bounded_decimal(chars@.subrange(from as int, to as int), cap as nat) == Some(
                v as nat,
            ),
            None => bounded_decimal(chars@.subrange(from as int, to as int), cap as nat) is None,
        },
{
    let ghost sub = chars@.subrange(from as int, to as int);
    let mut acc: u32 = 0;
    let mut i: usize = from;
    assert(sub.take(0) =~= Seq::<char>::empty());
    while i < to
        invariant
            from <= i <= to <= chars.len(),
            cap <= 400_000_000,
            sub == chars@.subrange(from as int, to as int),
            all_digits(sub.take(i - from)),
            acc == decimal_value(sub.take(i - from)),
            acc <= cap,
        decreases to - i,
    {
        let c = chars[i];
        assert(sub[i - from] == c);
        proof {
            lemma_decimal_push(sub.take(i - from), c);
            assert(sub.take(i - from + 1) =~= sub.take(i - from).push(c));
        }
        match digit_of(c) {
            None => {
                return None;
            },
            Some(d) => {
                let next: u32 = acc * 10 + d as u32;
                if next > cap {
                    proof {
                        if all_digits(sub) {
                            lemma_decimal_prefix(sub, i - from + 1);
                        }
                    }
                    return None;
                }
                acc = next;
            },
        }
        i += 1;
    }
    assert(sub.take(to - from) =~= sub);
    Some(acc)
}

/// The octet written by `s`: one to three digits, no leading zero, at most 255.
pub open spec fn octet_of(s: Seq<char>) -> Option<u8> {
    if 1 <= s.len() <= 3 && all_digits(s) && (s.len() == 1 || s[0] != '0') && decimal_value(s)
        <= 255 {
        Some(decimal_value(s) as u8)
    } else {
        None
    }
}

/// The position of the first `c` of `s` at or after `from`, or the length of
/// `s` if there is none.
pub open spec fn next_of(s: Seq<char>, c: char, from: int) -> int
    decreases s.len() - from,
{
    if from >= s.len() {
        s.len() as int
    } else if s[from] == c {
        from
    } else {
        next_of(s, c, from + 1)
    }
}

/// The position of the first dot of `s` at or after `from`, or the length of
/// `s` if there is none.
pub open spec fn dot_from(s: Seq<char>, from: int) -> int {
    next_of(s, '.', from)
}

/// The key of an endpoint: the address in the upper bytes, the port in the
/// lower two.
pub open spec fn endpoint_key(ip: u32, port: u16) -> u64 {
    (ip * 65536 + port) as u64
}

/// Four octets as one number, the first octet in the highest byte.
pub open spec fn pack(a: u8, b: u8, c: u8, d: u8) -> u32 {
    (a * 16777216 + b * 65536 + c * 256 + d) as u32
}

/// The address written by `s` in dotted-quad form, if `s` is one.
pub open spec fn parse_ipv4(s: Seq<char>) -> Option<u32> {
    let e0 = dot_from(s, 0);
    let e1 = dot_from(s, e0 + 1);
    let e2 = dot_from(s, e1 + 1);
    let e3 = dot_from(s, e2 + 1);
    let a = octet_of(s.subrange(0, e0));
    let b = octet_of(s.subrange(e0 + 1, e1));
    let c = octet_of(s.subrange(e1 + 1, e2));
    let d = octet_of(s.subrange(e2 + 1, e3));
    if e0 < s.len() && e1 < s.len() && e2 < s.len() && e3 == s.len() && a is Some && b is Some
        && c is Some && d is Some {
        Some(pack(a->0, b->0, c->0, d->0))
    } else {
        None
    }
}

/// The port written by `s`, if `s` is one.
pub open spec fn parse_port(s: Seq<char>) -> Option<u16> {
    let digits = if s.len() > 0 && s[0] == '+' {
        s.skip(1)
    } else {
        s
    };
    if digits.len() > 0 && all_digits(digits) && 1 <= decimal_value(digits) <= 65535 {
        Some(decimal_value(digits) as u16)
    } else {
        None
    }
}

/// Finds the first `c` at or after `from`, or the end of the text.
pub fn find_char(chars: &Vec<char>, c: char, from: usize) -> (end: usize)
    requires
        from <= chars.len(),
    ensures
        end == next_of(chars@, c, from as int),
        from <= end <= chars.len(),
{
    let mut i: usize = from;
    while i < chars.len() && chars[i] != c
        invariant
            from <= i <= chars.len(),
            next_of(chars@, c, from as int) == next_of(chars@, c, i as int),
        decreases chars.len() - i,
    {
        i += 1;
    }
    i
}

/// Finds the end of the run that starts at `from`: the next dot, or the end
/// of the text.
pub fn find_dot(chars: &Vec<char>, from: usize) -> (end: usize)
    requires
        from <= chars.len(),
    ensures
        end == dot_from(chars@, from as int),
        from <= end <= chars.len(),
{
    find_char(chars, '.', from)
}

/// Reads the octet that stands in `chars` from `from` up to `to`.
pub fn read_octet(chars: &Vec<char>, from: usize, to: usize) -> (r: Option<u8>)
    requires
        from <= to <= chars.len(),
    ensures
        r == octet_of(chars@.subrange(from as int, to as int)),
{
    let ghost sub = chars@.subrange(from as int, to as int);
    let len: usize = to - from;
    if len < 1 || len > 3 {
        return None;
    }
    assert(sub[0] == chars@[from as int]);
    if len > 1 && chars[from] == '0' {
        return None;
    }
    match read_decimal(chars, from, to, 255) {
        Some(v) => Some(v as u8),
        None => None,
    }
}

/// Reads a dotted-quad IPv4 address.
pub fn read_ipv4(chars: &Vec<char>) -> (r: Option<u32>)
    ensures
        r == parse_ipv4(chars@),
{
    let n: usize = chars.len();
    let e0: usize = find_dot(chars, 0);
    if e0 >= n {
        return None;
    }
    let e1: usize = find_dot(chars, e0 + 1);
    if e1 >= n {
        return None;
    }
    let e2: usize = find_dot(chars, e1 + 1);
    if e2 >= n {
        return None;
    }
    let e3: usize = find_dot(chars, e2 + 1);
    if e3 != n {
        return None;
    }
    let a = read_octet(chars, 0, e0);
    let b = read_octet(chars, e0 + 1, e1);
    let c = read_octet(chars, e1 + 1, e2);
    let d = read_octet(chars, e2 + 1, e3);
    match (a, b, c, d) {
        (Some(a), Some(b), Some(c), Some(d)) => {
            Some(a as u32 * 16777216 + b as u32 * 65536 + c as u32 * 256 + d as u32)
        },
        _ => None,
    }
}

/// Reads a port number.
pub fn read_port(chars: &Vec<char>) -> (r: Option<u16>)
    ensures
        r == parse_port(chars@),
{
    let n: usize = chars.len();
    let from: usize = if n > 0 && chars[0] == '+' {
        1
    } else {
        0
    };
    assert(chars@.subrange(from as int, n as int) =~= if from == 1 {
        chars@.skip(1)
    } else {
        chars@
    });
    if from == n {
        return None;
    }
    match read_decimal(chars, from, n, 65535) {
        Some(v) => if v >= 1 {
            Some(v as u16)
        } else {
            None
        },
        None => None,
    }
}

} // verus!
