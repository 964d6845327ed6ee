//! The canonical text of an endpoint, `address:port`, written and read back.
//!
//! The pool's file keeps the counters under this text, so that a file
//! written by one build is read by the next.

use vstd::prelude::*;
use vstd::string::StringExecFns;
use crate::addr::{
    endpoint_key, next_of, octet_of, pack, parse_ipv4, read_decimal, read_ipv4, find_char,
};
use crate::text::{all_digits, decimal_value, digit_value, is_digit, lemma_decimal_push};

verus! {

/// The character that writes the digit `d`.
pub open spec fn digit_char(d: int) -> char {
    (d + 48) as char
}

/// The number `n` written in decimal, without leading zeros.
pub open spec fn decimal_text(n: nat) -> Seq<char>
    decreases n,
{
    if n < 10 {
        seq![digit_char(n as int)]
    } else {
        decimal_text(n / 10).push(digit_char((n % 10) as int))
    }
}

/// The address `ip` written as a dotted quad.
pub open spec fn ipv4_text(ip: u32) -> Seq<char> {
    decimal_text((ip / 16777216) as nat) + seq!['.'] + decimal_text((ip / 65536 % 256) as nat)
        + seq!['.'] + decimal_text((ip / 256 % 256) as nat) + seq!['.'] + decimal_text(
        (ip % 256) as nat,
    )
}

/// The endpoint written as `address:port`.
pub open spec fn endpoint_text(ip: u32, port: u16) -> Seq<char> {
    ipv4_text(ip) + seq![':'] + decimal_text(port as nat)
}

/// The port written by `s` in an endpoint's text: digits only, at most
/// 65535.
pub open spec fn plain_port(s: Seq<char>) -> Option<u16> {
    if s.len() > 0 && all_digits(s) && decimal_value(s) <= 65535 {
        Some(decimal_value(s) as u16)
    } else {
        None
    }
}

/// The key of the endpoint written by `s` as `address:port`, if `s` is one.
pub open spec fn parse_endpoint(s: Seq<char>) -> Option<u64> {
    let colon = next_of(s, ':', 0);
    let ip = parse_ipv4(s.subrange(0, colon));
    let port = plain_port(s.subrange(colon + 1, s.len() as int));
    if colon < s.len() && ip is Some && port is Some {
        Some(endpoint_key(ip->0, port->0))
    } else {
        None
    }
}

/// The text of one digit.
fn digit_text(d: u32) -> (s: &'static str)
    requires
        d <= 9,
    ensures
        s@ == seq![digit_char(d as int)],
{
    proof {
        reveal_strlit("0");
        reveal_strlit("1");
        reveal_strlit("2");
        reveal_strlit("3");
        reveal_strlit("4");
        reveal_strlit("5");
        reveal_strlit("6");
        reveal_strlit("7");
        reveal_strlit("8");
        reveal_strlit("9");
    }
    let s = if d == 0 {
        "0"
    } else if d == 1 {
        "1"
    } else if d == 2 {
        "2"
    } else if d == 3 {
        "3"
    } else if d == 4 {
        "4"
    } else if d == 5 {
        "5"
    } else if d == 6 {
        "6"
    } else if d == 7 {
        "7"
    } else if d == 8 {
        "8"
    } else {
        "9"
    };
    assert(s@ =~= seq![digit_char(d as int)]);
    s
}

/// Writes `n` in decimal at the end of `out`.
pub fn push_decimal(out: &mut String, n: u32)
    ensures
        final(out)@ == old(out)@ + decimal_text(n as nat),
    decreases n,
{
    if n >= 10 {
        push_decimal(out, n / 10);
    }
    out.append(digit_text(n % 10));
    assert(out@ =~= old(out)@ + decimal_text(n as nat));
}

/// Writes the address `ip` as a dotted quad at the end of `out`.
pub fn push_ipv4(out: &mut String, ip: u32)
    ensures
        final(out)@ == old(out)@ + ipv4_text(ip),
{
    proof {
        reveal_strlit(".");
    }
    push_decimal(out, ip / 16777216);
    out.append(".");
    push_decimal(out, ip / 65536 % 256);
    out.append(".");
    push_decimal(out, ip / 256 % 256);
    out.append(".");
    push_decimal(out, ip % 256);
    assert(out@ =~= old(out)@ + ipv4_text(ip));
}

/// The endpoint as `address:port`.
pub fn format_endpoint(ip: u32, port: u16) -> (text: String)
    ensures
        text@ == endpoint_text(ip, port),
{
    proof {
        reveal_strlit(":");
    }
    let mut text = String::new();
    push_ipv4(&mut text, ip);
    text.append(":");
    push_decimal(&mut text, port as u32);
    assert(text@ =~= endpoint_text(ip, port));
    text
}

/// The characters of `chars` from `from` up to `to`.
fn slice_of(chars: &Vec<char>, from: usize, to: usize) -> (part: Vec<char>)
    requires
        from <= to <= chars.len(),
    ensures
        part@ == chars@.subrange(from as int, to as int),
{
    let mut part: Vec<char> = Vec::new();
    let mut i: usize = from;
    while i < to
        invariant
            from <= i <= to <= chars.len(),
            part@ == chars@.subrange(from as int, i as int),
        decreases to - i,
    {
        part.push(chars[i]);
        assert(part@ =~= chars@.subrange(from as int, i + 1));
        i += 1;
    }
    part
}

/// Reads an endpoint written as `address:port`.
pub fn read_endpoint(chars: &Vec<char>) -> (key: Option<u64>)
    ensures
        key == parse_endpoint(chars@),
{
    let n: usize = chars.len();
    let colon: usize = find_char(chars, ':', 0);
    if colon >= n {
        return None;
    }
    let head = slice_of(chars, 0, colon);
    let ip = match read_ipv4(&head) {
        Some(ip) => ip,
        None => {
            return None;
        },
    };
    if colon + 1 == n {
        return None;
    }
    match read_decimal(chars, colon + 1, n, 65535) {
        Some(port) => Some(ip as u64 * 65536 + port as u64),
        None => None,
    }
}

/// A number written in decimal reads back as itself; its text has at least
/// one digit, no leading zero, and no more digits than the number needs.
pub proof fn lemma_decimal_text(n: nat)
    ensures
        decimal_text(n).len() >= 1,
        all_digits(decimal_text(n)),
        decimal_value(decimal_text(n)) == n,
        n >= 1 ==> decimal_text(n)[0] != '0',
        n < 10 ==> decimal_text(n).len() == 1,
        n < 100 ==> decimal_text(n).len() <= 2,
        n < 1000 ==> decimal_text(n).len() <= 3,
        n < 10000 ==> decimal_text(n).len() <= 4,
        n < 100000 ==> decimal_text(n).len() <= 5,
    decreases n,
{
    if n >= 10 {
        lemma_decimal_text(n / 10);
        let head = decimal_text(n / 10);
        let last = digit_char((n % 10) as int);
        lemma_decimal_push(head, last);
        assert(is_digit(last));
        assert(digit_value(last) == n % 10);
        assert(decimal_text(n) == head.push(last));
        assert(decimal_text(n)[0] == head[0]);
    } else {
        let c = digit_char(n as int);
        assert(is_digit(c));
        assert(decimal_text(n) =~= seq![c]);
        assert(Seq::<char>::empty().push(c) =~= seq![c]);
        lemma_decimal_push(Seq::<char>::empty(), c);
    }
}

/// Where a run of characters without `c` ends in a `c` or in the end of the
/// text, that is where `next_of` stops.
pub proof fn lemma_next_of_run(s: Seq<char>, c: char, from: int, end: int)
    requires
        0 <= from <= end <= s.len(),
        forall|j: int| from <= j < end ==> s[j] != c,
        end == s.len() || s[end] == c,
    ensures
        next_of(s, c, from) == end,
    decreases end - from,
{
    if from < end {
        lemma_next_of_run(s, c, from + 1, end);
    }
}

/// Four octets separated by dots read as the address that they pack to, and
/// hold nothing but digits and dots.
pub proof fn lemma_quad(a: Seq<char>, b: Seq<char>, c: Seq<char>, d: Seq<char>)
    requires
        octet_of(a) is Some,
        octet_of(b) is Some,
        octet_of(c) is Some,
        octet_of(d) is Some,
    ensures
        parse_ipv4(a + seq!['.'] + b + seq!['.'] + c + seq!['.'] + d) == Some(
            pack(octet_of(a)->0, octet_of(b)->0, octet_of(c)->0, octet_of(d)->0),
        ),
        forall|j: int|
            0 <= j < (a + seq!['.'] + b + seq!['.'] + c + seq!['.'] + d).len() ==> {
                let ch = #[trigger] (a + seq!['.'] + b + seq!['.'] + c + seq!['.'] + d)[j];
                is_digit(ch) || ch == '.'
            },
{
    let dot = seq!['.'];
    let s = a + dot + b + dot + c + dot + d;
    let e0 = a.len() as int;
    let e1 = e0 + 1 + b.len();
    let e2 = e1 + 1 + c.len();
    let e3 = e2 + 1 + d.len();
    assert(s.len() == e3);
    assert forall|j: int| 0 <= j < e0 implies is_digit(#[trigger] s[j]) by {
        assert(s[j] == a[j]);
    }
    assert(s[e0] == '.');
    lemma_next_of_run(s, '.', 0, e0);
    assert forall|j: int| e0 + 1 <= j < e1 implies is_digit(#[trigger] s[j]) by {
        assert(s[j] == b[j - e0 - 1]);
    }
    assert(s[e1] == '.');
    lemma_next_of_run(s, '.', e0 + 1, e1);
    assert forall|j: int| e1 + 1 <= j < e2 implies is_digit(#[trigger] s[j]) by {
        assert(s[j] == c[j - e1 - 1]);
    }
    assert(s[e2] == '.');
    lemma_next_of_run(s, '.', e1 + 1, e2);
    assert forall|j: int| e2 + 1 <= j < e3 implies is_digit(#[trigger] s[j]) by {
        assert(s[j] == d[j - e2 - 1]);
    }
    lemma_next_of_run(s, '.', e2 + 1, e3);
    assert(s.subrange(0, e0) =~= a);
    assert(s.subrange(e0 + 1, e1) =~= b);
    assert(s.subrange(e1 + 1, e2) =~= c);
    assert(s.subrange(e2 + 1, e3) =~= d);
}

/// The four octets of an address pack to the address.
pub proof fn lemma_pack_octets(ip: u32)
    ensures
        pack(
            (ip / 16777216) as u8,
            (ip / 65536 % 256) as u8,
            (ip / 256 % 256) as u8,
            (ip % 256) as u8,
        ) == ip,
{
}

/// An address written as a dotted quad reads back as itself, and its text
/// holds no colon.
pub proof fn lemma_ipv4_round_trip(ip: u32)
    ensures
        parse_ipv4(ipv4_text(ip)) == Some(ip),
        forall|j: int| 0 <= j < ipv4_text(ip).len() ==> #[trigger] ipv4_text(ip)[j] != ':',
{
    let a = (ip / 16777216) as nat;
    let b = (ip / 65536 % 256) as nat;
    let c = (ip / 256 % 256) as nat;
    let d = (ip % 256) as nat;
    lemma_decimal_text(a);
    lemma_decimal_text(b);
    lemma_decimal_text(c);
    lemma_decimal_text(d);
    lemma_quad(decimal_text(a), decimal_text(b), decimal_text(c), decimal_text(d));
    lemma_pack_octets(ip);
}

/// An endpoint written as `address:port` reads back as its key.
pub proof fn lemma_endpoint_round_trip(ip: u32, port: u16)
    ensures
        parse_endpoint(endpoint_text(ip, port)) == Some(endpoint_key(ip, port)),
{
    lemma_ipv4_round_trip(ip);
    lemma_decimal_text(port as nat);
    let head = ipv4_text(ip);
    let tail = decimal_text(port as nat);
    let s = endpoint_text(ip, port);
    let colon = head.len() as int;
    assert forall|j: int| 0 <= j < colon implies s[j] != ':' by {
        assert(s[j] == head[j]);
    }
    assert(s[colon] == ':');
    lemma_next_of_run(s, ':', 0, colon);
    assert(s.subrange(0, colon) =~= head);
    assert(s.subrange(colon + 1, s.len() as int) =~= tail);
}

} // verus!
