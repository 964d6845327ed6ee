//! The text of a table's cell, made ready for reading.
//!
//! A cell comes as the page holds it: with white space around it, and with
//! carriage returns written as the character reference `&#13;`. Each such
//! reference becomes a carriage return, and then the white space at both
//! ends is taken off.

use vstd::prelude::*;
use vstd::string::StrSliceExecFns;
use vstd::string::StringExecFns;
use crate::text::{occurs_at, starts_at, to_chars};

verus! {

/// A white-space character: one with the Unicode property `White_Space`.
pub open spec fn is_space(c: char) -> bool {
    let n = c as u32;
    ||| 0x09 <= n <= 0x0d
    ||| n == 0x20
    ||| n == 0x85
    ||| n == 0xa0
    ||| n == 0x1680
    ||| 0x2000 <= n <= 0x200a
    ||| n == 0x2028
    ||| n == 0x2029
    ||| n == 0x202f
    ||| n == 0x205f
    ||| n == 0x3000
}

/// The character reference of a carriage return, `&#13;`.
pub open spec fn cr_reference() -> Seq<char> {
    seq!['&', '#', '1', '3', ';']
}

/// The text of `s` from `from` on, each `&#13;` replaced by a carriage
/// return, reading from the left.
pub open spec fn unescaped_from(s: Seq<char>, from: int) -> Seq<char>
    decreases s.len() - from,
{
    if from >= s.len() {
        Seq::empty()
    } else if occurs_at(s, cr_reference(), from) {
        seq!['\r'] + unescaped_from(s, from + 5)
    } else {
        seq![s[from]] + unescaped_from(s, from + 1)
    }
}

/// The text `s`, each `&#13;` replaced by a carriage return.
pub open spec fn unescaped(s: Seq<char>) -> Seq<char> {
    unescaped_from(s, 0)
}

/// The position of the first character of `s` at or after `from` that is no
/// white space, or the length of `s`.
pub open spec fn first_ink(s: Seq<char>, from: int) -> int
    decreases s.len() - from,
{
    if from >= s.len() {
        s.len() as int
    } else if !is_space(s[from]) {
        from
    } else {
        first_ink(s, from + 1)
    }
}

/// The position after the last character of the first `to` of `s` that is
/// no white space, or zero.
pub open spec fn last_ink(s: Seq<char>, to: int) -> int
    decreases to,
{
    if to <= 0 {
        0
    } else if !is_space(s[to - 1]) {
        to
    } else {
        last_ink(s, to - 1)
    }
}

/// The text `s` without the white space at its ends.
pub open spec fn trimmed(s: Seq<char>) -> Seq<char> {
    let from = first_ink(s, 0);
    let to = last_ink(s, s.len() as int);
    if from < to {
        s.subrange(from, to)
    } else {
        Seq::empty()
    }
}

/// The text of a cell, made ready for reading.
pub open spec fn cleaned(raw: Seq<char>) -> Seq<char> {
    trimmed(unescaped(raw))
}

/// Whether `c` is a white-space character.
pub fn is_whitespace(c: char) -> (yes: bool)
    ensures
        yes == is_space(c),
{
    let n: u32 = c as u32;
    (0x09 <= n && n <= 0x0d) || n == 0x20 || n == 0x85 || n == 0xa0 || n == 0x1680 || (0x2000 <= n
        && n <= 0x200a) || n == 0x2028 || n == 0x2029 || n == 0x202f || n == 0x205f || n == 0x3000
}

/// The text `raw`, each `&#13;` replaced by a carriage return.
pub fn unescape(raw: &str) -> (text: String)
    ensures
        text@ == unescaped(raw@),
{
    let chars = to_chars(raw);
    let reference: Vec<char> = vec!['&', '#', '1', '3', ';'];
    assert(reference@ =~= cr_reference());
    let mut text = String::new();
    let mut i: usize = 0;
    while i < chars.len()
        invariant
            i <= chars.len(),
            chars@ == raw@,
            reference@ == cr_reference(),
            text@ + unescaped_from(raw@, i as int) == unescaped(raw@),
        decreases chars.len() - i,
    {
        let ghost before = text@;
        if chars.len() - i >= 5 && starts_at(&chars, &reference, i) {
            text.append("\r");
            proof {
                reveal_strlit("\r");
            }
            assert("\r"@ =~= seq!['\r']);
            assert(unescaped_from(raw@, i as int) == seq!['\r'] + unescaped_from(raw@, i + 5));
            assert(text@ + unescaped_from(raw@, i + 5) =~= before + unescaped_from(raw@, i as int));
            i += 5;
        } else {
            let one = raw.substring_char(i, i + 1);
            assert(one@ =~= seq![raw@[i as int]]);
            text.append(one);
            assert(!occurs_at(raw@, cr_reference(), i as int));
            assert(unescaped_from(raw@, i as int) == seq![raw@[i as int]] + unescaped_from(
                raw@,
                i + 1,
            ));
            assert(text@ + unescaped_from(raw@, i + 1) =~= before + unescaped_from(raw@, i as int));
            i += 1;
        }
    }
    assert(text@ =~= unescaped(raw@));
    text
}

/// The text `text` without the white space at its ends.
pub fn trim(text: &str) -> (cut: String)
    ensures
        cut@ == trimmed(text@),
{
    let chars = to_chars(text);
    let mut from: usize = 0;
    while from < chars.len() && is_whitespace(chars[from])
        invariant
            from <= chars.len(),
            first_ink(chars@, 0) == first_ink(chars@, from as int),
        decreases chars.len() - from,
    {
        from += 1;
    }
    let mut to: usize = chars.len();
    while to > 0 && is_whitespace(chars[to - 1])
        invariant
            to <= chars.len(),
            last_ink(chars@, chars@.len() as int) == last_ink(chars@, to as int),
        decreases to,
    {
        to -= 1;
    }
    if from < to {
        String::from_str(text.substring_char(from, to))
    } else {
        String::new()
    }
}

/// Makes the text of a cell ready for reading: each `&#13;` becomes a
/// carriage return, and the white space at both ends is taken off.
pub fn clean_cell(raw: &str) -> (text: String)
    ensures
        text@ == cleaned(raw@),
{
    let plain = unescape(raw);
    trim(plain.as_str())
}

} // verus!
