//! Lowercase hexadecimal digits and strings of them.

use crate::text::chars_of;
use vstd::prelude::*;
use vstd::utf8::{encode_utf8, is_ascii_chars, is_ascii_chars_encode_utf8};

verus! {

/// A lowercase hexadecimal digit: `0` to `9` or `a` to `f`. Uppercase letters are not
/// hexadecimal digits here.
pub open spec fn is_hex_digit(c: char) -> bool {
    ('0' <= c && c <= '9') || ('a' <= c && c <= 'f')
}

/// A sequence made of lowercase hexadecimal digits only. The empty sequence is one.
pub open spec fn is_hex_string(s: Seq<char>) -> bool {
    forall|i: int| 0 <= i < s.len() ==> is_hex_digit(#[trigger] s[i])
}

/// The number that a hexadecimal digit stands for, 0 to 15.
pub open spec fn hex_digit_value(c: char) -> nat {
    if '0' <= c && c <= '9' {
        (c as int - '0' as int) as nat
    } else {
        (c as int - 'a' as int + 10) as nat
    }
}

/// A string of hexadecimal digits is ASCII, so it is as many bytes long in UTF-8 as it has
/// characters: its length is the same whichever way it is counted.
pub proof fn lemma_hex_string_bytes(s: Seq<char>)
    requires
        is_hex_string(s),
    ensures
        is_ascii_chars(s),
        encode_utf8(s).len() == s.len(),
{
    is_ascii_chars_encode_utf8(s);
}

/// Whether `digit` is a lowercase hexadecimal digit.
pub fn valid_hex_digit(digit: char) -> (valid: bool)
    ensures
        valid == is_hex_digit(digit),
{
    ('0' <= digit && digit <= '9') || ('a' <= digit && digit <= 'f')
}

/// The number that the hexadecimal digit `digit` stands for.
pub fn digit_value(digit: char) -> (value: u8)
    requires
        is_hex_digit(digit),
    ensures
        value == hex_digit_value(digit),
        value < 16,
{
    if digit <= '9' {
        (digit as u32 - '0' as u32) as u8
    } else {
        (digit as u32 - 'a' as u32 + 10) as u8
    }
}

/// Whether every character of `chars` is a lowercase hexadecimal digit.
pub fn valid_hex_chars(chars: &[char]) -> (valid: bool)
    ensures
        valid == is_hex_string(chars@),
{
    let mut i: usize = 0;
    while i < chars.len()
        invariant
            i <= chars@.len(),
            is_hex_string(chars@.take(i as int)),
        decreases chars@.len() - i,
    {
        if !valid_hex_digit(chars[i]) {
            return false;
        }
        i += 1;
    }
    assert(chars@.take(i as int) == chars@);
    true
}

/// Whether every character of `hex_string` is a lowercase hexadecimal digit. The empty
/// string passes: where a length is wanted, the caller asks for it.
pub fn valid_hex_string(hex_string: &str) -> (valid: bool)
    ensures
        valid == is_hex_string(hex_string@),
{
    let chars = chars_of(hex_string);
    valid_hex_chars(chars.as_slice())
}

} // verus!
