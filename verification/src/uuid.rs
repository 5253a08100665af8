//! The 36-character form of a UUID: 32 lowercase hexadecimal digits in groups of 8, 4, 4, 4
//! and 12, with a dash between groups.

use crate::hex::{digit_value, hex_digit_value, is_hex_digit, valid_hex_digit};
use crate::text::chars_of;
use vstd::prelude::*;
use vstd::utf8::{encode_utf8, is_ascii_chars, is_ascii_chars_encode_utf8};

verus! {

/// The positions of the four dashes.
pub open spec fn is_dash_position(i: int) -> bool {
    i == 8 || i == 13 || i == 18 || i == 23
}

/// The character at position `i` is what a UUID has there: a dash at a dash position, a
/// lowercase hexadecimal digit anywhere else.
pub open spec fn fits_uuid_at(s: Seq<char>, i: int) -> bool {
    if is_dash_position(i) {
        s[i] == '-'
    } else {
        is_hex_digit(s[i])
    }
}

/// A valid UUID: exactly 36 characters, each of them what a UUID has at its position.
pub open spec fn is_valid_uuid(s: Seq<char>) -> bool {
    &&& s.len() == 36
    &&& forall|i: int| 0 <= i < 36 ==> #[trigger] fits_uuid_at(s, i)
}

/// The number that a UUID stands for: the one that its hexadecimal digits spell, most
/// significant digit first, with the dashes passed over.
pub open spec fn uuid_value(s: Seq<char>) -> nat
    decreases s.len(),
{
    if s.len() == 0 {
        0
    } else if s.last() == '-' {
        uuid_value(s.drop_last())
    } else {
        16 * uuid_value(s.drop_last()) + hex_digit_value(s.last())
    }
}

/// The value of a UUID as 128 bits: what a registry knows the UUID by.
pub open spec fn uuid_key(s: Seq<char>) -> u128 {
    uuid_value(s) as u128
}

/// 16 to the power `n`.
spec fn pow16(n: nat) -> nat
    decreases n,
{
    if n == 0 {
        1
    } else {
        16 * pow16((n - 1) as nat)
    }
}

/// How many of the first `i` positions of a UUID hold digits.
spec fn digits_before(i: int) -> nat {
    (i - (if i > 8 { 1int } else { 0 }) - (if i > 13 { 1int } else { 0 })
        - (if i > 18 { 1int } else { 0 }) - (if i > 23 { 1int } else { 0 })) as nat
}

/// Powers of 16 are positive and grow with the exponent.
proof fn lemma_pow16_grows(a: nat, b: nat)
    requires
        a <= b,
    ensures
        pow16(a) <= pow16(b),
        pow16(a) >= 1,
    decreases b,
{
    if a < b {
        lemma_pow16_grows(a, (b - 1) as nat);
    } else if a > 0 {
        lemma_pow16_grows((a - 1) as nat, (b - 1) as nat);
    }
}

/// 32 hexadecimal digits count up to 2 to the power 128.
proof fn lemma_pow16_of_32()
    ensures
        pow16(32) == 0x1_0000_0000_0000_0000_0000_0000_0000_0000,
{
    reveal_with_fuel(pow16, 33);
}

/// A valid UUID holds ASCII characters only, so it is 36 bytes long in UTF-8 as well: a
/// string that is not 36 characters long, or not 36 bytes long, is no valid UUID.
pub proof fn lemma_uuid_length(s: Seq<char>)
    requires
        s.len() != 36 || encode_utf8(s).len() != 36,
    ensures
        !is_valid_uuid(s),
{
    if is_valid_uuid(s) {
        assert forall|i: int| 0 <= i < s.len() implies '\0' <= #[trigger] s[i] <= '\u{7f}' by {
            assert(fits_uuid_at(s, i));
        }
        is_ascii_chars_encode_utf8(s);
    }
}

/// Of 36 characters, the valid UUIDs are those with a dash at each of the positions 8, 13,
/// 18 and 23 and a lowercase hexadecimal digit at each of the 32 others.
pub proof fn lemma_uuid_of_36(s: Seq<char>)
    requires
        s.len() == 36,
    ensures
        is_valid_uuid(s) <==> {
            &&& s[8] == '-' && s[13] == '-' && s[18] == '-' && s[23] == '-'
            &&& forall|i: int|
                0 <= i < 36 && i != 8 && i != 13 && i != 18 && i != 23 ==> is_hex_digit(
                    #[trigger] s[i],
                )
        },
{
    if is_valid_uuid(s) {
        assert(fits_uuid_at(s, 8) && fits_uuid_at(s, 13) && fits_uuid_at(s, 18) && fits_uuid_at(
            s,
            23,
        ));
        assert forall|i: int|
            0 <= i < 36 && i != 8 && i != 13 && i != 18 && i != 23 implies is_hex_digit(
            #[trigger] s[i],
        ) by {
            assert(fits_uuid_at(s, i));
        }
    }
}

/// The value of a valid UUID fits in 128 bits.
pub proof fn lemma_uuid_value_bound(s: Seq<char>)
    requires
        is_valid_uuid(s),
    ensures
        uuid_value(s) <= u128::MAX,
{
    lemma_prefix_value_bound(s, 36);
    assert(s.take(36) == s);
    lemma_pow16_of_32();
}

/// The first `n` characters of a valid UUID spell a number below 16 to the power of the
/// digits among them.
proof fn lemma_prefix_value_bound(s: Seq<char>, n: int)
    requires
        is_valid_uuid(s),
        0 <= n <= 36,
    ensures
        uuid_value(s.take(n)) < pow16(digits_before(n)),
    decreases n,
{
    if n > 0 {
        lemma_prefix_value_bound(s, n - 1);
        assert(s.take(n).drop_last() == s.take(n - 1));
        assert(fits_uuid_at(s, n - 1));
    }
}

/// Two valid UUIDs that stand for the same number are the same text.
pub proof fn lemma_uuid_value_injective(a: Seq<char>, b: Seq<char>)
    requires
        is_valid_uuid(a),
        is_valid_uuid(b),
        uuid_value(a) == uuid_value(b),
    ensures
        a == b,
{
    assert(a.take(36) == a);
    assert(b.take(36) == b);
    lemma_prefix_value_injective(a, b, 36);
}

/// Two valid UUIDs with the same 128 bits are the same text: a registry by value tells
/// UUIDs apart as one by text would.
pub proof fn lemma_uuid_key_injective(a: Seq<char>, b: Seq<char>)
    requires
        is_valid_uuid(a),
        is_valid_uuid(b),
        uuid_key(a) == uuid_key(b),
    ensures
        a == b,
{
    lemma_uuid_value_bound(a);
    lemma_uuid_value_bound(b);
    lemma_uuid_value_injective(a, b);
}

/// Two valid UUIDs whose first `n` characters spell the same number have the same first
/// `n` characters.
proof fn lemma_prefix_value_injective(a: Seq<char>, b: Seq<char>, n: int)
    requires
        is_valid_uuid(a),
        is_valid_uuid(b),
        0 <= n <= 36,
        uuid_value(a.take(n)) == uuid_value(b.take(n)),
    ensures
        a.take(n) == b.take(n),
    decreases n,
{
    if n > 0 {
        assert(a.take(n).drop_last() == a.take(n - 1));
        assert(b.take(n).drop_last() == b.take(n - 1));
        assert(fits_uuid_at(a, n - 1));
        assert(fits_uuid_at(b, n - 1));
        lemma_prefix_value_injective(a, b, n - 1);
    }
}

/// Reads a UUID: its 128-bit value where `chars` is a valid UUID, nothing where it is not.
pub fn parse_uuid(chars: &[char]) -> (value: Option<u128>)
    ensures
        value is Some <==> is_valid_uuid(chars@),
        value is Some ==> value->0 == uuid_value(chars@),
{
    if chars.len() != 36 {
        return None;
    }
    let mut value: u128 = 0;
    let mut i: usize = 0;
    while i < 36
        invariant
            chars@.len() == 36,
            i <= 36,
            forall|j: int| 0 <= j < i ==> #[trigger] fits_uuid_at(chars@, j),
            value == uuid_value(chars@.take(i as int)),
            value < pow16(digits_before(i as int)),
        decreases 36 - i,
    {
        let c = chars[i];
        proof {
            assert(chars@.take(i + 1).drop_last() == chars@.take(i as int));
            lemma_pow16_grows(digits_before(i + 1), 32);
            lemma_pow16_of_32();
        }
        if i == 8 || i == 13 || i == 18 || i == 23 {
            if c != '-' {
                assert(!fits_uuid_at(chars@, i as int));
                return None;
            }
        } else {
            if !valid_hex_digit(c) {
                assert(!fits_uuid_at(chars@, i as int));
                return None;
            }
            value = value * 16 + digit_value(c) as u128;
        }
        i += 1;
    }
    assert(chars@.take(36) == chars@);
    Some(value)
}

/// Whether `uuid` is a valid UUID.
pub fn valid_uuid(uuid: &str) -> (valid: bool)
    ensures
        valid == is_valid_uuid(uuid@),
        uuid@.len() != 36 ==> !valid,
{
    let chars = chars_of(uuid);
    parse_uuid(chars.as_slice()).is_some()
}

} // verus!
