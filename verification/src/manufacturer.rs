//! The two tokens of a manufacturer data entry: a company identifier, and an advertise
//! data prefix of the form `advdata-<mask>/<data>`.

use crate::hex::{is_hex_string, lemma_hex_string_bytes, valid_hex_chars};
use crate::text::{
    chars_of, join, lemma_join_split, lemma_split_join, spells, split, split_spans, Span,
};
use vstd::prelude::*;
use vstd::utf8::encode_utf8;

verus! {

/// A valid company identifier: one to four lowercase hexadecimal digits.
pub open spec fn is_valid_company_identifier(s: Seq<char>) -> bool {
    1 <= s.len() <= 4 && is_hex_string(s)
}

/// The advertise data prefix with the given mask and data.
pub open spec fn advertise_data_prefix(mask: Seq<char>, data: Seq<char>) -> Seq<char> {
    "advdata-"@ + mask + seq!['/'] + data
}

/// A valid advertise data prefix: `advdata-`, a mask, `/` and data, where mask and data are
/// strings of lowercase hexadecimal digits of one length. Both may be empty.
pub open spec fn is_valid_advertise_data_prefix(s: Seq<char>) -> bool {
    exists|mask: Seq<char>, data: Seq<char>|
        {
            &&& s == #[trigger] advertise_data_prefix(mask, data)
            &&& mask.len() == data.len()
            &&& is_hex_string(mask)
            &&& is_hex_string(data)
        }
}

/// What reading a prefix by its separators asks for: two pieces around a single `-`, the
/// first of them `advdata`; the second in two pieces around a single `/`, of one length and
/// both hexadecimal.
pub open spec fn splits_as_advertise_data_prefix(s: Seq<char>) -> bool {
    let parts = split(s, '-');
    let pair = split(parts[1], '/');
    &&& parts.len() == 2
    &&& parts[0] == "advdata"@
    &&& pair.len() == 2
    &&& pair[0].len() == pair[1].len()
    &&& is_hex_string(pair[0])
    &&& is_hex_string(pair[1])
}

/// The length of a company identifier may be counted in bytes of UTF-8 as well as in
/// characters: the valid ones are the same.
pub proof fn lemma_company_identifier_bytes(s: Seq<char>)
    ensures
        is_valid_company_identifier(s) <==> 1 <= encode_utf8(s).len() <= 4 && is_hex_string(s),
{
    if is_hex_string(s) {
        lemma_hex_string_bytes(s);
    }
}

/// Two pieces joined are the first, the separator and the second.
proof fn lemma_join_of_two(a: Seq<char>, b: Seq<char>, sep: char)
    ensures
        join(seq![a, b], sep) == a + seq![sep] + b,
{
    reveal_with_fuel(join, 2);
}

/// Reading a prefix by its separators accepts exactly the valid prefixes.
pub proof fn lemma_advertise_data_prefix_by_split(s: Seq<char>)
    ensures
        splits_as_advertise_data_prefix(s) <==> is_valid_advertise_data_prefix(s),
{
    reveal_strlit("advdata-");
    reveal_strlit("advdata");
    let word = "advdata"@;
    if splits_as_advertise_data_prefix(s) {
        let parts = split(s, '-');
        let pair = split(parts[1], '/');
        lemma_join_split(s, '-');
        lemma_join_split(parts[1], '/');
        assert(parts == seq![parts[0], parts[1]]);
        assert(pair == seq![pair[0], pair[1]]);
        lemma_join_of_two(parts[0], parts[1], '-');
        lemma_join_of_two(pair[0], pair[1], '/');
        assert(s == advertise_data_prefix(pair[0], pair[1]));
    }
    if is_valid_advertise_data_prefix(s) {
        let (mask, data) = choose|mask: Seq<char>, data: Seq<char>|
            {
                &&& s == #[trigger] advertise_data_prefix(mask, data)
                &&& mask.len() == data.len()
                &&& is_hex_string(mask)
                &&& is_hex_string(data)
            };
        let rest = mask + seq!['/'] + data;
        assert(!rest.contains('-')) by {
            if rest.contains('-') {
                let j = choose|j: int| 0 <= j < rest.len() && rest[j] == '-';
                if j < mask.len() {
                    assert(mask.contains(rest[j]));
                } else if j > mask.len() {
                    assert(data[j - mask.len() - 1] == rest[j]);
                    assert(data.contains(rest[j]));
                }
            }
        }
        lemma_join_of_two(word, rest, '-');
        lemma_split_join(seq![word, rest], '-');
        assert(s == word + seq!['-'] + rest);
        lemma_join_of_two(mask, data, '/');
        lemma_split_join(seq![mask, data], '/');
    }
}

/// Whether `chars` is a valid company identifier.
pub fn valid_company_identifier_chars(chars: &[char]) -> (valid: bool)
    ensures
        valid == is_valid_company_identifier(chars@),
{
    if chars.len() == 0 || chars.len() > 4 {
        return false;
    }
    valid_hex_chars(chars)
}

/// Whether `company_identifier` is a valid company identifier: `4c`, `04c` and `004c` are,
/// `0004c` is one digit too long.
pub fn valid_company_identifier(company_identifier: &str) -> (valid: bool)
    ensures
        valid == is_valid_company_identifier(company_identifier@),
{
    let chars = chars_of(company_identifier);
    valid_company_identifier_chars(chars.as_slice())
}

/// Whether `chars` is a valid advertise data prefix.
pub fn valid_advertise_data_prefix_chars(chars: &[char]) -> (valid: bool)
    ensures
        valid == is_valid_advertise_data_prefix(chars@),
{
    proof {
        lemma_advertise_data_prefix_by_split(chars@);
    }
    let whole = Span { start: 0, end: chars.len() };
    assert(whole.of(chars@) == chars@);
    let parts = split_spans(chars, whole, '-');
    if parts.len() != 2 {
        return false;
    }
    if !spells(parts[0].slice(chars), "advdata") {
        return false;
    }
    let pair = split_spans(chars, parts[1], '/');
    if pair.len() != 2 {
        return false;
    }
    let mask = pair[0];
    let data = pair[1];
    mask.len() == data.len() && valid_hex_chars(mask.slice(chars)) && valid_hex_chars(
        data.slice(chars),
    )
}

/// Whether `data_prefix` is a valid advertise data prefix: `advdata-02/ff` is,
/// `advdata-027/ff` has a mask longer than its data, and `advdata-02/FF` has uppercase
/// digits.
pub fn valid_advertise_data_prefix(data_prefix: &str) -> (valid: bool)
    ensures
        valid == is_valid_advertise_data_prefix(data_prefix@),
{
    let chars = chars_of(data_prefix);
    valid_advertise_data_prefix_chars(chars.as_slice())
}

} // verus!
