use bluetooth_blocklist::hex::{digit_value, valid_hex_chars};
use bluetooth_blocklist::manufacturer::{
    valid_advertise_data_prefix_chars, valid_company_identifier_chars,
};
use bluetooth_blocklist::uuid::parse_uuid;
use bluetooth_blocklist::{
    valid_advertise_data_prefix, valid_company_identifier, valid_hex_digit, valid_hex_string,
    valid_uuid,
};

fn chars(text: &str) -> Vec<char> {
    text.chars().collect()
}

#[test]
fn test_valid_uuid() {
    assert!(valid_uuid("00000000-0000-0000-0000-000000000000"));
    assert!(valid_uuid("01234567-89ab-cdef-0123-456789abcdef"));
    assert!(!valid_uuid("01234567-89AB-CDEF-0123-456789ABCDEF"));
    assert!(!valid_uuid("g1234567-89ab-cdef-0123-456789abcdef"));
    assert!(!valid_uuid("01234567-89ab-cdef-0123-456789abcdef0"));
    assert!(!valid_uuid("0123456789abcdef0123456789abcdef"));
    assert!(!valid_uuid("01234567089ab0cdef001230456789abcdef"));
}

#[test]
fn test_valid_company_identifier() {
    assert!(valid_company_identifier("4c"));
    assert!(valid_company_identifier("04c"));
    assert!(valid_company_identifier("004c"));
    assert!(!valid_company_identifier("4C"));
    assert!(!valid_company_identifier("0004C"));
    assert!(!valid_company_identifier("h"));
    assert!(!valid_company_identifier(""));
}

#[test]
fn test_valid_advertise_data_prefix() {
    assert!(valid_advertise_data_prefix("advdata-02/ff"));
    assert!(valid_advertise_data_prefix("advdata-0277/ff1c"));
    assert!(!valid_advertise_data_prefix("ad-02/ff"));
    assert!(!valid_advertise_data_prefix("advdata-02-ff"));
    assert!(!valid_advertise_data_prefix("advdata-027/ff"));
    assert!(!valid_advertise_data_prefix("advdata-027"));
    assert!(!valid_advertise_data_prefix("advdata-027/f"));
    assert!(!valid_advertise_data_prefix("advdata-027/FF"));
}

#[test]
fn hex_digit_accepts_exactly_the_sixteen_lowercase_digits() {
    let accepted: Vec<char> = (0u32..=0x24f)
        .filter_map(char::from_u32)
        .filter(|c| valid_hex_digit(*c))
        .collect();
    assert_eq!(accepted, chars("0123456789abcdef"));
}

#[test]
fn hex_digit_rejects_the_neighbours_of_the_ranges() {
    for c in ['/', ':', '`', 'g', 'A', 'F', 'G', ' ', '-', '\u{ff10}', '\u{a0}'] {
        assert!(!valid_hex_digit(c), "{:?}", c);
    }
}

#[test]
fn hex_digit_values() {
    let values: Vec<u8> = chars("0123456789abcdef").into_iter().map(digit_value).collect();
    assert_eq!(values, (0u8..16).collect::<Vec<u8>>());
}

#[test]
fn hex_string_empty_is_valid() {
    assert!(valid_hex_string(""));
    assert!(valid_hex_chars(&[]));
}

#[test]
fn hex_string_cases() {
    assert!(valid_hex_string("0123456789abcdef"));
    assert!(valid_hex_string("ff"));
    assert!(!valid_hex_string("fF"));
    assert!(!valid_hex_string("0x1f"));
    assert!(!valid_hex_string("12 "));
    assert!(!valid_hex_string("1\u{e9}"));
    assert!(!valid_hex_chars(&chars("abcdefg")));
}

#[test]
fn uuid_of_any_other_length_is_invalid() {
    let digits = "0123456789abcdef0123456789abcdef0123456789abcdef";
    for len in 0..digits.len() {
        if len != 36 {
            assert!(!valid_uuid(&digits[..len]), "length {}", len);
        }
    }
    assert!(!valid_uuid(""));
    assert!(!valid_uuid("01234567-89ab-cdef-0123-456789abcde"));
    assert!(!valid_uuid("01234567-89ab-cdef-0123-456789abcdef\n"));
}

#[test]
fn uuid_wants_a_dash_at_each_of_the_four_positions_and_nowhere_else() {
    let good = chars("01234567-89ab-cdef-0123-456789abcdef");
    for i in 0..36 {
        let mut with_dash = good.clone();
        with_dash[i] = '-';
        let mut with_digit = good.clone();
        with_digit[i] = '0';
        let dash_position = i == 8 || i == 13 || i == 18 || i == 23;
        assert_eq!(parse_uuid(&with_dash).is_some(), dash_position, "dash at {}", i);
        assert_eq!(parse_uuid(&with_digit).is_some(), !dash_position, "digit at {}", i);
    }
}

#[test]
fn uuid_rejects_any_other_character_at_any_position() {
    let good = chars("01234567-89ab-cdef-0123-456789abcdef");
    for i in 0..36 {
        for c in ['g', 'A', ' ', '_', '\u{e9}', '\r'] {
            let mut bad = good.clone();
            bad[i] = c;
            let text: String = bad.iter().collect();
            assert!(!valid_uuid(&text), "{:?} at {}", c, i);
        }
    }
}

#[test]
fn uuid_of_36_bytes_but_fewer_characters_is_invalid() {
    let text = "\u{e9}1234567-89ab-cdef-0123-456789abcde";
    assert_eq!(text.len(), 36);
    assert!(!valid_uuid(text));
}

#[test]
fn uuid_of_36_characters_but_more_bytes_is_invalid() {
    let text = "\u{e9}1234567-89ab-cdef-0123-456789abcdef";
    assert_eq!(text.chars().count(), 36);
    assert!(!valid_uuid(text));
}

#[test]
fn parse_uuid_gives_the_128_bit_value() {
    assert_eq!(parse_uuid(&chars("00000000-0000-0000-0000-000000000000")), Some(0));
    assert_eq!(parse_uuid(&chars("00000000-0000-0000-0000-000000000001")), Some(1));
    assert_eq!(parse_uuid(&chars("00000000-0000-0000-0000-0000000000af")), Some(0xaf));
    assert_eq!(
        parse_uuid(&chars("01234567-89ab-cdef-0123-456789abcdef")),
        Some(0x0123_4567_89ab_cdef_0123_4567_89ab_cdef)
    );
    assert_eq!(
        parse_uuid(&chars("00001812-0000-1000-8000-00805f9b34fb")),
        Some(0x0000_1812_0000_1000_8000_0080_5f9b_34fb)
    );
    assert_eq!(parse_uuid(&chars("ffffffff-ffff-ffff-ffff-ffffffffffff")), Some(u128::MAX));
    assert_eq!(parse_uuid(&chars("10000000-0000-0000-0000-000000000000")), Some(1u128 << 124));
}

#[test]
fn parse_uuid_rejects_what_is_no_uuid() {
    assert_eq!(parse_uuid(&chars("")), None);
    assert_eq!(parse_uuid(&chars("ffffffff-ffff-ffff-ffff-fffffffffffff")), None);
    assert_eq!(parse_uuid(&chars("ffffffff-ffff-ffff-ffff_ffffffffffff")), None);
    assert_eq!(parse_uuid(&chars("FFFFFFFF-FFFF-FFFF-FFFF-FFFFFFFFFFFF")), None);
}

#[test]
fn different_uuids_have_different_values() {
    let a = parse_uuid(&chars("00001812-0000-1000-8000-00805f9b34fb"));
    let b = parse_uuid(&chars("00001810-0000-1000-8000-00805f9b34fb"));
    let c = parse_uuid(&chars("00001812-0000-1000-8000-00805f9b34fb"));
    assert_ne!(a, b);
    assert_eq!(a, c);
}

#[test]
fn company_identifier_is_one_to_four_digits() {
    assert!(valid_company_identifier("0"));
    assert!(valid_company_identifier("f"));
    assert!(valid_company_identifier("ffff"));
    assert!(valid_company_identifier("0000"));
    assert!(!valid_company_identifier("0004c"));
    assert!(!valid_company_identifier("00000"));
    assert!(!valid_company_identifier("fffff"));
    assert!(!valid_company_identifier("4 c"));
    assert!(!valid_company_identifier("-4c"));
    assert!(!valid_company_identifier("\u{e9}"));
    assert!(!valid_company_identifier("4\u{e9}"));
    assert!(valid_company_identifier_chars(&chars("4c")));
    assert!(!valid_company_identifier_chars(&chars("4c4c4")));
    assert!(!valid_company_identifier_chars(&[]));
}

#[test]
fn company_identifier_agrees_with_its_statement_on_every_short_string() {
    let alphabet = ['0', '9', 'a', 'f', 'g', 'A', '-'];
    let mut texts: Vec<String> = vec![String::new()];
    let mut from = 0;
    for _ in 0..5 {
        let upto = texts.len();
        for i in from..upto {
            for c in alphabet {
                let mut next = texts[i].clone();
                next.push(c);
                texts.push(next);
            }
        }
        from = upto;
    }
    for text in texts {
        let len = text.chars().count();
        let expected = 1 <= len
            && len <= 4
            && text.chars().all(|c| ('0'..='9').contains(&c) || ('a'..='f').contains(&c));
        assert_eq!(valid_company_identifier(&text), expected, "{:?}", text);
    }
}

#[test]
fn advertise_data_prefix_with_empty_halves_is_valid() {
    assert!(valid_advertise_data_prefix("advdata-/"));
}

#[test]
fn advertise_data_prefix_cases() {
    assert!(valid_advertise_data_prefix("advdata-0/f"));
    assert!(valid_advertise_data_prefix("advdata-0123456789abcdef/fedcba9876543210"));
    assert!(!valid_advertise_data_prefix(""));
    assert!(!valid_advertise_data_prefix("advdata"));
    assert!(!valid_advertise_data_prefix("advdata-"));
    assert!(!valid_advertise_data_prefix("advdata/"));
    assert!(!valid_advertise_data_prefix("advdata-02/ff/"));
    assert!(!valid_advertise_data_prefix("advdata-02/f/f"));
    assert!(!valid_advertise_data_prefix("advdata-02/ff-"));
    assert!(!valid_advertise_data_prefix("advdata--02/ff"));
    assert!(!valid_advertise_data_prefix("-advdata-02/ff"));
    assert!(!valid_advertise_data_prefix("Advdata-02/ff"));
    assert!(!valid_advertise_data_prefix("advdata-02/ff "));
    assert!(!valid_advertise_data_prefix(" advdata-02/ff"));
    assert!(!valid_advertise_data_prefix("advdata-0g/ff"));
    assert!(!valid_advertise_data_prefix("advdata-02/fg"));
    assert!(!valid_advertise_data_prefix("advdata-02/fff"));
    assert!(!valid_advertise_data_prefix("advdata-/f"));
    assert!(!valid_advertise_data_prefix("advdata-f/"));
    assert!(!valid_advertise_data_prefix("advdata-\u{e9}/ff"));
    assert!(!valid_advertise_data_prefix("advdata-\u{e9}/\u{e9}"));
    assert!(valid_advertise_data_prefix_chars(&chars("advdata-02/ff")));
    assert!(!valid_advertise_data_prefix_chars(&chars("advdata-02ff")));
}

#[test]
fn advertise_data_prefix_agrees_with_its_grammar() {
    let halves = ["", "0", "f", "02", "ff", "1c7", "g", "F", "0-", "/"];
    for mask in halves {
        for data in halves {
            let text = format!("advdata-{}/{}", mask, data);
            let hex = |s: &str| s.chars().all(|c| "0123456789abcdef".contains(c));
            let expected = mask.len() == data.len() && hex(mask) && hex(data);
            assert_eq!(valid_advertise_data_prefix(&text), expected, "{:?}", text);
        }
    }
}
