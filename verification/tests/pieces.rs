use bluetooth_blocklist::decimal::append_decimal;
use bluetooth_blocklist::registry::{Exclusion, Registry};
use bluetooth_blocklist::text::{chars_of, spells, split_spans, Span};

fn pieces(text: &str, sep: char) -> Vec<String> {
    let chars = chars_of(text);
    let whole = Span { start: 0, end: chars.len() };
    split_spans(&chars, whole, sep)
        .iter()
        .map(|span| span.slice(&chars).iter().collect::<String>())
        .collect()
}

fn in_decimal(n: usize) -> String {
    let mut out = String::new();
    append_decimal(&mut out, n);
    out
}

#[test]
fn chars_of_gives_each_character_once() {
    assert_eq!(chars_of(""), Vec::<char>::new());
    assert_eq!(chars_of("a-b"), vec!['a', '-', 'b']);
    assert_eq!(chars_of("\u{e9}\u{4e2d}\u{1f600}z"), vec!['\u{e9}', '\u{4e2d}', '\u{1f600}', 'z']);
}

#[test]
fn spells_compares_the_whole_word() {
    let word = chars_of("advdata");
    assert!(spells(&word, "advdata"));
    assert!(!spells(&word, "advdat"));
    assert!(!spells(&word, "advdata-"));
    assert!(!spells(&word, "Advdata"));
    assert!(!spells(&word, ""));
    assert!(spells(&[], ""));
    assert!(!spells(&[], "a"));
    assert!(spells(&chars_of("\u{e9}"), "\u{e9}"));
}

#[test]
fn split_gives_one_piece_more_than_separators() {
    assert_eq!(pieces("", ' '), vec![""]);
    assert_eq!(pieces("abc", ' '), vec!["abc"]);
    assert_eq!(pieces("a b", ' '), vec!["a", "b"]);
    assert_eq!(pieces("a b c", ' '), vec!["a", "b", "c"]);
    assert_eq!(pieces(" ", ' '), vec!["", ""]);
    assert_eq!(pieces(" a", ' '), vec!["", "a"]);
    assert_eq!(pieces("a ", ' '), vec!["a", ""]);
    assert_eq!(pieces("a  b", ' '), vec!["a", "", "b"]);
    assert_eq!(pieces("one\ntwo\n", '\n'), vec!["one", "two", ""]);
    assert_eq!(pieces("\n\n", '\n'), vec!["", "", ""]);
    assert_eq!(pieces("\u{e9} \u{4e2d}", ' '), vec!["\u{e9}", "\u{4e2d}"]);
}

#[test]
fn split_agrees_with_std() {
    let texts = ["", "-", "--", "a-b", "-a-", "advdata-02/ff", "a--b-", "no separator"];
    for text in texts {
        let expected: Vec<String> = text.split('-').map(|p| p.to_string()).collect();
        assert_eq!(pieces(text, '-'), expected, "{:?}", text);
    }
}

#[test]
fn split_within_a_span_stays_within_it() {
    let chars = chars_of("ab cd ef gh");
    let within = Span { start: 3, end: 8 };
    let spans = split_spans(&chars, within, ' ');
    assert_eq!(spans, vec![Span { start: 3, end: 5 }, Span { start: 6, end: 8 }]);
    let empty = Span { start: 4, end: 4 };
    let spans = split_spans(&chars, empty, ' ');
    assert_eq!(spans, vec![Span { start: 4, end: 4 }]);
}

#[test]
fn split_places_equal_pieces_where_they_stand() {
    let chars = chars_of("ab ab  ab");
    let whole = Span { start: 0, end: chars.len() };
    let spans = split_spans(&chars, whole, ' ');
    assert_eq!(
        spans,
        vec![
            Span { start: 0, end: 2 },
            Span { start: 3, end: 5 },
            Span { start: 6, end: 6 },
            Span { start: 7, end: 9 },
        ]
    );
}

#[test]
fn span_length_and_slice() {
    let chars = chars_of("0123456789");
    let span = Span { start: 2, end: 5 };
    assert_eq!(span.len(), 3);
    assert_eq!(span.slice(&chars), &['2', '3', '4']);
    let span = Span { start: 10, end: 10 };
    assert_eq!(span.len(), 0);
    assert_eq!(span.slice(&chars), &[] as &[char]);
}

#[test]
fn decimal_of_small_and_large_numbers() {
    assert_eq!(in_decimal(0), "0");
    assert_eq!(in_decimal(7), "7");
    assert_eq!(in_decimal(9), "9");
    assert_eq!(in_decimal(10), "10");
    assert_eq!(in_decimal(99), "99");
    assert_eq!(in_decimal(100), "100");
    assert_eq!(in_decimal(1234567890), "1234567890");
    assert_eq!(in_decimal(usize::MAX), usize::MAX.to_string());
}

#[test]
fn decimal_agrees_with_std() {
    for n in 0..2000usize {
        assert_eq!(in_decimal(n), n.to_string());
    }
}

#[test]
fn decimal_is_appended_to_what_is_there() {
    let mut out = String::from("line ");
    append_decimal(&mut out, 42);
    assert_eq!(out, "line 42");
}

#[test]
fn registry_enters_each_uuid_once() {
    let mut registry = Registry::new();
    assert!(registry.register(0x1812, Exclusion::Exclude));
    assert!(registry.register(0x1810, Exclusion::ExcludeReads));
    assert!(!registry.register(0x1812, Exclusion::Exclude));
    assert!(!registry.register(0x1812, Exclusion::ExcludeWrites));
    assert!(!registry.register(0x1810, Exclusion::ExcludeReads));
    assert!(registry.register(u128::MAX, Exclusion::ExcludeWrites));
    assert!(registry.register(0, Exclusion::Exclude));
    assert!(!registry.register(u128::MAX, Exclusion::ExcludeWrites));
}

#[test]
fn registry_keeps_the_first_mode() {
    let mut registry = Registry::new();
    assert_eq!(registry.mode_of(0x1812), None);
    assert!(registry.register(0x1812, Exclusion::ExcludeReads));
    assert_eq!(registry.mode_of(0x1812), Some(Exclusion::ExcludeReads));
    assert!(!registry.register(0x1812, Exclusion::ExcludeWrites));
    assert_eq!(registry.mode_of(0x1812), Some(Exclusion::ExcludeReads));
    assert_eq!(registry.mode_of(0x1813), None);
    assert!(registry.register(0x1813, Exclusion::Exclude));
    assert_eq!(registry.mode_of(0x1813), Some(Exclusion::Exclude));
    assert_eq!(registry.mode_of(0x1812), Some(Exclusion::ExcludeReads));
}
