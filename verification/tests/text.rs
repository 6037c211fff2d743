use ballista_bench::settings::{env_text, env_usize};
use ballista_bench::text::{decimal_text, parse_usize, push_decimal_right, push_left, push_right};

#[test]
fn numerals_are_those_of_std() {
    for n in [0u64, 7, 9, 10, 99, 100, 4_000, 65_536, 1_000_000_007, u64::MAX] {
        assert_eq!(decimal_text(n), n.to_string());
    }
}

#[test]
fn parsing_is_that_of_std() {
    let inputs = [
        "", "+", "-", "0", "7", "007", "+12", "-12", "++1", "1_000", " 1", "1 ", "12a", "0x10",
        "18446744073709551615", "18446744073709551616", "99999999999999999999", "\u{0663}",
        "18446744073709551620", "000000000000000000000000000000001",
    ];
    for input in inputs {
        assert_eq!(parse_usize(input), input.parse::<usize>().ok(), "{input:?}");
    }
}

#[test]
fn written_numerals_are_read_back() {
    for n in [0usize, 1, 10, 12_345, usize::MAX] {
        assert_eq!(parse_usize(&decimal_text(n as u64)), Some(n));
    }
}

#[test]
fn alignment_is_that_of_std() {
    for text in ["", "ab", "abcdefgh", "abcdefghij", "1.5\u{b5}s"] {
        let mut left = String::from("<");
        push_left(&mut left, text, 8);
        assert_eq!(left, format!("<{text:<8}"));
        let mut right = String::from("<");
        push_right(&mut right, text, 8);
        assert_eq!(right, format!("<{text:>8}"));
    }
    let mut number = String::new();
    push_decimal_right(&mut number, 4_000, 7);
    assert_eq!(number, "   4000");
}

#[test]
fn variables_fall_back_to_their_default() {
    assert_eq!(env_usize(Some("12"), 5), 12);
    assert_eq!(env_usize(Some("twelve"), 5), 5);
    assert_eq!(env_usize(Some("99999999999999999999"), 5), 5);
    assert_eq!(env_usize(None, 5), 5);
    assert_eq!(env_text(Some("8"), "4"), "8");
    assert_eq!(env_text(Some(""), "4"), "");
    assert_eq!(env_text(None, "4"), "4");
}
