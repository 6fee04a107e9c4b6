use compute_worker::primitives::{
    parse_address, parse_bytes, parse_u256, parse_u64, Address, Word,
};
use compute_worker::text::{blank, decimal, same_text};

fn word(low: u8) -> Word {
    let mut bytes = [0u8; 32];
    bytes[31] = low;
    Word { bytes }
}

#[test]
fn decimal_numbers() {
    assert_eq!(decimal(0), "0");
    assert_eq!(decimal(7), "7");
    assert_eq!(decimal(10), "10");
    assert_eq!(decimal(9_007_199_254_740_993), "9007199254740993");
    assert_eq!(decimal(u64::MAX), "18446744073709551615");
}

#[test]
fn white_space_is_what_unicode_lists() {
    let ranges = [
        ('\t', '\r'),
        (' ', ' '),
        ('\u{85}', '\u{85}'),
        ('\u{a0}', '\u{a0}'),
        ('\u{1680}', '\u{1680}'),
        ('\u{2000}', '\u{200a}'),
        ('\u{2028}', '\u{2029}'),
        ('\u{202f}', '\u{202f}'),
        ('\u{205f}', '\u{205f}'),
        ('\u{3000}', '\u{3000}'),
    ];
    let mut count = 0;
    for c in '\0'..=char::MAX {
        let listed = ranges.iter().any(|(first, last)| *first <= c && c <= *last);
        assert_eq!(blank(&c.to_string()), listed);
        if listed {
            count += 1;
        }
    }
    assert_eq!(count, 25);
}

#[test]
fn blank_texts() {
    assert!(blank(""));
    assert!(blank(" \t\n\u{a0}\u{3000}"));
    assert!(!blank("  x "));
    assert!(!blank("\u{200b}"));
}

#[test]
fn equal_texts() {
    assert!(same_text("", ""));
    assert!(same_text("ready", "ready"));
    assert!(!same_text("ready", "read"));
    assert!(!same_text("read", "ready"));
    assert!(!same_text("ready", "Ready"));
    assert!(same_text("gr\u{fc}n", "gr\u{fc}n"));
}

#[test]
fn addresses_of_either_case_and_prefix() {
    let mut bytes = [0u8; 20];
    bytes[0] = 0xab;
    bytes[19] = 0xcd;
    let expected = Address { bytes };
    for text in [
        "0xab000000000000000000000000000000000000cd",
        "0XAB000000000000000000000000000000000000CD",
        "Ab000000000000000000000000000000000000cD",
    ] {
        assert_eq!(parse_address(text), Ok(expected));
    }
}

#[test]
fn refused_addresses() {
    assert_eq!(
        parse_address("0x12"),
        Err("invalid address \"0x12\": invalid string length".to_owned())
    );
    assert_eq!(
        parse_address("0x1"),
        Err("invalid address \"0x1\": odd number of digits".to_owned())
    );
    assert_eq!(
        parse_address("0xg0000000000000000000000000000000000000cd"),
        Err(
            "invalid address \"0xg0000000000000000000000000000000000000cd\": invalid character 'g' at position 0"
                .to_owned()
        )
    );
    assert!(parse_address("").is_err());
    assert!(parse_address("\u{e9}\u{e9}").is_err());
}

#[test]
fn byte_strings() {
    assert_eq!(parse_bytes(""), Ok(vec![]));
    assert_eq!(parse_bytes("0x"), Ok(vec![]));
    assert_eq!(parse_bytes("0X60fF"), Ok(vec![0x60, 0xff]));
    assert_eq!(parse_bytes("6001"), Ok(vec![0x60, 0x01]));
    assert_eq!(
        parse_bytes("0x600"),
        Err("invalid byte string \"0x600\": odd number of digits".to_owned())
    );
    assert_eq!(
        parse_bytes("0x\"\""),
        Err(
            "invalid byte string \"0x\\\"\\\"\": invalid character '\"' at position 0".to_owned()
        )
    );
}

#[test]
fn quantities() {
    assert_eq!(parse_u256("0x"), Ok(word(0)));
    assert_eq!(parse_u256(""), Ok(word(0)));
    assert_eq!(parse_u256("0x0f"), Ok(word(15)));
    assert_eq!(parse_u256("1_0"), Ok(word(16)));
    assert_eq!(parse_u256("Ff"), Ok(word(255)));
    let most = "f".repeat(64);
    assert_eq!(parse_u256(&most), Ok(Word { bytes: [0xff; 32] }));
    assert_eq!(parse_u256(&format!("0x000{most}")), Ok(Word { bytes: [0xff; 32] }));
    let more = format!("1{}", "0".repeat(64));
    assert_eq!(
        parse_u256(&more),
        Err(format!(
            "invalid hex quantity \"{more}\": the value is too large to fit the target type"
        ))
    );
    assert_eq!(
        parse_u256("0X1"),
        Err("invalid hex quantity \"0X1\": invalid digit: X".to_owned())
    );
    assert_eq!(
        parse_u256("0xg"),
        Err("invalid hex quantity \"0xg\": invalid digit: g".to_owned())
    );
}

#[test]
fn small_quantities() {
    assert_eq!(parse_u64("0x10"), Ok(16));
    assert_eq!(parse_u64("0xffffffffffffffff"), Ok(u64::MAX));
    assert_eq!(
        parse_u64("0x10000000000000000"),
        Err("hex quantity \"0x10000000000000000\" overflows u64".to_owned())
    );
    assert_eq!(parse_u64("x"), Err("invalid hex quantity \"x\": invalid digit: x".to_owned()));
}

#[test]
fn words_compare_by_their_numbers() {
    assert!(word(7).same(&word(7)));
    assert!(!word(7).same(&word(8)));
    assert!(Word::zero().same(&word(0)));
    assert_eq!(word(9).to_u64(), Some(9));
    assert_eq!(Word { bytes: [1; 32] }.to_u64(), None);
    let address = Address { bytes: [3; 20] };
    assert!(address.same(&Address { bytes: [3; 20] }));
    assert!(!address.same(&Address { bytes: [4; 20] }));
}
