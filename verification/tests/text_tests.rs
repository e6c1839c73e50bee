use siren::text::{
    characters, decimal_text, parse_i64, parse_u16, rsplit_once, same_text, split, split_once,
    strip_prefix, text_or_default, trim, white_space,
};

const TEXTS: [&str; 14] = [
    "", " ", "a", ",", "a,b", ",a", "a,", "a,,b", " a , b ", "\u{e9},\u{1f600}", "\t\n\u{85}x\u{2029}",
    "\u{3000}", "x\u{a0}y", "\u{200b}x\u{feff}",
];

#[test]
fn white_space_as_unicode_has_it() {
    for n in 0..=0x10ffffu32 {
        if let Some(c) = char::from_u32(n) {
            assert_eq!(white_space(c), c.is_whitespace(), "{:x}", n);
        }
    }
}

#[test]
fn trimmed_texts() {
    for t in TEXTS {
        assert_eq!(trim(t), t.trim());
    }
}

#[test]
fn split_texts() {
    for t in TEXTS {
        assert_eq!(split(t, ','), t.split(',').collect::<Vec<&str>>());
        assert_eq!(split_once(t, ','), t.split_once(','));
        assert_eq!(rsplit_once(t, ','), t.rsplit_once(','));
        assert_eq!(characters(t), t.chars().collect::<Vec<char>>());
    }
}

#[test]
fn prefixes() {
    for t in TEXTS {
        for p in TEXTS {
            assert_eq!(strip_prefix(t, p), t.strip_prefix(p));
            assert_eq!(same_text(t, p), t == p);
        }
    }
    assert_eq!(strip_prefix("socks://x", "socks://"), Some("x"));
}

const NUMBERS: [&str; 26] = [
    "", "+", "-", "0", "-0", "+0", "00", "7", "+7", "-7", "++7", "+-7", "7 ", " 7", "1_0", "\u{661}",
    "65535", "65536", "000065535", "9223372036854775807", "9223372036854775808",
    "-9223372036854775808", "-9223372036854775809", "+9223372036854775807",
    "99999999999999999999999999", "-00000000000000000000001",
];

#[test]
fn numbers_are_read_as_std_reads_them() {
    for t in NUMBERS {
        assert_eq!(parse_u16(t), t.parse::<u16>().ok(), "{:?}", t);
        assert_eq!(parse_i64(t), t.parse::<i64>().ok(), "{:?}", t);
    }
}

#[test]
fn numbers_are_written_as_std_writes_them() {
    for n in [0u64, 1, 9, 10, 99, 100, 65535, 1234567890, u64::MAX] {
        assert_eq!(decimal_text(n), n.to_string());
    }
}

#[test]
fn numbers_read_back() {
    for n in [0u16, 1, 10, 443, 65535] {
        assert_eq!(parse_u16(&decimal_text(n as u64)), Some(n));
    }
    assert_eq!(parse_i64(&decimal_text(i64::MAX as u64)), Some(i64::MAX));
    assert_eq!(parse_i64(&decimal_text(i64::MAX as u64 + 1)), None);
}

#[test]
fn missing_text_is_empty() {
    assert_eq!(text_or_default(Some("x".to_string())), "x");
    assert_eq!(text_or_default(None), "");
}
