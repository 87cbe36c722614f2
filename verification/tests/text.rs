use camera_stream::text::{
    append_decimal, chars_of, find_from, is_whitespace, parse_unsigned, same_text, split_trimmed,
    trim,
};

#[test]
fn whitespace_is_the_unicode_property() {
    for n in 0..=0x10ffffu32 {
        if let Some(c) = char::from_u32(n) {
            assert_eq!(is_whitespace(c), c.is_whitespace(), "U+{:04X}", n);
        }
    }
}

#[test]
fn trim_drops_both_ends_only() {
    for s in ["", " ", "a", "  a b \t", "\u{3000}x\u{a0}", "x\n", "\u{2003}\u{2003}", "é ü "] {
        assert_eq!(trim(s), s.trim());
    }
}

#[test]
fn split_keeps_empty_pieces() {
    for s in ["", ",", "a", "a,b", " a , b ,", ",,x", "é,ü , "] {
        let expected: Vec<String> = s.split(',').map(|p| p.trim().to_owned()).collect();
        assert_eq!(split_trimmed(s, ','), expected);
    }
}

#[test]
fn pieces_rejoin_to_the_text() {
    let s = "a;b;;c|d";
    assert_eq!(split_trimmed(s, ';').join(";"), s);
}

#[test]
fn numbers_read_as_std_reads_them() {
    let samples = [
        "", "+", "-", "0", "-0", "+0", "007", "+80", "++1", "65535", "65536", "99999999999999999999",
        "18446744073709551615", "18446744073709551616", " 1", "1 ", "1_000", "0x10", "١", "12a",
        "4294967295", "4294967296", "00000000000000000000000000001",
    ];
    for s in samples {
        assert_eq!(parse_unsigned(s, u16::MAX as u64), s.parse::<u16>().ok().map(|n| n as u64), "{}", s);
        assert_eq!(parse_unsigned(s, u32::MAX as u64), s.parse::<u32>().ok().map(|n| n as u64), "{}", s);
        assert_eq!(parse_unsigned(s, u64::MAX), s.parse::<u64>().ok(), "{}", s);
    }
}

#[test]
fn decimals_read_back() {
    for n in [0u64, 7, 10, 99, 100, 1920, 65535, 4294967296, u64::MAX] {
        let mut text = String::from("n=");
        append_decimal(&mut text, n);
        assert_eq!(text, format!("n={}", n));
        assert_eq!(parse_unsigned(&text[2..], u64::MAX), Some(n));
    }
}

#[test]
fn finding_and_comparing() {
    let chars = chars_of("a|b|é");
    assert_eq!(chars, vec!['a', '|', 'b', '|', 'é']);
    assert_eq!(find_from(&chars, '|', 0), 1);
    assert_eq!(find_from(&chars, '|', 2), 3);
    assert_eq!(find_from(&chars, '|', 4), 5);
    assert!(same_text("offer", "offer"));
    assert!(!same_text("offer", "offes"));
    assert!(!same_text("offer", "offers"));
}
