use blitz::{int_to_string, is_whitespace, nat_to_string, parse_i32, same_text, tokenize, trim};

#[test]
fn whitespace_matches_char_is_whitespace() {
    for code in 0u32..=0x10FFFF {
        if let Some(c) = char::from_u32(code) {
            assert_eq!(is_whitespace(c), c.is_whitespace(), "at {:x}", code);
        }
    }
}

#[test]
fn tokenize_matches_split_whitespace() {
    let samples = [
        "",
        "   ",
        "ls",
        "  ls   -l  &  ",
        "a\tb\nc",
        "x\u{3000}y\u{a0}z",
        "echo \"a b\" | wc > out",
        "héllo wörld",
    ];
    for s in samples.iter() {
        let expected: Vec<String> = s.split_whitespace().map(|t| t.to_string()).collect();
        assert_eq!(tokenize(s), expected, "for {:?}", s);
    }
}

#[test]
fn trim_matches_str_trim() {
    let samples = ["", "  ", " a ", "\t a b \n", "abc", "\u{2003}x\u{2003}"];
    for s in samples.iter() {
        assert_eq!(trim(s), s.trim(), "for {:?}", s);
    }
}

#[test]
fn parse_i32_matches_str_parse() {
    let samples = [
        "0", "7", "-12", "+5", "-", "+", "", "00012", " 1", "1 ", "12a", "2147483647",
        "2147483648", "-2147483648", "-2147483649", "99999999999999999999", "--1", "+-1", "٣",
    ];
    for s in samples.iter() {
        assert_eq!(parse_i32(s), s.parse::<i32>().ok(), "for {:?}", s);
    }
}

#[test]
fn decimal_numerals() {
    assert_eq!(nat_to_string(0), "0");
    assert_eq!(nat_to_string(10), "10");
    assert_eq!(nat_to_string(u64::MAX), u64::MAX.to_string());
    assert_eq!(int_to_string(-45), "-45");
    assert_eq!(int_to_string(i64::MIN), i64::MIN.to_string());
    assert_eq!(int_to_string(i64::MAX), i64::MAX.to_string());
}

#[test]
fn same_text_compares_characters() {
    assert!(same_text("cd", "cd"));
    assert!(!same_text("cd", "cdx"));
    assert!(!same_text("ab", "ac"));
    assert!(same_text("", ""));
}
