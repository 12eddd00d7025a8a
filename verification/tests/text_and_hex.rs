use pq_ldk_sample::hex::{hex_str, to_compressed_pubkey, to_vec};
use pq_ldk_sample::text::{
    chars_of, decimal, parse_number, parse_u16, parse_u32, parse_u64, space, split_pieces,
    split_words, string_of, text2, text3, text4, text5, text_is, trim, NumberError,
};

const GENERATOR: &str = "0279be667ef9dcbbac55a06295ce870b07029bfcdb2dce28d959f2815b16f81798";

#[test]
fn hex_reads_back_what_it_wrote() {
    let bytes: Vec<u8> = (0u8..=255).collect();
    let text = hex_str(&bytes);
    assert_eq!(text.len(), 512);
    assert_eq!(&text[..8], "00010203");
    assert_eq!(&text[504..], "fcfdfeff");
    assert_eq!(to_vec(&text), Some(bytes));
}

#[test]
fn hex_takes_both_cases_and_drops_an_odd_digit() {
    assert_eq!(to_vec("DEADbeef"), Some(vec![0xde, 0xad, 0xbe, 0xef]));
    assert_eq!(to_vec("abc"), Some(vec![0xab]));
    assert_eq!(to_vec(""), Some(vec![]));
    assert_eq!(to_vec("0g"), None);
    assert_eq!(to_vec("00 "), None);
}

#[test]
fn a_public_key_has_to_be_a_compressed_point() {
    let key = to_compressed_pubkey(GENERATOR).unwrap();
    assert_eq!(hex_str(&key), GENERATOR);
    assert_eq!(to_compressed_pubkey(&GENERATOR.to_uppercase()), Some(key));
    assert_eq!(to_compressed_pubkey(&GENERATOR[2..]), None);
    assert_eq!(to_compressed_pubkey(&format!("{}00", GENERATOR)), None);
    let no_point = format!("05{}", &GENERATOR[2..]);
    assert_eq!(to_compressed_pubkey(&no_point), None);
    let no_hex = format!("0x{}", &GENERATOR[2..]);
    assert_eq!(to_compressed_pubkey(&no_hex), None);
}

#[test]
fn words_are_split_at_any_white_space() {
    assert_eq!(split_words("  open\tchannel \u{3000}x\n"), vec!["open", "channel", "x"]);
    assert!(split_words("").is_empty());
    assert!(split_words(" \t ").is_empty());
    for line in ["a b", " a  b ", "\u{2003}a\u{85}b", "a\u{200b}b c"] {
        let expected: Vec<String> = line.split_whitespace().map(|w| w.to_string()).collect();
        assert_eq!(split_words(line), expected);
    }
}

#[test]
fn every_white_space_character_is_known() {
    for code in 0u32..0x11_0000 {
        if let Some(c) = char::from_u32(code) {
            assert_eq!(space(c), c.is_whitespace(), "{:x}", code);
        }
    }
}

#[test]
fn leading_spaces_do_not_change_words() {
    assert_eq!(split_words(" \t nodeinfo x"), split_words("nodeinfo x"));
}

#[test]
fn trimming_removes_white_space_at_both_ends() {
    for line in ["  a b  ", "", " ", "\u{a0}x\t", "x"] {
        assert_eq!(trim(line), line.trim());
    }
}

#[test]
fn numbers_are_read_like_the_standard_library_reads_them() {
    let cases = [
        "0", "7", "007", "+5", "-5", "+", "-", "", "a", "1a", "a1", "18446744073709551615",
        "18446744073709551616", "99999999999999999999", "+18446744073709551615", "4294967295",
        "4294967296", "65535", "65536", "1 ", "++1", "99999999999999999999x",
    ];
    for case in cases {
        let text = |r: Result<u64, NumberError>| r.map_err(|e| e.message());
        assert_eq!(text(parse_u64(case)), case.parse::<u64>().map_err(|e| e.to_string()), "{}", case);
        let r32 = parse_u32(case).map_err(|e| e.message());
        assert_eq!(r32, case.parse::<u32>().map_err(|e| e.to_string()), "{}", case);
        let r16 = parse_u16(case).map_err(|e| e.message());
        assert_eq!(r16, case.parse::<u16>().map_err(|e| e.to_string()), "{}", case);
    }
}

#[test]
fn number_errors_are_told_apart() {
    assert_eq!(parse_u64(""), Err(NumberError::Empty));
    assert_eq!(parse_u64("x"), Err(NumberError::InvalidDigit));
    assert_eq!(parse_number("11", 10), Err(NumberError::TooLarge));
    assert_eq!(parse_number("10", 10), Ok(10));
}

#[test]
fn decimal_text_is_read_back() {
    for n in [0u64, 1, 9, 10, 99, 100, 12345, u64::MAX] {
        assert_eq!(decimal(n), n.to_string());
        assert_eq!(parse_u64(&decimal(n)), Ok(n));
    }
}

#[test]
fn pieces_end_at_the_separator() {
    assert_eq!(split_pieces("key@host", '@'), ("key".to_string(), Some("host".to_string())));
    assert_eq!(split_pieces("key@host@x", '@'), ("key".to_string(), Some("host".to_string())));
    assert_eq!(split_pieces("key", '@'), ("key".to_string(), None));
    assert_eq!(split_pieces("@", '@'), ("".to_string(), Some("".to_string())));
}

#[test]
fn texts_are_put_together() {
    assert_eq!(text2("a", "b"), "ab");
    assert_eq!(text3("a", "b", "c"), "abc");
    assert_eq!(text4("a", "b", "c", "d"), "abcd");
    assert_eq!(text5("a", "b", "c", "d", "e"), "abcde");
    let chars = chars_of("h\u{e9}llo");
    assert_eq!(chars.len(), 5);
    assert_eq!(string_of(&chars, 1, 3), "\u{e9}l");
    assert!(text_is(&"x".to_string(), "x"));
    assert!(!text_is(&"x".to_string(), "X"));
}
