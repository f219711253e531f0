use co2_monitor::text::{parse_decimal, push_binary8, push_decimal, split_on_byte};

fn decimal_of(n: u64) -> Vec<u8> {
    let mut out = Vec::new();
    push_decimal(&mut out, n);
    out
}

#[test]
fn decimal_text_of_numbers() {
    assert_eq!(decimal_of(0), b"0".to_vec());
    assert_eq!(decimal_of(7), b"7".to_vec());
    assert_eq!(decimal_of(10), b"10".to_vec());
    assert_eq!(decimal_of(400), b"400".to_vec());
    assert_eq!(decimal_of(65535), b"65535".to_vec());
    assert_eq!(decimal_of(u64::MAX), b"18446744073709551615".to_vec());
}

#[test]
fn decimal_text_appends() {
    let mut out = b"x=".to_vec();
    push_decimal(&mut out, 42);
    assert_eq!(out, b"x=42".to_vec());
}

#[test]
fn parse_accepts_what_str_parse_accepts() {
    assert_eq!(parse_decimal(b"255", 255), Some(255));
    assert_eq!(parse_decimal(b"0", 255), Some(0));
    assert_eq!(parse_decimal(b"+7", 255), Some(7));
    assert_eq!(parse_decimal(b"007", 255), Some(7));
    assert_eq!(parse_decimal(b"65535", 65535), Some(65535));
}

#[test]
fn parse_rejects_what_str_parse_rejects() {
    assert_eq!(parse_decimal(b"256", 255), None);
    assert_eq!(parse_decimal(b"65536", 65535), None);
    assert_eq!(parse_decimal(b"99999999999", 65535), None);
    assert_eq!(parse_decimal(b"", 255), None);
    assert_eq!(parse_decimal(b"+", 255), None);
    assert_eq!(parse_decimal(b"-1", 255), None);
    assert_eq!(parse_decimal(b"-0", 255), None);
    assert_eq!(parse_decimal(b"12a", 255), None);
    assert_eq!(parse_decimal(b" 1", 255), None);
    assert_eq!(parse_decimal(b"++1", 255), None);
}

#[test]
fn parse_agrees_with_std_on_short_texts() {
    let alphabet: &[u8] = b"0159+-a";
    for a in alphabet {
        for b in alphabet {
            for c in alphabet {
                for len in 0..=3 {
                    let text: Vec<u8> = [*a, *b, *c][..len].to_vec();
                    let s = std::str::from_utf8(&text).unwrap();
                    let expected = s.parse::<u8>().ok().map(|v| v as u32);
                    assert_eq!(parse_decimal(&text, 255), expected, "text {:?}", s);
                }
            }
        }
    }
}

#[test]
fn decimal_text_reads_back() {
    for n in 0..=65535u64 {
        assert_eq!(parse_decimal(&decimal_of(n), 65535), Some(n as u32));
    }
}

#[test]
fn binary_text_of_bytes() {
    let mut out = Vec::new();
    push_binary8(&mut out, 5);
    assert_eq!(out, b"00000101".to_vec());
    let mut out = Vec::new();
    push_binary8(&mut out, 0xff);
    assert_eq!(out, b"11111111".to_vec());
    let mut out = b"Error ".to_vec();
    push_binary8(&mut out, 0);
    assert_eq!(out, b"Error 00000000".to_vec());
}

#[test]
fn split_like_str_split() {
    let cases: [&str; 7] = ["1.2.3.4", "1..2", "", ".", "a.", ".a", "abc"];
    for case in cases {
        let expected: Vec<Vec<u8>> = case.split('.').map(|p| p.as_bytes().to_vec()).collect();
        assert_eq!(split_on_byte(case.as_bytes(), b'.'), expected, "text {:?}", case);
    }
}
