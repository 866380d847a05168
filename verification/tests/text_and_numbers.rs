use backup_basic::number::{decimal_exec, decimal_two_exec, parse_u64_exec};
use backup_basic::text::{
    chars_of, find_exec, lines_exec, output_text, remove_char_exec, rfind_exec, string_of,
    trim_end_char_exec, trim_end_exec,
};
use backup_basic::utf16::{decode_utf16, encode_utf16, text_of_padded_buffer};

fn cs(s: &str) -> Vec<char> {
    s.chars().collect()
}

fn st(v: &[char]) -> String {
    v.iter().collect()
}

#[test]
fn chars_and_strings_round_trip() {
    let v = chars_of("Zürich\\é");
    assert_eq!(v, cs("Zürich\\é"));
    assert_eq!(string_of(&v), "Zürich\\é");
}

#[test]
fn trim_end_drops_unicode_whitespace_only_at_the_end() {
    assert_eq!(st(&trim_end_exec(&cs("  a b \t\r\n\u{3000}\u{A0}"))), "  a b");
    assert_eq!(st(&trim_end_exec(&cs(" \n "))), "");
    assert_eq!(st(&trim_end_exec(&cs("x"))), "x");
    assert_eq!(st(&trim_end_char_exec(&cs("ab\0\0\0"), '\0')), "ab");
    assert_eq!(st(&trim_end_char_exec(&cs("a\0b"), '\0')), "a\0b");
}

#[test]
fn lines_split_like_str_lines() {
    let text = "a\r\nb\n\nc\rd\ne";
    let got: Vec<String> = lines_exec(&cs(text)).iter().map(|l| st(l)).collect();
    let want: Vec<String> = text.lines().map(|l| l.to_string()).collect();
    assert_eq!(got, want);
    assert_eq!(got, vec!["a", "b", "", "c\rd", "e"]);
    assert!(lines_exec(&cs("")).is_empty());
    let got: Vec<String> = lines_exec(&cs("one\n")).iter().map(|l| st(l)).collect();
    assert_eq!(got, vec!["one"]);
}

#[test]
fn find_and_rfind_give_first_and_last_positions() {
    let s = cs("ab\\\\cd\\\\e");
    assert_eq!(find_exec(&s, &cs("\\\\")), Some(2));
    assert_eq!(rfind_exec(&s, &cs("\\\\")), Some(6));
    assert_eq!(find_exec(&s, &cs("zz")), None);
    assert_eq!(rfind_exec(&s, &cs("zz")), None);
    assert_eq!(find_exec(&s, &cs("")), Some(0));
    assert_eq!(rfind_exec(&s, &cs("")), Some(s.len()));
}

#[test]
fn remove_char_drops_every_colon() {
    assert_eq!(st(&remove_char_exec(&cs("C:\\a:b\\c"), ':')), "C\\ab\\c");
    assert_eq!(st(&remove_char_exec(&cs(":::"), ':')), "");
}

#[test]
fn output_text_decodes_utf8_and_replaces_invalid_bytes() {
    assert_eq!(st(&output_text("OK  Z:  é".as_bytes())), "OK  Z:  é");
    assert_eq!(st(&output_text(&[0x41, 0xFF, 0x42])), "A\u{FFFD}B");
}

#[test]
fn utf16_encoding_matches_std() {
    let text = "A\u{e9}\u{1F600}z";
    let want: Vec<u16> = text.encode_utf16().collect();
    assert_eq!(encode_utf16(&cs(text)), want);
    assert_eq!(encode_utf16(&cs("\u{1F600}")), vec![0xD83D, 0xDE00]);
}

#[test]
fn padded_buffer_is_decoded_and_cut_of_nuls() {
    let mut buffer: Vec<u16> = "C:\\Tools\\Backup.exe".encode_utf16().collect();
    buffer.resize(1024, 0);
    assert_eq!(st(&text_of_padded_buffer(&buffer).unwrap()), "C:\\Tools\\Backup.exe");
    let all_zero = vec![0u16; 8];
    assert_eq!(text_of_padded_buffer(&all_zero), Some(vec![]));
    let lone_surrogate = vec![0x41, 0xD800, 0, 0];
    assert_eq!(text_of_padded_buffer(&lone_surrogate), None);
}

#[test]
fn decimal_writing() {
    assert_eq!(st(&decimal_exec(0)), "0");
    assert_eq!(st(&decimal_exec(7)), "7");
    assert_eq!(st(&decimal_exec(42)), "42");
    assert_eq!(st(&decimal_exec(u64::MAX)), "18446744073709551615");
    assert_eq!(st(&decimal_two_exec(4)), "04");
    assert_eq!(st(&decimal_two_exec(0)), "00");
    assert_eq!(st(&decimal_two_exec(12)), "12");
    assert_eq!(st(&decimal_two_exec(123)), "123");
    assert_eq!(format!("{:02}", 4), "04");
}

#[test]
fn parsing_follows_str_parse() {
    for s in ["0", "16", "+12", "007", "18446744073709551615", "18446744073709551616", "", "+", "-0", "-5", " 1", "1 ", "1a", "++1"] {
        assert_eq!(parse_u64_exec(&cs(s)), s.parse::<u64>().ok(), "on {:?}", s);
    }
    assert_eq!(parse_u64_exec(&cs("+12")), Some(12));
    assert_eq!(parse_u64_exec(&cs("-0")), None);
}

#[test]
fn parsing_reads_back_writing() {
    for n in [0u64, 1, 9, 10, 99, 100, 123456789, u64::MAX] {
        assert_eq!(parse_u64_exec(&decimal_exec(n)), Some(n));
        assert_eq!(parse_u64_exec(&decimal_two_exec(n)), Some(n));
    }
}

#[test]
fn decoding_an_encoding_gives_the_text_back() {
    for text in ["", "plain", "C:\\Ü\\ß", "\u{1F600}\u{10FFFF}\u{FFFF}"] {
        let units = encode_utf16(&cs(text));
        assert_eq!(st(&text_of_padded_buffer(&units).unwrap()), text);
    }
}

#[test]
fn utf16_decoding_matches_std() {
    let cases: Vec<Vec<u16>> = vec![
        vec![],
        vec![0x41, 0x42],
        vec![0xD83D, 0xDE00],
        vec![0xDBFF, 0xDFFF, 0x20],
        vec![0xD800],
        vec![0xDC00],
        vec![0x41, 0xDC00, 0xD800],
        vec![0xD800, 0x41],
        vec![0xFFFF, 0xE000, 0xD7FF],
    ];
    for v in cases {
        let want = String::from_utf16(&v).ok();
        let got = decode_utf16(&v).map(|t| st(&t));
        assert_eq!(got, want, "on {:x?}", v);
    }
}
