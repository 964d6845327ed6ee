use ppool::addr::{read_decimal, read_ipv4, read_octet, read_port};
use ppool::cell::{clean_cell, is_whitespace, trim, unescape};
use ppool::endpoint::{format_endpoint, read_endpoint};
use ppool::text::{contains_char, contains_text, same_text, starts_at, to_chars};

#[test]
fn to_chars_keeps_every_character() {
    assert_eq!(to_chars("a高b"), vec!['a', '高', 'b']);
    assert_eq!(to_chars(""), Vec::<char>::new());
}

#[test]
fn contains_text_finds_a_run_anywhere() {
    let hay = to_chars("say https twice: https");
    assert!(contains_text(&hay, &to_chars("https")));
    assert!(contains_text(&hay, &to_chars("say")));
    assert!(contains_text(&hay, &to_chars("ce: https")));
    assert!(contains_text(&hay, &to_chars("")));
    assert!(!contains_text(&hay, &to_chars("httpss")));
    assert!(!contains_text(&to_chars("http"), &to_chars("https")));
    assert!(contains_text(&to_chars(""), &to_chars("")));
    assert!(starts_at(&hay, &to_chars("https"), 4));
    assert!(!starts_at(&hay, &to_chars("https"), 3));
    assert!(contains_char(&hay, ':'));
    assert!(!contains_char(&hay, 'z'));
}

#[test]
fn same_text_compares_characters() {
    assert!(same_text("", ""));
    assert!(same_text("西刺代理", "西刺代理"));
    assert!(!same_text("a", "b"));
    assert!(!same_text("ab", "a"));
    assert!(!same_text("a", "ab"));
}

#[test]
fn read_decimal_stops_at_its_cap() {
    let digits = to_chars("x0255y");
    assert_eq!(read_decimal(&digits, 1, 5, 255), Some(255));
    assert_eq!(read_decimal(&digits, 1, 5, 254), None);
    assert_eq!(read_decimal(&digits, 1, 1, 255), Some(0));
    assert_eq!(read_decimal(&digits, 0, 5, 255), None);
    assert_eq!(read_decimal(&digits, 2, 6, 255), None);
    assert_eq!(read_octet(&digits, 2, 5), Some(255));
    assert_eq!(read_octet(&digits, 1, 5), None);
    assert_eq!(read_octet(&digits, 1, 2), Some(0));
    assert_eq!(read_octet(&digits, 1, 3), None);
}

#[test]
fn read_ipv4_and_read_port_agree_with_their_grammar() {
    assert_eq!(read_ipv4(&to_chars("127.0.0.1")), Some(0x7f00_0001));
    assert_eq!(read_ipv4(&to_chars("127.0.0.01")), None);
    assert_eq!(read_ipv4(&to_chars("127.0.0")), None);
    assert_eq!(read_port(&to_chars("08080")), Some(8080));
    assert_eq!(read_port(&to_chars("+1")), Some(1));
    assert_eq!(read_port(&to_chars("0")), None);
    assert_eq!(read_port(&to_chars("65536")), None);
}

#[test]
fn an_endpoint_is_written_and_read_back() {
    for (ip, port) in [(0u32, 0u16), (0x0102_0304, 80), (u32::MAX, u16::MAX), (0x0a00_0001, 1), (0xc0a8_0001, 10000), (256, 9), (65536, 99), (16777216, 999)] {
        let text = format_endpoint(ip, port);
        assert_eq!(read_endpoint(&to_chars(&text)), Some(ip as u64 * 65536 + port as u64), "{}", text);
    }
    assert_eq!(format_endpoint(0x0102_0304, 80), "1.2.3.4:80");
    assert_eq!(format_endpoint(0, 0), "0.0.0.0:0");
    assert_eq!(format_endpoint(u32::MAX, u16::MAX), "255.255.255.255:65535");
    assert_eq!(format_endpoint(0x0a14_1e28, 10203), "10.20.30.40:10203");
}

#[test]
fn read_endpoint_refuses_what_is_no_endpoint() {
    for text in ["", "1.2.3.4", "1.2.3.4:", ":80", "1.2.3.4:65536", "1.2.3:80", "1.2.3.4:+80", "1.2.3.4:8 0", "1.2.3.4:80:1", "1.2.3.4 :80", "[::1]:80"] {
        assert_eq!(read_endpoint(&to_chars(text)), None, "{}", text);
    }
    assert_eq!(read_endpoint(&to_chars("1.2.3.4:0080")), Some(0x0102_0304_0050));
    assert_eq!(read_endpoint(&to_chars("1.2.3.4:0")), Some(0x0102_0304_0000));
}

#[test]
fn a_cell_is_unescaped_and_trimmed() {
    assert_eq!(clean_cell("  1.2.3.4 \n"), "1.2.3.4");
    assert_eq!(clean_cell("&#13;\n   8080&#13;\n"), "8080");
    assert_eq!(clean_cell("a&#13;b"), "a\rb");
    assert_eq!(clean_cell(""), "");
    assert_eq!(clean_cell(" \t\r\n"), "");
    assert_eq!(clean_cell("&#13;"), "");
    assert_eq!(clean_cell("\u{3000}高匿\u{a0}"), "高匿");
    assert_eq!(clean_cell("&#13"), "&#13");
    assert_eq!(clean_cell("&#13;&#13;x&#13;&#13;"), "x");
    assert_eq!(unescape("&#13;&#13;x&&#13;#13;"), "\r\rx&\r#13;");
    assert_eq!(unescape("&#1&#13;3;"), "&#1\r3;");
    assert_eq!(trim("  a b  "), "a b");
    assert_eq!(trim("ab"), "ab");
    assert_eq!(trim("   "), "");
}

#[test]
fn white_space_is_what_the_standard_library_calls_so() {
    let mut n: u32 = 0;
    while n <= 0x11000 {
        if let Some(c) = char::from_u32(n) {
            assert_eq!(is_whitespace(c), c.is_whitespace(), "U+{:04X}", n);
        }
        n += 1;
    }
}

#[test]
fn trimming_agrees_with_the_standard_library() {
    for text in ["", " ", "a", " a", "a ", " a ", "\t\ta b\r\n", "\u{2003}x\u{2003}", "\u{200b}x", "x\u{feff}"] {
        assert_eq!(trim(text), text.trim(), "{:?}", text);
        assert_eq!(clean_cell(text), text.replace("&#13;", "\r").trim(), "{:?}", text);
    }
    for text in ["&#13;a&#13;", "a&#13;&#13;b", "&&#13;", "&#13;&#13", "&#13&#13;", "&#&#13;13;"] {
        assert_eq!(unescape(text), text.replace("&#13;", "\r"), "{:?}", text);
        assert_eq!(clean_cell(text), text.replace("&#13;", "\r").trim(), "{:?}", text);
    }
}
