use stock_stream::text::{decimal_string, is_whitespace_char, owned, push_char, trim, utf8_text};

#[test]
fn whitespace_matches_std_for_every_char() {
    for code in 0u32..=0x10FFFF {
        if let Some(c) = char::from_u32(code) {
            assert_eq!(is_whitespace_char(c), c.is_whitespace(), "char {:#x}", code);
        }
    }
}

#[test]
fn trim_matches_std() {
    let samples = [
        "", " ", "  x ", "\t\n a b \r\n", "abc", "\u{A0}1 234,5\u{3000}", " \u{2009}x\u{2009} ",
        "x\u{85}", "\u{1680}", "a  b",
    ];
    for s in samples {
        assert_eq!(trim(s), s.trim(), "sample {:?}", s);
    }
}

#[test]
fn trim_of_cell_text() {
    assert_eq!(trim("\n   LVMH  \n"), "LVMH");
}

#[test]
fn decimal_matches_to_string_for_every_u16() {
    for n in 0u16..=u16::MAX {
        assert_eq!(decimal_string(n), n.to_string());
    }
}

#[test]
fn decimal_exact_values() {
    assert_eq!(decimal_string(0), "0");
    assert_eq!(decimal_string(9092), "9092");
    assert_eq!(decimal_string(65535), "65535");
}

#[test]
fn push_char_appends() {
    let mut s = owned("ab");
    push_char(&mut s, 'c');
    assert_eq!(s, "abc");
}

#[test]
fn utf8_text_decodes_and_rejects() {
    assert_eq!(utf8_text(b"ACA"), Some("ACA".to_string()));
    assert_eq!(utf8_text("é€".as_bytes()), Some("é€".to_string()));
    assert_eq!(utf8_text(&[0xff, 0x41]), None);
    assert_eq!(utf8_text(&[]), Some(String::new()));
}

#[test]
fn trim_twice_is_trim_once() {
    for s in ["  a b  ", "\u{3000}x\t", "", "   "] {
        let once = trim(s);
        assert_eq!(trim(&once), once);
    }
}
