use ts3_query::raw::{escape_arg, unescape_val};

#[test]
fn escape_replaces_each_special_character() {
    assert_eq!(escape_arg("a b|c/d\\e"), "a\\sb\\pc\\/d\\\\e");
    assert_eq!(escape_arg("\u{7}\u{8}\u{c}\n\r\t\u{b}"), "\\a\\b\\f\\n\\r\\t\\v");
    assert_eq!(escape_arg(""), "");
    assert_eq!(escape_arg("plain"), "plain");
}

#[test]
fn unescape_reverses_each_marker() {
    assert_eq!(unescape_val("a\\sb\\pc\\/d\\\\e"), "a b|c/d\\e");
    assert_eq!(unescape_val("\\a\\b\\f\\n\\r\\t\\v"), "\u{7}\u{8}\u{c}\n\r\t\u{b}");
}

#[test]
fn unescape_keeps_unknown_escape_and_trailing_backslash() {
    assert_eq!(unescape_val("\\x"), "x");
    assert_eq!(unescape_val("abc\\"), "abc\\");
    assert_eq!(unescape_val("\\"), "\\");
}

#[test]
fn unescape_undoes_escape_on_multibyte_text() {
    let s = "Grüße | 世界 / \\ \t end";
    assert_eq!(unescape_val(&escape_arg(s)), s);
    assert!(!escape_arg(s).contains(' '));
    assert!(!escape_arg(s).contains('|'));
}

use ts3_query::escape::Escape;

fn drain(mut e: Escape) -> Vec<u8> {
    let mut out = Vec::new();
    while let Some(b) = e.next() {
        out.push(b);
    }
    assert_eq!(e.next(), None);
    out
}

#[test]
fn escaper_gives_the_wire_bytes_one_at_a_time() {
    let mut e = Escape::new(b"a b".to_vec());
    assert_eq!(e.size_hint(), (3, Some(6)));
    assert_eq!(e.next(), Some(b'a'));
    assert_eq!(e.next(), Some(b'\\'));
    // the marker is held back
    assert_eq!(e.size_hint(), (1, Some(3)));
    assert_eq!(e.next(), Some(b's'));
    assert_eq!(e.next(), Some(b'b'));
    assert_eq!(e.size_hint(), (0, Some(0)));
    assert_eq!(e.next(), None);
    assert_eq!(e.next(), None);
}

#[test]
fn escaper_escapes_every_special_byte() {
    let all = drain(Escape::new(vec![b'\\', b'/', b' ', b'|', 7, 8, 12, b'\n', b'\r', b'\t', 11]));
    assert_eq!(all, b"\\\\\\/\\s\\p\\a\\b\\f\\n\\r\\t\\v".to_vec());
    assert_eq!(drain(Escape::new(Vec::new())), Vec::<u8>::new());
}

#[test]
fn escaper_passes_other_bytes_through() {
    let bytes: Vec<u8> = (0u8..=255).filter(|b| !b"\\/ |\x07\x08\x0c\n\r\t\x0b".contains(b)).collect();
    assert_eq!(drain(Escape::new(bytes.clone())), bytes);
    let text = "Grüße 世界";
    assert_eq!(drain(Escape::new(text.as_bytes().to_vec())), escape_arg(text).into_bytes());
    assert_eq!(escape_arg(text), "Grüße\\s世界");
}

use ts3_query::escape::unescape_slice;

#[test]
fn unescaping_bytes_undoes_escaping_for_every_byte() {
    let all: Vec<u8> = (0u8..=255).collect();
    let wire = drain(Escape::new(all.clone()));
    assert_eq!(wire.len(), 256 + 11);
    assert_eq!(unescape_slice(&wire), all);
    // bytes that are no UTF-8 at all
    let odd = vec![0xff, b' ', 0xc3, b'\\', 0x80, b'|', 0xfe];
    assert_eq!(unescape_slice(&drain(Escape::new(odd.clone()))), odd);
}

#[test]
fn unescaping_bytes_keeps_unknown_escapes_and_a_trailing_backslash() {
    assert_eq!(unescape_slice(b"\\x\\\xc3\xa4\\"), b"x\xc3\xa4\\".to_vec());
    assert_eq!(unescape_slice(b"\\s\\p\\a\\b\\f\\n\\r\\t\\v\\\\\\/"), b" |\x07\x08\x0c\n\r\t\x0b\\/".to_vec());
    assert_eq!(unescape_slice(b""), Vec::<u8>::new());
}

#[test]
fn unescape_does_not_split_a_character_after_a_backslash() {
    assert_eq!(unescape_val("\\ä\\s\\世"), "ä 世");
    assert_eq!(unescape_val("a\\\\sb"), "a\\sb");
}
