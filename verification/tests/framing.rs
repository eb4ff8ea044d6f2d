use fontpath_shim::cstring::{decode_text, encode_text, terminate, InteriorNul};

#[test]
fn terminate_appends_one_nul() {
    assert_eq!(terminate(b"open"), Ok(vec![b'o', b'p', b'e', b'n', 0]));
    assert_eq!(terminate(b""), Ok(vec![0]));
}

#[test]
fn terminate_reports_first_nul() {
    assert_eq!(terminate(b"ab\0cd\0"), Err(InteriorNul { position: 2 }));
    assert_eq!(terminate(b"\0"), Err(InteriorNul { position: 0 }));
    assert_eq!(terminate(b"abc\0"), Err(InteriorNul { position: 3 }));
}

#[test]
fn terminate_keeps_bytes_that_are_not_text() {
    assert_eq!(terminate(&[0xff, 0x80, 0x01]), Ok(vec![0xff, 0x80, 0x01, 0]));
}

#[test]
fn encode_text_frames_symbol_names() {
    assert_eq!(encode_text("opendir"), Ok(b"opendir\0".to_vec()));
    assert_eq!(encode_text("__xstat64"), Ok(b"__xstat64\0".to_vec()));
}

#[test]
fn encode_text_uses_utf8() {
    assert_eq!(encode_text("\u{e9}"), Ok(vec![0xc3, 0xa9, 0]));
}

#[test]
fn encode_text_counts_position_in_bytes() {
    assert_eq!(encode_text("\u{e9}\0x"), Err(InteriorNul { position: 2 }));
    assert_eq!(encode_text("no\0such"), Err(InteriorNul { position: 2 }));
}

#[test]
fn decode_text_reads_utf8() {
    assert_eq!(decode_text(b"/etc/fstab"), Some("/etc/fstab"));
    assert_eq!(decode_text(&[0xc3, 0xa9]), Some("\u{e9}"));
    assert_eq!(decode_text(b""), Some(""));
    assert_eq!(decode_text(b"a\0b"), Some("a\0b"));
}

#[test]
fn decode_text_refuses_malformed_bytes() {
    assert_eq!(decode_text(&[0xff]), None);
    assert_eq!(decode_text(&[b'a', 0xc3]), None);
    assert_eq!(decode_text(&[0xc0, 0x80]), None);
    assert_eq!(decode_text(&[0xed, 0xa0, 0x80]), None);
}
