use request_router::text::decode;

fn decode_text(bytes: &[u8]) -> String {
    decode(bytes).iter().collect()
}

#[test]
fn decode_of_ascii_is_the_same_characters() {
    assert_eq!(decode(b""), Vec::<char>::new());
    assert_eq!(decode(b"12"), vec!['1', '2']);
    assert_eq!(decode(b" 7\r\n"), vec![' ', '7', '\r', '\n']);
}

#[test]
fn decode_joins_the_bytes_of_one_character() {
    assert_eq!(decode(&[0xC3, 0xA9]), vec!['é']);
    assert_eq!(decode(&[0xC2, 0xA0, 0x31]), vec!['\u{A0}', '1']);
    assert_eq!(decode(&[0xE3, 0x80, 0x80]), vec!['\u{3000}']);
    assert_eq!(decode(&[0xF0, 0x9F, 0x98, 0x80]), vec!['\u{1F600}']);
    assert_eq!(decode_text("grüße, 世界".as_bytes()), "grüße, 世界");
}

#[test]
fn decode_replaces_invalid_bytes() {
    assert_eq!(decode(&[0xFF]), vec!['\u{FFFD}']);
    assert_eq!(decode(&[0x31, 0xFF, 0x32]), vec!['1', '\u{FFFD}', '2']);
    assert_eq!(decode(&[0x80]), vec!['\u{FFFD}']);
    assert_eq!(decode(&[0xC3]), vec!['\u{FFFD}']);
    assert_eq!(decode(&[0xC0, 0xAF]), vec!['\u{FFFD}', '\u{FFFD}']);
    assert_eq!(decode(&[0xED, 0xA0, 0x80]), vec!['\u{FFFD}', '\u{FFFD}', '\u{FFFD}']);
    assert_eq!(decode(&[0xE2, 0x82, 0x41]), vec!['\u{FFFD}', 'A']);
}

#[test]
fn decode_agrees_with_std() {
    let samples: [&[u8]; 8] = [
        b"plain",
        &[0x66, 0x6F, 0x80, 0x6F],
        &[0xF0, 0x90, 0x80],
        &[0xF4, 0x90, 0x80, 0x80],
        &[0xE0, 0x80, 0x80],
        &[0xC2],
        &[0x00, 0x7F],
        &[0xEF, 0xBB, 0xBF, 0x35],
    ];
    for bytes in samples {
        assert_eq!(decode_text(bytes), String::from_utf8_lossy(bytes).into_owned());
    }
}
