use shell_sessions::framing::{decodable_prefix_len, drain_pending, drain_text, encode_text};

#[test]
fn ascii_decodes_whole() {
    let mut buf: Vec<u8> = b"hello".to_vec();
    let out = drain_text(&mut buf);
    assert_eq!(out, "hello");
    assert!(buf.is_empty());
}

#[test]
fn split_multibyte_char_is_delayed_not_dropped() {
    // "h\u{e9}llo" encodes as [0x68, 0xc3, 0xa9, 0x6c, 0x6c, 0x6f];
    // the two-byte character is split across two reads.
    let mut buf: Vec<u8> = Vec::new();
    buf.extend_from_slice(&[0x68, 0xc3]);
    let first = drain_text(&mut buf);
    assert_eq!(first, "h");
    assert_eq!(buf, vec![0xc3]);
    buf.extend_from_slice(&[0xa9, 0x6c, 0x6c, 0x6f]);
    let second = drain_text(&mut buf);
    assert_eq!(second, "\u{e9}llo");
    assert!(buf.is_empty());
    // the concatenation equals the unsplit decoding
    assert_eq!(format!("{}{}", first, second), "h\u{e9}llo");
}

#[test]
fn split_four_byte_char_across_three_reads() {
    // U+1F600 encodes as [0xf0, 0x9f, 0x98, 0x80]
    let mut buf: Vec<u8> = Vec::new();
    buf.extend_from_slice(&[0xf0]);
    assert_eq!(drain_text(&mut buf), "");
    buf.extend_from_slice(&[0x9f, 0x98]);
    assert_eq!(drain_text(&mut buf), "");
    assert_eq!(buf.len(), 3);
    buf.extend_from_slice(&[0x80, 0x21]);
    assert_eq!(drain_text(&mut buf), "\u{1f600}!");
    assert!(buf.is_empty());
}

#[test]
fn malformed_leading_bytes_give_empty_text() {
    // a lone continuation byte can never start a character
    let mut buf: Vec<u8> = vec![0x80, 0x80];
    let out = drain_text(&mut buf);
    assert_eq!(out, "");
    // the junk is flushed, not kept forever
    assert!(buf.is_empty());
}

#[test]
fn valid_prefix_before_junk_is_emitted() {
    let mut buf: Vec<u8> = vec![0x61, 0x62, 0xff, 0x63];
    let out = drain_pending(&mut buf);
    assert_eq!(out, vec![0x61, 0x62]);
    // 0xff cannot begin any character, so the tail is flushed
    assert!(buf.is_empty());
}

#[test]
fn overlong_start_is_not_retained() {
    // 0xc0 only begins overlong encodings, so it is junk, while 0xc2
    // genuinely starts a two-byte character and is kept.
    let mut junk: Vec<u8> = vec![0xc0];
    drain_pending(&mut junk);
    assert!(junk.is_empty());
    let mut pending: Vec<u8> = vec![0xc2];
    drain_pending(&mut pending);
    assert_eq!(pending, vec![0xc2]);
}

#[test]
fn surrogate_range_second_byte_is_junk() {
    // 0xed 0xa0 would begin a surrogate; it cannot be completed
    let mut buf: Vec<u8> = vec![0xed, 0xa0];
    assert_eq!(drain_text(&mut buf), "");
    assert!(buf.is_empty());
    // 0xed 0x9f begins a genuine character and is kept
    let mut ok: Vec<u8> = vec![0xed, 0x9f];
    assert_eq!(drain_text(&mut ok), "");
    assert_eq!(ok, vec![0xed, 0x9f]);
}

#[test]
fn decodable_prefix_len_counts_whole_chars() {
    let buf: Vec<u8> = vec![0x61, 0xc3, 0xa9, 0xe2, 0x82];
    // 'a' (1) + 'e acute' (2) are decodable; the split euro sign is not
    assert_eq!(decodable_prefix_len(&buf), 3);
    let all: Vec<u8> = vec![0x61, 0xc3, 0xa9, 0xe2, 0x82, 0xac];
    assert_eq!(decodable_prefix_len(&all), 6);
}

#[test]
fn encode_text_gives_utf8_bytes() {
    let bytes = encode_text("h\u{e9}!");
    assert_eq!(bytes, vec![0x68, 0xc3, 0xa9, 0x21]);
}

#[test]
fn pending_buffer_stays_bounded() {
    let mut buf: Vec<u8> = Vec::new();
    for chunk in [&[0xf0u8] as &[u8], &[0x9f], &[0xf0, 0x9f], &[0x98, 0x80, 0xf0]] {
        buf.extend_from_slice(chunk);
        drain_pending(&mut buf);
        assert!(buf.len() <= 3);
    }
}
