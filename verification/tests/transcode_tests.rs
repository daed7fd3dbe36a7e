use heffalump_conduit::transcode::{from_latin_1, to_ascii, to_latin_1};

#[test]
fn latin1_keeps_low_code_points() {
    let bytes = to_latin_1("h\u{e9}llo", None, false);
    assert_eq!(bytes, vec![b'h', 0xE9, b'l', b'l', b'o']);
}

#[test]
fn latin1_drops_high_code_points() {
    let bytes = to_latin_1("a\u{20ac}b\u{1f600}c", None, false);
    assert_eq!(bytes, vec![b'a', b'b', b'c']);
}

#[test]
fn latin1_cutoff_and_nul() {
    let bytes = to_latin_1("abcdef", Some(3), true);
    assert_eq!(bytes, vec![b'a', b'b', b'c', 0]);
}

#[test]
fn latin1_short_input_keeps_all_then_nul() {
    let bytes = to_latin_1("ab", Some(39), true);
    assert_eq!(bytes, vec![b'a', b'b', 0]);
}

#[test]
fn latin1_decode_is_total() {
    // 0xFE is a perfectly good ISO-8859-1 byte.
    let s = from_latin_1(&[b'h', 0xFE]);
    assert_eq!(s, "h\u{fe}");
    // The full byte range decodes.
    let all: Vec<u8> = (0..=255).collect();
    let s = from_latin_1(&all);
    assert_eq!(s.chars().count(), 256);
    assert_eq!(s.chars().last().unwrap(), '\u{ff}');
}

#[test]
fn latin1_round_trip_through_device_bytes() {
    let original = "Caf\u{e9} > tea";
    let bytes = to_latin_1(original, None, false);
    assert_eq!(from_latin_1(&bytes), original);
}

#[test]
fn ascii_drops_everything_above_7f() {
    let bytes = to_ascii(String::from("a\u{e9}b\u{20ac}c"));
    assert_eq!(bytes, vec![b'a', b'b', b'c']);
}
