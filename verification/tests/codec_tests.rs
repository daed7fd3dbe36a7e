use heffalump_conduit::codec::{
    HeffalumpPrefs, OnDevice, TootAuthor, TootContent, TootWrite,
};
use heffalump_conduit::SyncError;

#[test]
fn prefs_encode_exact_bytes() {
    let prefs = HeffalumpPrefs { home_timeline_len: 1, self_timeline_len: 0, reply_content_len: 1 };
    let bytes = prefs.to_hh_bytes().unwrap();
    assert_eq!(bytes, vec![0, 1, 0, 0, 0, 1]);
}

#[test]
fn prefs_round_trip() {
    let prefs =
        HeffalumpPrefs { home_timeline_len: 100, self_timeline_len: 40, reply_content_len: 140 };
    let bytes = prefs.to_hh_bytes().unwrap();
    let back = HeffalumpPrefs::from_hh_bytes(&bytes).unwrap();
    assert_eq!(back, prefs);
}

#[test]
fn prefs_truncated_rejected() {
    let prefs = HeffalumpPrefs { home_timeline_len: 1, self_timeline_len: 2, reply_content_len: 3 };
    let mut bytes = prefs.to_hh_bytes().unwrap();
    bytes.pop();
    assert_eq!(HeffalumpPrefs::from_hh_bytes(&bytes).unwrap_err(), SyncError::MalformedRecord);
}

#[test]
fn content_encode_exact_bytes() {
    let c = TootContent { author: 1, is_reply_to: 2, replies_start: 3, contents: b"hi".to_vec() };
    let bytes = c.to_hh_bytes().unwrap();
    assert_eq!(bytes, vec![0, 1, 0, 2, 0, 3, 0, 2, b'h', b'i']);
}

#[test]
fn content_round_trip() {
    let c = TootContent {
        author: 700,
        is_reply_to: 0,
        replies_start: 65535,
        contents: vec![0, 255, 128, 42],
    };
    let bytes = c.to_hh_bytes().unwrap();
    let back = TootContent::from_hh_bytes(&bytes).unwrap();
    assert_eq!(back.author, c.author);
    assert_eq!(back.is_reply_to, c.is_reply_to);
    assert_eq!(back.replies_start, c.replies_start);
    assert_eq!(back.contents, c.contents);
}

#[test]
fn content_empty_body_is_valid() {
    let c = TootContent { author: 0, is_reply_to: 0, replies_start: 0, contents: vec![] };
    let bytes = c.to_hh_bytes().unwrap();
    assert_eq!(bytes.len(), 8);
    let back = TootContent::from_hh_bytes(&bytes).unwrap();
    assert_eq!(back.contents, Vec::<u8>::new());
}

#[test]
fn content_truncated_rejected() {
    let c = TootContent { author: 9, is_reply_to: 1, replies_start: 2, contents: b"abc".to_vec() };
    let mut bytes = c.to_hh_bytes().unwrap();
    bytes.pop();
    assert_eq!(TootContent::from_hh_bytes(&bytes).unwrap_err(), SyncError::MalformedRecord);
    // Even the fixed header alone must be whole.
    assert_eq!(TootContent::from_hh_bytes(&[0, 0, 0, 0, 0]).unwrap_err(), SyncError::MalformedRecord);
}

#[test]
fn content_length_field_controls_consumption() {
    // Trailing bytes past the declared length are ignored.
    let bytes = vec![0, 1, 0, 0, 0, 0, 0, 1, b'x', 0xEE, 0xEE];
    let back = TootContent::from_hh_bytes(&bytes).unwrap();
    assert_eq!(back.contents, vec![b'x']);
}

#[test]
fn author_encode_exact_bytes() {
    let a = TootAuthor { author_name: b"@alice\0".to_vec() };
    let bytes = a.to_hh_bytes().unwrap();
    assert_eq!(bytes[0], 7);
    assert_eq!(&bytes[1..], b"@alice\0");
}

#[test]
fn author_round_trip() {
    let a = TootAuthor { author_name: b"@bob via @carol\0".to_vec() };
    let bytes = a.to_hh_bytes().unwrap();
    let back = TootAuthor::from_hh_bytes(&bytes).unwrap();
    assert_eq!(back.author_name, a.author_name);
}

#[test]
fn author_truncated_rejected() {
    let a = TootAuthor { author_name: b"@alice\0".to_vec() };
    let mut bytes = a.to_hh_bytes().unwrap();
    bytes.pop();
    assert_eq!(TootAuthor::from_hh_bytes(&bytes).unwrap_err(), SyncError::MalformedRecord);
    assert_eq!(TootAuthor::from_hh_bytes(&[]).unwrap_err(), SyncError::MalformedRecord);
}

#[test]
fn write_round_trip_all_variants() {
    let cases = vec![
        TootWrite::Favorite(7),
        TootWrite::Follow(8),
        TootWrite::Reblog(9),
        TootWrite::Toot(TootContent {
            author: 0,
            is_reply_to: 2,
            replies_start: 0,
            contents: b"hi".to_vec(),
        }),
    ];
    for w in cases {
        let bytes = w.to_hh_bytes().unwrap();
        let back = TootWrite::from_hh_bytes(&bytes).unwrap();
        match (&w, &back) {
            (TootWrite::Favorite(a), TootWrite::Favorite(b)) => assert_eq!(a, b),
            (TootWrite::Follow(a), TootWrite::Follow(b)) => assert_eq!(a, b),
            (TootWrite::Reblog(a), TootWrite::Reblog(b)) => assert_eq!(a, b),
            (TootWrite::Toot(a), TootWrite::Toot(b)) => {
                assert_eq!(a.is_reply_to, b.is_reply_to);
                assert_eq!(a.contents, b.contents);
            },
            _ => panic!("variant changed in the round trip"),
        }
    }
}

#[test]
fn write_discriminants() {
    assert_eq!(TootWrite::Favorite(0).c_enum_val(), 0);
    assert_eq!(TootWrite::Follow(0).c_enum_val(), 1);
    assert_eq!(TootWrite::Reblog(0).c_enum_val(), 2);
    let toot = TootWrite::Toot(TootContent {
        author: 0,
        is_reply_to: 0,
        replies_start: 0,
        contents: vec![],
    });
    assert_eq!(toot.c_enum_val(), 3);
}

#[test]
fn write_encode_exact_bytes() {
    let bytes = TootWrite::Favorite(5).to_hh_bytes().unwrap();
    assert_eq!(bytes, vec![0, 0, 0, 5]);
    let bytes = TootWrite::Reblog(258).to_hh_bytes().unwrap();
    assert_eq!(bytes, vec![0, 2, 1, 2]);
}

#[test]
fn write_invalid_discriminant_rejected() {
    assert_eq!(
        TootWrite::from_hh_bytes(&[0x00, 0x09, 0x00, 0x00]).unwrap_err(),
        SyncError::MalformedRecord
    );
}

#[test]
fn write_truncated_rejected() {
    let bytes = TootWrite::Favorite(5).to_hh_bytes().unwrap();
    assert_eq!(
        TootWrite::from_hh_bytes(&bytes[..3]).unwrap_err(),
        SyncError::MalformedRecord
    );
}

#[test]
fn oversized_bodies_are_refused_by_the_codec() {
    let c = TootContent {
        author: 0,
        is_reply_to: 0,
        replies_start: 0,
        contents: vec![0u8; 0x10000],
    };
    assert_eq!(c.to_hh_bytes().unwrap_err(), SyncError::MalformedRecord);
    let a = TootAuthor { author_name: vec![b'x'; 256] };
    assert_eq!(a.to_hh_bytes().unwrap_err(), SyncError::MalformedRecord);
    let w = TootWrite::Toot(TootContent {
        author: 0,
        is_reply_to: 0,
        replies_start: 0,
        contents: vec![0u8; 0x10000],
    });
    assert_eq!(w.to_hh_bytes().unwrap_err(), SyncError::MalformedRecord);
}
