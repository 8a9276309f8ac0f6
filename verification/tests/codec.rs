use hocuspocus_rs_ws::client_connection::decode_frame;
use hocuspocus_rs_ws::doc_connection::encode_frame;
use hocuspocus_rs_ws::sync::{
    AuthMessage, Message, SyncMessage, AUTHENTICATED, AUTH_TOKEN, MSG_AUTH, MSG_AWARENESS,
    MSG_QUERY_AWARENESS, MSG_SYNC, MSG_SYNC_STATUS, MSG_SYNC_STEP_2, PERMISSION_DENIED,
};
use yrs::encoding::read::{Cursor, Read};
use yrs::encoding::write::Write;
use yrs::updates::decoder::{Decoder, DecoderV1};

#[test]
fn test_read_to_end() {
    let data = vec![1, 2, 3, 4, 5];
    let cursor = Cursor::new(&data);
    let mut decoder = DecoderV1::new(cursor);

    decoder.read_u8().unwrap(); // read one byte

    assert_eq!(decoder.read_to_end().unwrap(), &data[1..]);
}

#[test]
fn awareness_query_frame_has_exact_bytes() {
    let frame = encode_frame("doc", &Message::AwarenessQuery);
    assert_eq!(frame, vec![3, b'd', b'o', b'c', MSG_QUERY_AWARENESS]);
}

#[test]
fn sync_step_two_frame_has_exact_bytes() {
    let frame = encode_frame("a", &Message::Sync(SyncMessage::SyncStep2(vec![7, 8])));
    assert_eq!(frame, vec![1, b'a', MSG_SYNC, MSG_SYNC_STEP_2, 2, 7, 8]);
}

#[test]
fn sync_status_frame_has_exact_bytes() {
    let frame = encode_frame("a", &Message::SyncStatus(true));
    assert_eq!(frame, vec![1, b'a', MSG_SYNC_STATUS, 1]);
    let frame = encode_frame("a", &Message::SyncStatus(false));
    assert_eq!(frame, vec![1, b'a', MSG_SYNC_STATUS, 0]);
}

#[test]
fn long_payload_gets_two_byte_length() {
    let payload = vec![9u8; 200];
    let frame = encode_frame("", &Message::Awareness(payload.clone()));
    assert_eq!(&frame[..4], &[0, MSG_AWARENESS, 0xC8, 0x01]);
    assert_eq!(&frame[4..], &payload[..]);
}

#[test]
fn auth_grant_frame_has_exact_bytes() {
    let frame = encode_frame(
        "d",
        &Message::Auth(AuthMessage::Authenticated("read-only".to_owned())),
    );
    let mut expected = vec![1, b'd', MSG_AUTH, AUTHENTICATED, 9];
    expected.extend_from_slice(b"read-only");
    assert_eq!(frame, expected);
}

#[test]
fn frames_decode_back() {
    let messages = vec![
        Message::Sync(SyncMessage::SyncStep1(vec![0])),
        Message::Sync(SyncMessage::SyncStep2(vec![1, 2, 3])),
        Message::Sync(SyncMessage::Update(vec![])),
        Message::Awareness(vec![5; 300]),
        Message::Auth(AuthMessage::Token("tok".to_owned(), None)),
        Message::Auth(AuthMessage::Token("tok".to_owned(), Some("3.2.4".to_owned()))),
        Message::Auth(AuthMessage::PermissionDenied("no".to_owned())),
        Message::Auth(AuthMessage::Authenticated("read-write".to_owned())),
        Message::AwarenessQuery,
        Message::SyncStatus(true),
        Message::SyncStatus(false),
        Message::Custom(102, vec![4, 2]),
    ];
    for m in messages {
        let frame = encode_frame("some-doc\u{0}session", &m);
        let (name, decoded) = decode_frame(&frame).expect("frame should decode");
        assert_eq!(name, "some-doc\u{0}session");
        assert_eq!(decoded, m);
    }
}

#[test]
fn frame_built_by_yrs_decodes() {
    let mut encoder: Vec<u8> = Vec::new();
    encoder.write_string("hocuspocus-test");
    encoder.write_var(MSG_AUTH);
    encoder.write_var(AUTH_TOKEN);
    encoder.write_string("writer-token");
    encoder.write_string("3.2.4");
    let (name, m) = decode_frame(&encoder).unwrap();
    assert_eq!(name, "hocuspocus-test");
    assert_eq!(
        m,
        Message::Auth(AuthMessage::Token(
            "writer-token".to_owned(),
            Some("3.2.4".to_owned())
        ))
    );
}

#[test]
fn truncated_and_malformed_frames_are_refused() {
    assert!(decode_frame(&[]).is_err());
    assert!(decode_frame(&[5, b'a']).is_err());
    assert!(decode_frame(&[1, b'a']).is_err());
    assert!(decode_frame(&[1, b'a', MSG_SYNC, 9, 0]).is_err());
    assert!(decode_frame(&[1, b'a', MSG_AUTH, 7]).is_err());
    assert!(decode_frame(&[1, b'a', MSG_AUTH, PERMISSION_DENIED]).is_err());
    assert!(decode_frame(&[1, 0xFF, MSG_QUERY_AWARENESS]).is_err());
    assert!(decode_frame(&[1, b'a', 42, 3, 1]).is_err());
}

#[test]
fn unknown_tag_decodes_as_custom() {
    let (_, m) = decode_frame(&[1, b'a', 42, 2, 1, 2]).unwrap();
    assert_eq!(m, Message::Custom(42, vec![1, 2]));
}

#[test]
fn message_after_the_name_runs_to_the_end() {
    let (name, m) = decode_frame(&[1, b'x', MSG_QUERY_AWARENESS]).unwrap();
    assert_eq!(name, "x");
    assert_eq!(m, Message::AwarenessQuery);
    let (name, m) = decode_frame(&[0, MSG_SYNC, MSG_SYNC_STEP_2, 2, 3, 4, 5]).unwrap();
    assert_eq!(name, "");
    assert_eq!(m, Message::Sync(SyncMessage::SyncStep2(vec![3, 4])));
}
