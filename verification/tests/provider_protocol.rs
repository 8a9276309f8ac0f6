use hocuspocus_rs_ws::client_connection::{
    decode_frame, ClientConnection, ConnectionError, DocConnectionConfig, FrameRoute,
};
use hocuspocus_rs_ws::doc_connection::{
    encode_frame, AuthReply, Authorization, DocAction, DocConnection, SyncError,
};
use hocuspocus_rs_ws::sync::{AuthMessage, Message, SyncMessage, AUTHENTICATED, AUTH_TOKEN, MSG_AUTH};
use std::sync::{Arc, Mutex};
use std::time::Duration;
use yrs::encoding::read::{Cursor, Read};
use yrs::encoding::write::Write;
use yrs::updates::decoder::{Decode, DecoderV1};
use yrs::updates::encoder::Encode;
use yrs::{Doc, GetString, ReadTxn, Text, Transact, Update};

const DOC_NAME: &str = "hocuspocus-test";

fn encode_provider_auth_frame(document_name: &str, token: &str) -> Vec<u8> {
    let mut encoder: Vec<u8> = Vec::new();
    encoder.write_string(document_name);
    encoder.write_var(MSG_AUTH);
    encoder.write_var(AUTH_TOKEN);
    encoder.write_string(token);
    encoder.write_string("3.2.4");
    encoder
}

fn decode_auth_response(data: &[u8]) -> (String, u8, String) {
    let mut decoder = DecoderV1::new(Cursor::new(data));
    let document_name = decoder.read_string().unwrap().to_owned();
    let message_type: u8 = decoder.read_var().unwrap();
    let auth_type: u8 = decoder.read_var().unwrap();
    let scope = decoder.read_string().unwrap().to_owned();
    assert_eq!(message_type, MSG_AUTH);
    (document_name, auth_type, scope)
}

/// A client connection driven as the server drives it, against one shared
/// Yjs document: frames go through `handle_message` (and `open_session` once the
/// document is fetched), the actions are carried out on the document, and
/// every frame the connection sends, relays included, lands in `sent`.
struct Harness {
    doc: Doc,
    read_only: bool,
    fetch_fails: bool,
    auth_calls: Vec<(String, String)>,
    fetched: Vec<String>,
    client: Arc<Mutex<ClientConnection<DocConnection>>>,
    sent: Arc<Mutex<Vec<Vec<u8>>>>,
}

fn harness(read_only: bool) -> Harness {
    Harness {
        doc: Doc::new(),
        read_only,
        fetch_fails: false,
        auth_calls: Vec::new(),
        fetched: Vec::new(),
        client: Arc::new(Mutex::new(ClientConnection::new(Duration::from_secs(30), Vec::new()))),
        sent: Arc::new(Mutex::new(Vec::new())),
    }
}

fn reply(h: &Harness, key: &str, action: &DocAction, computed: &[u8]) {
    let frame = h.client.lock().unwrap().fetch_connection(key).and_then(|s| s.reply_frame(action, computed));
    if let Some(f) = frame {
        h.sent.lock().unwrap().push(f);
    }
}

/// Runs one client frame through the connection.
fn handle(h: &mut Harness, frame: &[u8]) -> Result<(), ConnectionError> {
    let route = h.client.lock().unwrap().handle_message(frame)?;
    let (key, action) = match route {
        FrameRoute::Handled { routing_key, action } => (routing_key, action),
        FrameRoute::Open { routing_key, document_name, message } => {
            h.fetched.push(document_name.clone());
            let fetched = !h.fetch_fails;
            let opened = h.client.lock().unwrap().open_session(routing_key.clone(), fetched, message);
            if fetched {
                let client = h.client.clone();
                let sent = h.sent.clone();
                let key = routing_key.clone();
                h.doc
                    .observe_update_v1(routing_key.clone(), move |_, e: &yrs::UpdateEvent| {
                        let frame = client.lock().unwrap().fetch_connection(&key).and_then(|s| s.update_broadcast(&e.update));
                        if let Some(f) = frame {
                            sent.lock().unwrap().push(f);
                        }
                    })
                    .unwrap();
            }
            match opened? {
                Some(action) => (routing_key, action),
                None => return Ok(()),
            }
        }
    };
    match &action {
        DocAction::ReplyStateDiff(sv) => {
            let sv = yrs::StateVector::decode_v1(sv).unwrap();
            let diff = h.doc.transact().encode_state_as_update_v1(&sv);
            reply(h, &key, &action, &diff);
        }
        DocAction::ApplyUpdate(update) | DocAction::ApplyUpdateAndAck(update) => {
            h.doc.transact_mut().apply_update(Update::decode_v1(update).unwrap()).unwrap();
            reply(h, &key, &action, &[]);
        }
        DocAction::Authenticate { document_name, token } => {
            h.auth_calls.push((document_name.clone(), token.clone()));
            let answer = Ok(DocConnectionConfig { read_only: h.read_only, is_authenticated: true });
            let (replies, out) = h.client.lock().unwrap().finish_session_auth(&key, answer, false).unwrap();
            let sv = h.doc.transact().state_vector().encode_v1();
            for r in &replies {
                let f = h.client.lock().unwrap().fetch_connection(&key).unwrap().auth_reply_frame(r, &[], &sv);
                h.sent.lock().unwrap().push(f);
            }
            out?;
        }
        DocAction::ReplyAwareness => {
            let awareness = yrs::sync::Awareness::new(Doc::new());
            let update = awareness.update().unwrap().encode_v1();
            reply(h, &key, &action, &update);
        }
        _ => reply(h, &key, &action, &[]),
    }
    Ok(())
}

fn take_sent(h: &Harness) -> Vec<Vec<u8>> {
    std::mem::take(&mut *h.sent.lock().unwrap())
}

fn authenticate_as(h: &mut Harness, name: &str, token: &str) -> String {
    handle(h, &encode_provider_auth_frame(name, token)).expect("auth frame should be handled");
    let frames = take_sent(h);
    assert_eq!(frames.len(), 2);
    let (document_name, auth_type, scope) = decode_auth_response(&frames[0]);
    assert_eq!(document_name, name);
    assert_eq!(auth_type, AUTHENTICATED);
    let (document_name, message) = decode_frame(&frames[1]).expect("initial sync step should decode");
    assert_eq!(document_name, name);
    assert!(matches!(message, Message::Sync(SyncMessage::SyncStep1(_))));
    scope
}

fn authenticate(h: &mut Harness, token: &str) -> String {
    authenticate_as(h, DOC_NAME, token)
}

fn text_update(text: &str) -> Vec<u8> {
    let doc = Doc::with_client_id(42);
    let t = doc.get_or_insert_text("test");
    let mut txn = doc.transact_mut();
    t.push(&mut txn, text);
    txn.encode_update_v1()
}

#[test]
fn provider_auth_frame_returns_hocuspocus_authenticated_scope() {
    let mut h = harness(false);
    let scope = authenticate(&mut h, "writer-token");
    assert_eq!(scope, "read-write");
    assert_eq!(h.auth_calls, vec![(DOC_NAME.to_owned(), "writer-token".to_owned())]);
}

#[test]
fn provider_auth_frame_preserves_readonly_scope() {
    let mut h = harness(true);
    let scope = authenticate(&mut h, "readonly-token");
    assert_eq!(scope, "read-only");
}

#[test]
fn provider_sync_step_one_gets_sync_step_two_response() {
    let mut h = harness(false);
    authenticate(&mut h, "writer-token");
    let state_vector = Doc::new().transact().state_vector().encode_v1();
    handle(&mut h, &encode_frame(DOC_NAME, &Message::Sync(SyncMessage::SyncStep1(state_vector))))
        .expect("sync step one should be handled");
    let frames = take_sent(&h);
    let (document_name, message) = decode_frame(&frames[0]).expect("sync step two response should decode");
    assert_eq!(document_name, DOC_NAME);
    assert!(matches!(message, Message::Sync(SyncMessage::SyncStep2(_))));
}

#[test]
fn provider_update_frame_applies_doc_update_and_acks_sync_status() {
    let mut h = harness(false);
    authenticate(&mut h, "writer-token");
    let update = text_update("hello from provider");
    handle(&mut h, &encode_frame(DOC_NAME, &Message::Sync(SyncMessage::Update(update))))
        .expect("update frame should be handled");
    let frames = take_sent(&h);
    let mut saw_update_broadcast = false;
    let mut saw_sync_status = false;
    for frame in frames.iter().take(2) {
        let (document_name, message) = decode_frame(frame).expect("update response should decode");
        assert_eq!(document_name, DOC_NAME);
        match message {
            Message::Sync(SyncMessage::Update(_)) => saw_update_broadcast = true,
            Message::SyncStatus(true) => saw_sync_status = true,
            other => panic!("unexpected update response: {other:?}"),
        }
    }
    assert!(saw_update_broadcast);
    assert!(saw_sync_status);
    let txn = h.doc.transact();
    let text = txn.get_text("test").expect("text should exist");
    assert_eq!(text.get_string(&txn), "hello from provider".to_owned());
}

#[test]
fn provider_query_awareness_gets_awareness_response() {
    let mut h = harness(false);
    authenticate(&mut h, "writer-token");
    handle(&mut h, &encode_frame(DOC_NAME, &Message::AwarenessQuery)).expect("awareness query should be handled");
    let frames = take_sent(&h);
    let (document_name, message) = decode_frame(&frames[0]).expect("awareness response should decode");
    assert_eq!(document_name, DOC_NAME);
    assert!(matches!(message, Message::Awareness(_)));
}

#[test]
fn read_only_connection_cannot_update() {
    let mut h = harness(true);
    authenticate(&mut h, "readonly-token");
    let r = handle(&mut h, &encode_frame(DOC_NAME, &Message::Sync(SyncMessage::Update(vec![0, 0]))));
    match r {
        Err(ConnectionError::HandleFailed(SyncError::PermissionDenied { reason })) => {
            assert_eq!(reason, "Token does not have write access")
        }
        _ => panic!("a read-only connection must not apply updates"),
    }
    assert!(take_sent(&h).is_empty());
}

#[test]
fn unauthenticated_update_is_refused_and_the_document_stays_open() {
    let mut h = harness(false);
    let r = handle(&mut h, &encode_frame(DOC_NAME, &Message::Sync(SyncMessage::Update(text_update("x")))));
    assert!(matches!(r, Err(ConnectionError::HandleFailed(SyncError::PermissionDenied { .. }))));
    assert!(h.client.lock().unwrap().has_document(DOC_NAME));
    assert!(take_sent(&h).is_empty());
    assert!(h.doc.transact().get_text("test").is_none());
}

#[test]
fn failed_fetch_is_no_error_and_opens_nothing() {
    let mut h = harness(false);
    h.fetch_fails = true;
    let r = handle(&mut h, &encode_provider_auth_frame(DOC_NAME, "writer-token"));
    assert!(r.is_ok());
    assert!(take_sent(&h).is_empty());
    assert!(!h.client.lock().unwrap().has_document(DOC_NAME));
    assert_eq!(h.client.lock().unwrap().get_document_count(), 0);
    assert!(h.auth_calls.is_empty());
}

#[test]
fn routing_keys_share_one_document() {
    let mut h = harness(false);
    authenticate_as(&mut h, "d\u{0}s1", "writer-token");
    authenticate_as(&mut h, "d\u{0}s2", "writer-token");
    assert_eq!(h.fetched, vec!["d".to_owned(), "d".to_owned()]);
    assert_eq!(h.auth_calls[0].0, "d");
    handle(&mut h, &encode_frame("d\u{0}s1", &Message::Sync(SyncMessage::Update(text_update("shared")))))
        .expect("update frame should be handled");
    let frames = take_sent(&h);
    let mut keys: Vec<(String, bool)> = frames
        .iter()
        .map(|f| {
            let (name, m) = decode_frame(f).unwrap();
            (name, matches!(m, Message::Sync(SyncMessage::Update(_))))
        })
        .collect();
    keys.sort();
    assert_eq!(
        keys,
        vec![
            ("d\u{0}s1".to_owned(), false),
            ("d\u{0}s1".to_owned(), true),
            ("d\u{0}s2".to_owned(), true),
        ]
    );
}

#[test]
fn frame_without_provider_version_authenticates_alike() {
    let mut with_version = harness(false);
    let mut without_version = harness(false);
    let old_frame = encode_frame(DOC_NAME, &Message::Auth(AuthMessage::Token("writer-token".to_owned(), None)));
    handle(&mut with_version, &encode_provider_auth_frame(DOC_NAME, "writer-token")).unwrap();
    handle(&mut without_version, &old_frame).unwrap();
    assert_eq!(take_sent(&with_version), take_sent(&without_version));
    assert_eq!(with_version.auth_calls, without_version.auth_calls);
}

#[test]
fn undecodable_payloads_are_refused_before_opening() {
    let mut h = harness(false);
    let wide_id = {
        let mut b: Vec<u8> = Vec::new();
        b.write_var(1u64);
        b.write_var(1u64 << 53);
        b.write_var(1u32);
        b.write_string("{}");
        b
    };
    let r = handle(&mut h, &encode_frame(DOC_NAME, &Message::Awareness(wide_id)));
    assert!(matches!(r, Err(ConnectionError::Decoding(_))));
    let r = handle(&mut h, &encode_frame(DOC_NAME, &Message::Sync(SyncMessage::SyncStep1(vec![2, 1]))));
    assert!(matches!(r, Err(ConnectionError::Decoding(_))));
    assert_eq!(h.client.lock().unwrap().get_document_count(), 0);
    assert!(h.fetched.is_empty());
}

#[test]
fn unauthenticated_answer_is_refused() {
    let mut conn = DocConnection::new(DOC_NAME.to_owned());
    let (replies, res) = conn.finish_auth(
        Ok(DocConnectionConfig { read_only: false, is_authenticated: false }),
        true,
    );
    assert_eq!(replies.len(), 1);
    match &replies[0] {
        AuthReply::Send(Message::Auth(AuthMessage::PermissionDenied(r))) => assert_eq!(r, "permission-denied"),
        _ => panic!("expected a refusal"),
    }
    assert!(matches!(res, Err(SyncError::PermissionDenied { .. })));
    assert_eq!(conn.authorization(), Authorization::NoAccess);
}
