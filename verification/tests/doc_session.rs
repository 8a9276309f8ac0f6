use hocuspocus_rs_ws::client_connection::{decode_frame, DocConnectionConfig};
use hocuspocus_rs_ws::doc_connection::{
    encode_frame, AuthReply, Authorization, DocAction, DocConnection, SyncError, SYNC_STATUS_MESSAGE,
};
use hocuspocus_rs_ws::sync::{AuthMessage, Message, SyncMessage};
use yrs::sync::Awareness;
use yrs::updates::encoder::Encode;
use yrs::Doc;

fn awareness_update_of(client_id: u64) -> Vec<u8> {
    let mut awareness = Awareness::new(Doc::with_client_id(client_id));
    awareness.set_local_state_raw("{\"user\":\"x\"}");
    awareness.update().unwrap().encode_v1()
}

fn granted(read_only: bool) -> DocConnection {
    let mut conn = DocConnection::new("doc".to_owned());
    let (_, res) = conn.finish_auth(Ok(DocConnectionConfig { read_only, is_authenticated: true }), false);
    assert!(res.is_ok());
    conn
}

#[test]
fn first_single_client_is_remembered() {
    let mut conn = DocConnection::new("doc".to_owned());
    assert_eq!(conn.client_id(), None);
    let action = conn.handle_msg(Message::Awareness(awareness_update_of(7))).unwrap();
    assert!(matches!(action, DocAction::ApplyAwareness(_)));
    assert_eq!(conn.client_id(), Some(7));
    conn.handle_msg(Message::Awareness(awareness_update_of(8))).unwrap();
    assert_eq!(conn.client_id(), Some(7));
    assert_eq!(conn.close(), Some(7));
}

#[test]
fn malformed_awareness_update_is_refused() {
    let mut conn = DocConnection::new("doc".to_owned());
    let r = conn.handle_msg(Message::Awareness(vec![5]));
    assert!(matches!(r, Err(SyncError::Decoding(_))));
    assert_eq!(conn.client_id(), None);
}

#[test]
fn updates_need_full_access() {
    let mut none = DocConnection::new("doc".to_owned());
    assert!(matches!(
        none.handle_msg(Message::Sync(SyncMessage::SyncStep2(vec![1]))),
        Err(SyncError::PermissionDenied { .. })
    ));
    let mut ro = granted(true);
    assert_eq!(ro.authorization(), Authorization::ReadOnly);
    assert!(matches!(
        ro.handle_msg(Message::Sync(SyncMessage::Update(vec![1]))),
        Err(SyncError::PermissionDenied { .. })
    ));
    let mut full = granted(false);
    assert_eq!(full.authorization(), Authorization::Full);
    match full.handle_msg(Message::Sync(SyncMessage::SyncStep2(vec![1, 2]))).unwrap() {
        DocAction::ApplyUpdate(u) => assert_eq!(u, vec![1, 2]),
        other => panic!("unexpected {other:?}"),
    }
    match full.handle_msg(Message::Sync(SyncMessage::Update(vec![3]))).unwrap() {
        DocAction::ApplyUpdateAndAck(u) => assert_eq!(u, vec![3]),
        other => panic!("unexpected {other:?}"),
    }
    match full.handle_msg(Message::Sync(SyncMessage::SyncStep1(vec![0]))).unwrap() {
        DocAction::ReplyStateDiff(sv) => assert_eq!(sv, vec![0]),
        other => panic!("unexpected {other:?}"),
    }
}

#[test]
fn other_messages() {
    let mut conn = DocConnection::new("doc".to_owned());
    assert!(matches!(conn.handle_msg(Message::AwarenessQuery).unwrap(), DocAction::ReplyAwareness));
    assert!(matches!(conn.handle_msg(Message::SyncStatus(true)).unwrap(), DocAction::Ignore));
    match conn.handle_msg(Message::Custom(SYNC_STATUS_MESSAGE, vec![1])).unwrap() {
        DocAction::Reply(m) => assert_eq!(m, Message::Custom(SYNC_STATUS_MESSAGE, vec![1])),
        other => panic!("unexpected {other:?}"),
    }
    assert!(matches!(conn.handle_msg(Message::Custom(50, vec![])), Err(SyncError::Unsupported(50))));
    match conn.handle_msg(Message::Auth(AuthMessage::Authenticated("x".to_owned()))).unwrap() {
        DocAction::Authenticate { document_name, token } => {
            assert_eq!(document_name, "doc");
            assert_eq!(token, "");
        }
        other => panic!("unexpected {other:?}"),
    }
    match conn.handle_msg(Message::Auth(AuthMessage::Token("tok".to_owned(), None))).unwrap() {
        DocAction::Authenticate { document_name, token } => {
            assert_eq!(document_name, "doc");
            assert_eq!(token, "tok");
        }
        other => panic!("unexpected {other:?}"),
    }
    assert_eq!(conn.authorization(), Authorization::NoAccess);
}

#[test]
fn failed_lookup_keeps_access_and_grants() {
    let mut conn = granted(true);
    let (replies, res) = conn.finish_auth(Err(anyhow::Error::msg("server down")), true);
    assert!(res.is_ok());
    assert_eq!(conn.authorization(), Authorization::ReadOnly);
    assert_eq!(replies.len(), 3);
    match &replies[0] {
        AuthReply::Send(Message::Auth(AuthMessage::Authenticated(scope))) => assert_eq!(scope, "read-only"),
        _ => panic!("expected a grant"),
    }
    assert!(matches!(replies[1], AuthReply::SendAwareness));
    assert!(matches!(replies[2], AuthReply::SendSyncStep1));
}

#[test]
fn update_broadcast_is_an_update_frame() {
    let conn = DocConnection::new("doc".to_owned());
    let frame = conn.update_broadcast(&[4, 5, 6]).unwrap();
    assert_eq!(frame, encode_frame("doc", &Message::Sync(SyncMessage::Update(vec![4, 5, 6]))));
    let (name, m) = decode_frame(&frame).unwrap();
    assert_eq!(name, "doc");
    assert_eq!(m, Message::Sync(SyncMessage::Update(vec![4, 5, 6])));
    let frame = conn.awareness_broadcast(&[9]).unwrap();
    assert_eq!(decode_frame(&frame).unwrap().1, Message::Awareness(vec![9]));
}

#[test]
fn send_reframes_an_encoded_message() {
    let conn = DocConnection::new("d".to_owned());
    let encoded = Message::SyncStatus(true).encode_v1();
    assert_eq!(conn.send(&encoded).unwrap(), encode_frame("d", &Message::SyncStatus(true)));
    assert!(conn.send(&[]).is_err());
}
