use hocuspocus_rs_ws::authenticator::simple::SimpleAuthenticator;
use hocuspocus_rs_ws::authenticator::Authenticator;
use hocuspocus_rs_ws::client_connection::DocConnectionConfig;
use hocuspocus_rs_ws::types::{
    DocumentConfiguration, MessageType, SyncMessage, SyncMessageType, SyncType,
};

#[test]
fn message_type_tags_round_trip() {
    for tag in [0u8, 1, 2, 3, 5, 6, 7, 8] {
        assert_eq!(MessageType::from_u8(tag).tag(), tag);
    }
    assert_eq!(MessageType::from_u8(2), MessageType::Auth);
    assert_eq!(MessageType::from_u8(7), MessageType::SyncStatus);
    assert_eq!(MessageType::from_u8(8), MessageType::Close);
    assert_eq!(MessageType::SyncReply.tag(), 4);
}

#[test]
fn sync_type_from_integers() {
    assert_eq!(SyncType::from_u8(0).unwrap(), SyncType::Step1);
    assert_eq!(SyncType::from_u8(1).unwrap(), SyncType::Step2);
    assert_eq!(SyncType::from_u8(2).unwrap(), SyncType::Update);
    assert_eq!(SyncType::from_u64(2).unwrap(), SyncType::Update);
    assert_eq!(SyncType::from_u64(257).unwrap(), SyncType::Step2);
    assert_eq!(SyncType::from_u64(256).unwrap(), SyncType::Step1);
    assert_eq!(SyncType::from_u64(512 + 2).unwrap(), SyncType::from_u8(2).unwrap());
    assert_eq!(SyncMessageType::from_u8(1), SyncMessageType::Step2);
    assert_eq!(SyncMessageType::Update.tag(), 2);
}

#[test]
fn sync_message_borrows_its_payload() {
    let data = [1u8, 2, 3];
    match SyncMessage::decode(SyncType::Step1, &data).unwrap() {
        SyncMessage::Step1 { state_vector } => assert_eq!(state_vector, &data),
        other => panic!("unexpected {other:?}"),
    }
    match SyncMessage::decode(SyncType::Update, &data).unwrap() {
        SyncMessage::Update { update } => assert_eq!(update, &data),
        other => panic!("unexpected {other:?}"),
    }
}

#[test]
fn defaults() {
    let c = DocConnectionConfig::default();
    assert!(!c.read_only);
    assert!(c.is_authenticated);
    let d = DocumentConfiguration::default();
    assert_eq!(d.name, "");
    assert!(d.gc);
}

#[test]
fn simple_authenticator_grants_full_access() {
    let a = SimpleAuthenticator::new();
    let c = a.authenticate("doc", "anything").unwrap();
    assert!(c.is_authenticated);
    assert!(!c.read_only);
}
