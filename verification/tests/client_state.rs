use hocuspocus_rs_ws::client_connection::FrameRoute;
use yrs::updates::encoder::Encode;
use hocuspocus_rs_ws::client_connection::{document_name_of_key, ClientConnection, ConnectionError};
use hocuspocus_rs_ws::lib0::{read_buf, read_string};
use hocuspocus_rs_ws::payload::{awareness_clients, check_awareness_ids, check_state_vector};
use hocuspocus_rs_ws::doc_connection::{changed_clients, encode_frame, DocConnection};
use hocuspocus_rs_ws::sync::Message;
use std::time::Duration;

#[test]
fn new_connection_is_open_and_empty() {
    let c: ClientConnection<u8> = ClientConnection::new(Duration::from_secs(30), Vec::new());
    assert!(!c.is_closed());
    assert_eq!(c.get_document_count(), 0);
    assert_eq!(c.socket_id().len(), 36);
}

#[test]
fn closed_connection_refuses_frames() {
    let mut c: ClientConnection<DocConnection> = ClientConnection::new(Duration::from_secs(30), Vec::new());
    c.close().unwrap();
    assert!(c.is_closed());
    c.close().unwrap();
    let frame = encode_frame("doc", &Message::AwarenessQuery);
    assert!(matches!(c.handle_message(&frame), Err(ConnectionError::Closed)));
}

#[test]
fn context_and_documents() {
    let ctx = vec![
        ("user".to_owned(), "zed".to_owned()),
        ("user".to_owned(), "ann".to_owned()),
    ];
    let mut c: ClientConnection<u8> = ClientConnection::new(Duration::from_secs(1), ctx);
    assert_eq!(c.get_context("user"), Some("ann".to_owned()));
    assert_eq!(c.get_context("role"), None);
    c.set_context("role".to_owned(), "editor".to_owned());
    c.set_context("user".to_owned(), "bob".to_owned());
    assert_eq!(c.get_context("role"), Some("editor".to_owned()));
    assert_eq!(c.get_context("user"), Some("bob".to_owned()));
    assert!(!c.has_document("a"));
    c.insert_connection("a".to_owned(), 1);
    c.insert_connection("b".to_owned(), 2);
    c.insert_connection("a".to_owned(), 3);
    assert!(c.has_document("a"));
    assert_eq!(c.get_document_count(), 2);
    assert_eq!(c.fetch_connection("a"), Some(&3));
    assert_eq!(c.fetch_connection("c"), None);
}

#[test]
fn closed_doc_connection_stops_broadcasting() {
    let mut d = DocConnection::new("doc".to_owned());
    assert!(d.update_broadcast(&[1, 2]).is_some());
    assert!(d.awareness_broadcast(&[1, 2]).is_some());
    assert_eq!(d.close(), None);
    assert!(d.is_closed());
    assert!(d.update_broadcast(&[1, 2]).is_none());
    assert!(d.awareness_broadcast(&[1, 2]).is_none());
}

#[test]
fn changed_clients_are_concatenated() {
    assert_eq!(changed_clients(&[1, 2], &[3], &[4, 5]), vec![1, 2, 3, 4, 5]);
    assert_eq!(changed_clients(&[], &[], &[]), Vec::<u64>::new());
}

#[test]
fn socket_id_is_a_random_uuid() {
    let c: ClientConnection<u8> = ClientConnection::new(Duration::from_secs(30), Vec::new());
    let id: Vec<char> = c.socket_id().chars().collect();
    assert_eq!(id.len(), 36);
    for i in [8, 13, 18, 23] {
        assert_eq!(id[i], '-');
    }
    assert_eq!(id[14], '4');
    assert!("89ab".contains(id[19]));
    assert!(id.iter().enumerate().all(|(i, c)| [8, 13, 18, 23].contains(&i) || c.is_ascii_hexdigit() && !c.is_ascii_uppercase()));
    let other: ClientConnection<u8> = ClientConnection::new(Duration::from_secs(30), Vec::new());
    assert_ne!(c.socket_id(), other.socket_id());
}

#[test]
fn routing_keys_name_their_document() {
    assert_eq!(document_name_of_key("doc\u{0}session"), "doc");
    assert_eq!(document_name_of_key("doc"), "doc");
    assert_eq!(document_name_of_key("\u{0}s"), "");
    assert_eq!(document_name_of_key("é\u{0}a\u{0}b"), "é");
    assert_eq!(document_name_of_key(""), "");
}

#[test]
fn a_length_past_the_end_is_refused() {
    assert!(read_buf(&[0xFF, 0xFF, 0xFF, 0xFF, 0x0F], 0).is_err());
    assert!(read_string(&[0xFF, 0xFF, 0xFF, 0xFF, 0x0F], 0).is_err());
    assert_eq!(read_buf(&[2, 7, 8, 9], 0).unwrap(), (vec![7, 8], 3));
    assert_eq!(read_string(&[1, b'a'], 0).unwrap(), ("a".to_owned(), 2));
    assert!(read_string(&[1, 0xFF], 0).is_err());
}

#[test]
fn payload_checks() {
    assert!(check_state_vector(&[0]));
    assert!(check_state_vector(&[1, 5, 3]));
    assert!(!check_state_vector(&[2, 5, 3]));
    assert!(!check_state_vector(&[]));
    let mut wide: Vec<u8> = vec![1];
    let mut id: u64 = 1 << 53;
    while id >= 0x80 {
        wide.push((id as u8 & 0x7F) | 0x80);
        id >>= 7;
    }
    wide.push(id as u8);
    wide.extend_from_slice(&[1, 2, b'{', b'}']);
    assert!(!check_awareness_ids(&wide));
    assert!(check_awareness_ids(&[1, 7, 1, 2, b'{', b'}']));
    assert!(awareness_clients(&wide).is_err());
    assert_eq!(awareness_clients(&[1, 7, 1, 2, b'{', b'}']).unwrap(), vec![7]);
}

#[test]
fn closing_a_session_returns_its_client_and_stops_its_relays() {
    let mut c: ClientConnection<DocConnection> = ClientConnection::new(Duration::from_secs(30), Vec::new());
    let update = {
        let mut a = yrs::sync::Awareness::new(yrs::Doc::with_client_id(9));
        a.set_local_state_raw("{}");
        a.update().unwrap().encode_v1()
    };
    let route = c.handle_message(&encode_frame("doc", &Message::Awareness(update))).unwrap();
    let (key, message) = match route {
        FrameRoute::Open { routing_key, document_name, message } => {
            assert_eq!(document_name, "doc");
            (routing_key, message)
        }
        _ => panic!("expected to open the document"),
    };
    c.open_session(key.clone(), true, message).unwrap();
    assert!(c.fetch_connection("doc").unwrap().update_broadcast(&[1]).is_some());
    assert_eq!(c.close_session("doc"), Some(9));
    assert!(c.fetch_connection("doc").unwrap().update_broadcast(&[1]).is_none());
    assert_eq!(c.close_session("other"), None);
}
