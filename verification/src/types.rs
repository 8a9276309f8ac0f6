use vstd::prelude::*;
use std::collections::HashMap;
use crate::lib0::DecodeError;

verus! {

/// Top-level Hocuspocus message kinds, with their wire tags.
#[derive(Debug, Clone, Copy, PartialEq, Eq, Hash, Structural)]
pub enum MessageType {
    Sync,
    Awareness,
    Auth,
    QueryAwareness,
    SyncReply,
    Stateless,
    BroadcastStateless,
    SyncStatus,
    Close,
}

/// The wire tag of each message kind.
pub open spec fn message_type_tag(t: MessageType) -> u8 {
    match t {
        MessageType::Sync => 0,
        MessageType::Awareness => 1,
        MessageType::Auth => 2,
        MessageType::QueryAwareness => 3,
        MessageType::SyncReply => 4,
        MessageType::Stateless => 5,
        MessageType::BroadcastStateless => 6,
        MessageType::SyncStatus => 7,
        MessageType::Close => 8,
    }
}

/// Tags that the conversion from a byte accepts: every tag but the one of
/// `SyncReply`, which is only ever sent.
pub open spec fn is_decodable_message_tag(value: u8) -> bool {
    value <= 8 && value != 4
}

impl MessageType {
    /// The wire tag of this message kind.
    pub fn tag(&self) -> (r: u8)
        ensures
            r == message_type_tag(*self),
            *self == MessageType::Sync ==> r == 0,
            *self == MessageType::Awareness ==> r == 1,
            *self == MessageType::Auth ==> r == 2,
            *self == MessageType::QueryAwareness ==> r == 3,
            *self == MessageType::SyncReply ==> r == 4,
            *self == MessageType::Stateless ==> r == 5,
            *self == MessageType::BroadcastStateless ==> r == 6,
            *self == MessageType::SyncStatus ==> r == 7,
            *self == MessageType::Close ==> r == 8,
    {
        match self {
            MessageType::Sync => 0,
            MessageType::Awareness => 1,
            MessageType::Auth => 2,
            MessageType::QueryAwareness => 3,
            MessageType::SyncReply => 4,
            MessageType::Stateless => 5,
            MessageType::BroadcastStateless => 6,
            MessageType::SyncStatus => 7,
            MessageType::Close => 8,
        }
    }

    /// The message kind of a wire tag.
    pub fn from_u8(value: u8) -> (r: MessageType)
        requires
            is_decodable_message_tag(value),
        ensures
            message_type_tag(r) == value,
            value == 0 ==> r == MessageType::Sync,
            value == 1 ==> r == MessageType::Awareness,
            value == 2 ==> r == MessageType::Auth,
            value == 3 ==> r == MessageType::QueryAwareness,
            value == 5 ==> r == MessageType::Stateless,
            value == 6 ==> r == MessageType::BroadcastStateless,
            value == 7 ==> r == MessageType::SyncStatus,
            value == 8 ==> r == MessageType::Close,
    {
        match value {
            0 => MessageType::Sync,
            1 => MessageType::Awareness,
            2 => MessageType::Auth,
            3 => MessageType::QueryAwareness,
            5 => MessageType::Stateless,
            6 => MessageType::BroadcastStateless,
            7 => MessageType::SyncStatus,
            _ => MessageType::Close,
        }
    }
}


/// The step of a sync message.
#[derive(Debug, Clone, Copy, PartialEq, Eq, Hash, Structural)]
pub enum SyncType {
    Step1,
    Step2,
    Update,
}

/// The wire tag of each sync step.
pub open spec fn sync_type_tag(t: SyncType) -> u8 {
    match t {
        SyncType::Step1 => 0,
        SyncType::Step2 => 1,
        SyncType::Update => 2,
    }
}

/// The step that a wire tag names (tags above 2 name none).
pub open spec fn sync_type_from_u8(value: u8) -> Result<SyncType, DecodeError> {
    if value == 0 {
        Ok(SyncType::Step1)
    } else if value == 1 {
        Ok(SyncType::Step2)
    } else {
        Ok(SyncType::Update)
    }
}

impl SyncType {
    pub fn tag(&self) -> (r: u8)
        ensures
            r == sync_type_tag(*self),
            *self == SyncType::Step1 ==> r == 0,
            *self == SyncType::Step2 ==> r == 1,
            *self == SyncType::Update ==> r == 2,
    {
        match self {
            SyncType::Step1 => 0,
            SyncType::Step2 => 1,
            SyncType::Update => 2,
        }
    }

    /// The step of a wire tag.
    pub fn from_u8(value: u8) -> (r: Result<SyncType, DecodeError>)
        requires
            value <= 2,
        ensures
            r == sync_type_from_u8(value),
            r matches Ok(t) && sync_type_tag(t) == value,
            value == 0 ==> r == Ok::<SyncType, DecodeError>(SyncType::Step1),
            value == 1 ==> r == Ok::<SyncType, DecodeError>(SyncType::Step2),
            value == 2 ==> r == Ok::<SyncType, DecodeError>(SyncType::Update),
    {
        match value {
            0 => Ok(SyncType::Step1),
            1 => Ok(SyncType::Step2),
            _ => Ok(SyncType::Update),
        }
    }

    /// The step of a wire tag given as a wider integer; its low byte counts.
    pub fn from_u64(value: u64) -> (r: Result<SyncType, DecodeError>)
        requires
            value % 256 <= 2,
        ensures
            r == sync_type_from_u8((value % 256) as u8),
            r matches Ok(t) && sync_type_tag(t) == value % 256,
    {
        let low = (value % 256) as u8;
        Self::from_u8(low)
    }
}

/// A sync message whose payload borrows the received bytes.
#[derive(Debug)]
pub enum SyncMessage<'a> {
    Step1 { state_vector: &'a [u8] },
    Step2 { update: &'a [u8] },
    Update { update: &'a [u8] },
}

impl<'a> SyncMessage<'a> {
    /// The message of the given step carrying `data`.
    pub fn decode(sync_type: SyncType, data: &'a [u8]) -> (r: Result<SyncMessage<'a>, DecodeError>)
        ensures
            sync_type == SyncType::Step1 ==> (r matches Ok(SyncMessage::Step1 { state_vector }) && state_vector@ == data@),
            sync_type == SyncType::Step2 ==> (r matches Ok(SyncMessage::Step2 { update }) && update@ == data@),
            sync_type == SyncType::Update ==> (r matches Ok(SyncMessage::Update { update }) && update@ == data@),
    {
        match sync_type {
            SyncType::Step1 => Ok(SyncMessage::Step1 { state_vector: data }),
            SyncType::Step2 => Ok(SyncMessage::Step2 { update: data }),
            SyncType::Update => Ok(SyncMessage::Update { update: data }),
        }
    }
}

/// The step of a sync message, as the protocol numbers it.
#[derive(Debug, Clone, Copy, PartialEq, Eq, Structural)]
pub enum SyncMessageType {
    Step1,
    Step2,
    Update,
}

pub open spec fn sync_message_type_tag(t: SyncMessageType) -> u8 {
    match t {
        SyncMessageType::Step1 => 0,
        SyncMessageType::Step2 => 1,
        SyncMessageType::Update => 2,
    }
}

impl SyncMessageType {
    pub fn tag(&self) -> (r: u8)
        ensures
            r == sync_message_type_tag(*self),
            *self == SyncMessageType::Step1 ==> r == 0,
            *self == SyncMessageType::Step2 ==> r == 1,
            *self == SyncMessageType::Update ==> r == 2,
    {
        match self {
            SyncMessageType::Step1 => 0,
            SyncMessageType::Step2 => 1,
            SyncMessageType::Update => 2,
        }
    }

    /// The step of a wire tag.
    pub fn from_u8(value: u8) -> (r: SyncMessageType)
        requires
            value <= 2,
        ensures
            sync_message_type_tag(r) == value,
            value == 0 ==> r == SyncMessageType::Step1,
            value == 1 ==> r == SyncMessageType::Step2,
            value == 2 ==> r == SyncMessageType::Update,
    {
        match value {
            0 => SyncMessageType::Step1,
            1 => SyncMessageType::Step2,
            _ => SyncMessageType::Update,
        }
    }
}

/// A JSON value (`serde_json::Value`), carried as is.
#[verifier::external_type_specification]
#[verifier::external_body]
pub struct ExJsonValue(serde_json::Value);

/// The awareness state of one client.
#[derive(Debug, Clone, PartialEq)]
pub struct ClientAwareness {
    pub client_id: u64,
    pub clock: u32,
    pub state: Option<serde_json::Value>,
}

/// How a connection was set up.
#[derive(Debug, Clone)]
pub struct ConnectionConfiguration {
    pub id: String,
    pub is_authenticated: bool,
    pub readonly: bool,
    pub user_id: Option<String>,
    pub socket_id: String,
    pub context: HashMap<String, serde_json::Value>,
}

/// How a document is set up.
#[derive(Debug, Clone)]
pub struct DocumentConfiguration {
    pub name: String,
    pub gc: bool,
}

impl Default for DocumentConfiguration {
    /// No name, garbage collection on.
    fn default() -> (r: Self)
        ensures
            r.name@ == Seq::<char>::empty(),
            r.gc,
    {
        DocumentConfiguration { name: String::new(), gc: true }
    }
}

#[derive(Clone)]
pub struct ConnectEventData {
    pub socket_id: String,
    pub connection: ConnectionConfiguration,
    pub request_headers: HashMap<String, String>,
    pub request_path: String,
}

#[derive(Clone, Debug)]
pub struct AuthenticateEventData {
    pub doc_id: String,
    pub token: String,
}

#[derive(Clone)]
pub struct ConnectedEventData {
    pub socket_id: String,
}

#[derive(Clone)]
pub struct CreateDocumentEventData {
    pub document_name: String,
    pub socket_id: String,
    pub connection: ConnectionConfiguration,
}

#[derive(Clone)]
pub struct LoadDocumentEventData {
    pub document_name: String,
    pub socket_id: String,
}

#[derive(Clone)]
pub struct BeforeHandleMessageEventData {
    pub message: Vec<u8>,
    pub socket_id: String,
    pub connection: ConnectionConfiguration,
}

#[derive(Clone)]
pub struct BeforeBroadcastEventData {
    pub document_name: String,
    pub exclude: Vec<String>,
    pub message: Vec<u8>,
}

#[derive(Clone)]
pub struct ChangeEventData {
    pub document_name: String,
    pub socket_id: String,
    pub update: Vec<u8>,
}

#[derive(Clone)]
pub struct StoreDocumentEventData {
    pub document_name: String,
    pub state: Vec<u8>,
}

#[derive(Clone)]
pub struct AfterStoreDocumentEventData {
    pub document_name: String,
}

#[derive(Clone)]
pub struct AwarenessUpdateEventData {
    pub document_name: String,
    pub awareness: Vec<u8>,
    pub added: Vec<u64>,
    pub updated: Vec<u64>,
    pub removed: Vec<u64>,
}

#[derive(Clone)]
pub struct BeforeSendStatelessEventData {
    pub document_name: String,
    pub socket_id: String,
    pub payload: String,
}

#[derive(Clone)]
pub struct BeforeSendAwarenessEventData {
    pub document_name: String,
    pub socket_id: String,
    pub awareness: Vec<u8>,
}

#[derive(Clone)]
pub struct DisconnectEventData {
    pub socket_id: String,
}

#[derive(Clone)]
pub struct AfterUnloadDocumentEventData {
    pub document_name: String,
}

#[derive(Clone)]
pub struct StatelessEventData {
    pub document_name: String,
    pub socket_id: String,
    pub payload: String,
}

pub type ChannelId = String;

pub type DocumentName = String;

pub type SocketId = String;

/// The wire tags of the Hocuspocus message kinds: Sync 0, Awareness 1,
/// Auth 2, QueryAwareness 3, SyncReply 4, Stateless 5, BroadcastStateless 6,
/// SyncStatus 7, Close 8; every decodable tag names the kind that carries it.
pub proof fn law_message_type_wire_tags(value: u8)
    ensures
        message_type_tag(MessageType::Sync) == 0,
        message_type_tag(MessageType::Awareness) == 1,
        message_type_tag(MessageType::Auth) == 2,
        message_type_tag(MessageType::QueryAwareness) == 3,
        message_type_tag(MessageType::SyncReply) == 4,
        message_type_tag(MessageType::Stateless) == 5,
        message_type_tag(MessageType::BroadcastStateless) == 6,
        message_type_tag(MessageType::SyncStatus) == 7,
        message_type_tag(MessageType::Close) == 8,
        forall|a: MessageType, b: MessageType| message_type_tag(a) == message_type_tag(b) ==> a == b,
{
}

/// The wire tags of the sync steps: Step1 0, Step2 1, Update 2, the same in
/// both step enumerations, and one tag per step.
pub proof fn law_sync_step_wire_tags()
    ensures
        sync_type_tag(SyncType::Step1) == 0,
        sync_type_tag(SyncType::Step2) == 1,
        sync_type_tag(SyncType::Update) == 2,
        sync_message_type_tag(SyncMessageType::Step1) == 0,
        sync_message_type_tag(SyncMessageType::Step2) == 1,
        sync_message_type_tag(SyncMessageType::Update) == 2,
        forall|a: SyncType, b: SyncType| sync_type_tag(a) == sync_type_tag(b) ==> a == b,
{
}

} // verus!
