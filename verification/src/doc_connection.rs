//! One client's connection to one document: its authorization, the awareness
//! client it announced, and the decisions taken on each incoming message.
use vstd::prelude::*;
use crate::lib0::{string_field, write_buf, write_string, write_var_u8, DecodeError};
use crate::sync::{
    decode_message_at, encode_message, AuthMessage, AuthMessageView, Message, MessageView, SyncMessage,
    SyncMessageView,
    MSG_SYNC, MSG_SYNC_UPDATE,
};
use crate::client_connection::{
    document_name_of_key, lemma_routing_key_names_one_document, splits_routing_key, DocConnectionConfig,
};
use crate::payload::{awareness_clients, awareness_update_clients, awareness_update_valid};

verus! {

/// Name of the single document that a session serves by default.
pub const DOC_NAME: &'static str = "doc";

/// Custom message tag that a client uses to ask for its sync status; the
/// server echoes it.
pub const SYNC_STATUS_MESSAGE: u8 = 102;

/// What a connection may do with its document.
#[derive(Debug, Clone, Copy, PartialEq, Eq, Structural)]
pub enum Authorization {
    /// No access yet (or refused).
    NoAccess,
    ReadOnly,
    Full,
}

/// Errors raised while handling a message of the sync protocol.
#[derive(Debug)]
pub enum SyncError {
    /// The connection may not do what the message asks.
    PermissionDenied { reason: String },
    /// No handler exists for a custom message tag.
    Unsupported(u8),
    /// A payload could not be decoded.
    Decoding(DecodeError),
}

/// A frame: the document name, then the message.
pub open spec fn frame_bytes(document_name: Seq<char>, m: MessageView) -> Seq<u8> {
    string_field(document_name) + encode_message(m)
}

/// The frame of `msg` addressed to `document_name`.
pub fn encode_frame(document_name: &str, msg: &Message) -> (r: Vec<u8>)
    ensures
        r@ == frame_bytes(document_name@, msg@),
{
    let mut buf: Vec<u8> = Vec::new();
    write_string(&mut buf, document_name);
    msg.encode(&mut buf);
    assert(buf@ =~= frame_bytes(document_name@, msg@));
    buf
}

/// What the connection asks its owner to do for an incoming message.
#[derive(Debug)]
pub enum DocAction {
    /// Answer with a sync step 2 holding what the given state vector lacks.
    ReplyStateDiff(Vec<u8>),
    /// Apply a document update (sync step 2), with no answer.
    ApplyUpdate(Vec<u8>),
    /// Apply a document update and answer with `SyncStatus(true)`.
    ApplyUpdateAndAck(Vec<u8>),
    /// Ask the document server to authenticate this token for the document.
    Authenticate { document_name: String, token: String },
    /// Answer with the whole awareness state.
    ReplyAwareness,
    /// Apply an awareness update.
    ApplyAwareness(Vec<u8>),
    /// Answer with this message.
    Reply(Message),
    /// Nothing to do.
    Ignore,
}

/// A message that the connection's owner sends once authentication is over.
#[derive(Debug)]
pub enum AuthReply {
    /// This message.
    Send(Message),
    /// The whole awareness state.
    SendAwareness,
    /// A sync step 1 with the document's state vector.
    SendSyncStep1,
}

pub open spec fn scope_of(a: Authorization) -> Seq<char> {
    if a == Authorization::ReadOnly {
        "read-only"@
    } else {
        "read-write"@
    }
}

/// The token that an authentication message carries (empty when it carries none).
pub open spec fn auth_token(a: AuthMessageView) -> Seq<char> {
    match a {
        AuthMessageView::Token(t, _) => t,
        _ => Seq::empty(),
    }
}

/// The client of an awareness update that names exactly one.
pub open spec fn single_client(c: Set<u64>) -> Option<u64> {
    if c.len() == 1 {
        Some(c.choose())
    } else {
        None
    }
}

/// The awareness client a connection remembers after an update naming `c`:
/// the first one ever announced alone.
pub open spec fn next_client_id(current: Option<u64>, c: Set<u64>) -> Option<u64> {
    if current is None {
        single_client(c)
    } else {
        current
    }
}

/// What handling `msg` does to a connection (from `old` to `new`) and
/// what it answers: document updates need full access; an awareness update
/// that decodes makes its single client this connection's client, unless one
/// is known already; tag 102 is echoed; other custom tags are unsupported.
pub open spec fn handles_msg(
    old: DocConnection,
    msg: MessageView,
    new: DocConnection,
    r: Result<DocAction, SyncError>,
) -> bool {
    &&& new.spec_doc_name() == old.spec_doc_name()
    &&& new.spec_authorization() == old.spec_authorization()
    &&& new.spec_closed() == old.spec_closed()
    &&& (msg matches MessageView::Awareness(u) ==> new.spec_client_id() == if awareness_update_valid(u) {
        next_client_id(old.spec_client_id(), awareness_update_clients(u)->0)
    } else {
        old.spec_client_id()
    })
    &&& (!(msg is Awareness) ==> new.spec_client_id() == old.spec_client_id())
    &&& (msg matches MessageView::Sync(SyncMessageView::SyncStep1(sv)) ==> (r matches Ok(DocAction::ReplyStateDiff(b)) && b@ == sv))
    &&& (msg matches MessageView::Sync(SyncMessageView::SyncStep2(u)) ==> if old.spec_authorization() == Authorization::Full {
        r matches Ok(DocAction::ApplyUpdate(b)) && b@ == u
    } else {
        r matches Err(SyncError::PermissionDenied { reason }) && reason@ == "Token does not have write access"@
    })
    &&& (msg matches MessageView::Sync(SyncMessageView::Update(u)) ==> if old.spec_authorization() == Authorization::Full {
        r matches Ok(DocAction::ApplyUpdateAndAck(b)) && b@ == u
    } else {
        r matches Err(SyncError::PermissionDenied { reason }) && reason@ == "Token does not have write access"@
    })
    &&& (msg matches MessageView::Auth(a) ==> (r matches Ok(DocAction::Authenticate { document_name, token })
        && token@ == auth_token(a) && splits_routing_key(old.spec_doc_name(), document_name@)))
    &&& (msg is AwarenessQuery ==> (r matches Ok(DocAction::ReplyAwareness)))
    &&& (msg matches MessageView::Awareness(u) ==> if awareness_update_valid(u) {
        r matches Ok(DocAction::ApplyAwareness(b)) && b@ == u
    } else {
        r matches Err(SyncError::Decoding(_))
    })
    &&& (msg is SyncStatus ==> (r matches Ok(DocAction::Ignore)))
    &&& (msg matches MessageView::Custom(t, d) ==> if t == SYNC_STATUS_MESSAGE {
        r matches Ok(DocAction::Reply(m)) && m@ == MessageView::Custom(t, d)
    } else {
        r matches Err(SyncError::Unsupported(tag)) && tag == t
    })
}

/// The grant or refusal that an authentication answer leads to.
pub open spec fn access_after(answer: Result<DocConnectionConfig, anyhow::Error>, current: Authorization) -> Authorization {
    match answer {
        Ok(c) => if !c.is_authenticated {
            Authorization::NoAccess
        } else if c.read_only {
            Authorization::ReadOnly
        } else {
            Authorization::Full
        },
        Err(_) => current,
    }
}

/// What taking in an authentication answer does to a connection (from
/// `old` to `new`) and which replies it asks for: a refusal (an answer that
/// is not authenticated) leaves no access and sends a refusal; otherwise the
/// connection learns its access (unchanged when the server failed to
/// answer) and is sent the grant with its scope, the awareness states when
/// there are any, and a sync step 1.
pub open spec fn finishes_auth(
    old: DocConnection,
    answer: Result<DocConnectionConfig, anyhow::Error>,
    has_awareness_states: bool,
    new: DocConnection,
    r: (Vec<AuthReply>, Result<(), SyncError>),
) -> bool {
    &&& new.spec_doc_name() == old.spec_doc_name()
    &&& new.spec_client_id() == old.spec_client_id()
    &&& new.spec_closed() == old.spec_closed()
    &&& new.spec_authorization() == access_after(answer, old.spec_authorization())
    &&& ((answer matches Ok(c) && !c.is_authenticated) ==> {
        &&& r.0@.len() == 1
        &&& r.0@[0] matches AuthReply::Send(m)
        &&& m@ == MessageView::Auth(AuthMessageView::PermissionDenied("permission-denied"@))
        &&& r.1 matches Err(SyncError::PermissionDenied { reason })
        &&& reason@ == "Authentication failed"@
    })
    &&& (!(answer matches Ok(c) && !c.is_authenticated) ==> {
        &&& r.1 is Ok
        &&& r.0@.len() == if has_awareness_states { 3int } else { 2int }
        &&& r.0@[0] matches AuthReply::Send(m)
        &&& m@ == MessageView::Auth(AuthMessageView::Authenticated(scope_of(new.spec_authorization())))
        &&& (has_awareness_states ==> r.0@[1] is SendAwareness)
        &&& r.0@.last() is SendSyncStep1
    })
}

/// The state of one document connection.
pub struct DocConnection {
    doc_name: String,
    authorization: Authorization,
    client_id: Option<u64>,
    closed: bool,
}

impl DocConnection {
    pub closed spec fn spec_doc_name(&self) -> Seq<char> {
        self.doc_name@
    }

    pub closed spec fn spec_authorization(&self) -> Authorization {
        self.authorization
    }

    pub closed spec fn spec_client_id(&self) -> Option<u64> {
        self.client_id
    }

    pub closed spec fn spec_closed(&self) -> bool {
        self.closed
    }

    /// A fresh connection to `doc_name`: not authorized, no awareness client, open.
    pub fn new(doc_name: String) -> (r: DocConnection)
        ensures
            r.spec_doc_name() == doc_name@,
            r.spec_authorization() == Authorization::NoAccess,
            r.spec_client_id() is None,
            !r.spec_closed(),
    {
        DocConnection { doc_name, authorization: Authorization::NoAccess, client_id: None, closed: false }
    }

    pub fn doc_name(&self) -> (r: &str)
        ensures
            r@ == self.spec_doc_name(),
    {
        self.doc_name.as_str()
    }

    pub fn authorization(&self) -> (r: Authorization)
        ensures
            r == self.spec_authorization(),
    {
        self.authorization
    }

    pub fn client_id(&self) -> (r: Option<u64>)
        ensures
            r == self.spec_client_id(),
    {
        self.client_id
    }

    pub fn is_closed(&self) -> (r: bool)
        ensures
            r == self.spec_closed(),
    {
        self.closed
    }

    /// The frame that carries `msg` to this connection's client.
    pub fn send_message(&self, msg: &Message) -> (r: Vec<u8>)
        ensures
            r@ == frame_bytes(self.spec_doc_name(), msg@),
    {
        encode_frame(self.doc_name.as_str(), msg)
    }

    /// The frame that carries an encoded message to this connection's
    /// client: the message is decoded first, and re-encoded after the
    /// document name.
    pub fn send(&self, encoded: &[u8]) -> (r: Result<Vec<u8>, DecodeError>)
        ensures
            r is Ok <==> decode_message_at(encoded@, 0) is Some,
            r matches Ok(f) ==> (decode_message_at(encoded@, 0) matches Some((m, _)) && f@ == frame_bytes(self.spec_doc_name(), m)),
    {
        match Message::decode_at(encoded, 0) {
            Ok((msg, _)) => Ok(self.send_message(&msg)),
            Err(e) => Err(e),
        }
    }

    /// Decides what an incoming message asks for. Document updates need full
    /// access; an awareness update naming one client makes it this
    /// connection's client, unless one is known already.
    pub fn handle_msg(&mut self, msg: Message) -> (r: Result<DocAction, SyncError>)
        ensures
            handles_msg(*old(self), msg@, *final(self), r),
            old(self).spec_authorization() != Authorization::Full && (msg@ matches MessageView::Sync(s) && !(s is SyncStep1))
                ==> (r matches Err(SyncError::PermissionDenied { reason }) && reason@ == "Token does not have write access"@),
            (r matches Ok(DocAction::ApplyUpdate(_)) || r matches Ok(DocAction::ApplyUpdateAndAck(_)))
                ==> old(self).spec_authorization() == Authorization::Full,
    {
        let can_write = match self.authorization {
            Authorization::Full => true,
            _ => false,
        };
        match msg {
            Message::Sync(m) => match m {
                SyncMessage::SyncStep1(sv) => Ok(DocAction::ReplyStateDiff(sv)),
                SyncMessage::SyncStep2(update) => {
                    if can_write {
                        Ok(DocAction::ApplyUpdate(update))
                    } else {
                        Err(SyncError::PermissionDenied { reason: "Token does not have write access".to_owned() })
                    }
                },
                SyncMessage::Update(update) => {
                    if can_write {
                        Ok(DocAction::ApplyUpdateAndAck(update))
                    } else {
                        Err(SyncError::PermissionDenied { reason: "Token does not have write access".to_owned() })
                    }
                },
            },
            Message::Auth(a) => {
                let token = match a {
                    AuthMessage::Token(t, _) => t,
                    _ => String::new(),
                };
                let document_name = document_name_of_key(self.doc_name.as_str());
                Ok(DocAction::Authenticate { document_name, token })
            },
            Message::AwarenessQuery => Ok(DocAction::ReplyAwareness),
            Message::Awareness(update) => {
                match awareness_clients(update.as_slice()) {
                    Ok(ids) => {
                        proof {
                            ids@.unique_seq_to_set();
                        }
                        if ids.len() == 1 {
                            if self.client_id.is_none() {
                                let id = ids[0];
                                proof {
                                    assert(ids@.to_set() =~= set![id]);
                                    assert(set![id].contains(set![id].choose()));
                                }
                                self.client_id = Some(id);
                            }
                        }
                        Ok(DocAction::ApplyAwareness(update))
                    },
                    Err(e) => Err(SyncError::Decoding(e)),
                }
            },
            Message::SyncStatus(_) => Ok(DocAction::Ignore),
            Message::Custom(tag, data) => {
                if tag == SYNC_STATUS_MESSAGE {
                    Ok(DocAction::Reply(Message::Custom(SYNC_STATUS_MESSAGE, data)))
                } else {
                    Err(SyncError::Unsupported(tag))
                }
            },
        }
    }

    /// Takes in what the document server answered to an authentication.
    /// A refusal (an answer that is not authenticated) leaves no access and
    /// sends a refusal; otherwise the connection learns its access (unchanged
    /// when the server failed to answer) and is sent the grant with its scope,
    /// the awareness states when there are any, and a sync step 1.
    pub fn finish_auth(
        &mut self,
        answer: Result<DocConnectionConfig, anyhow::Error>,
        has_awareness_states: bool,
    ) -> (r: (Vec<AuthReply>, Result<(), SyncError>))
        ensures
            finishes_auth(*old(self), answer, has_awareness_states, *final(self), r),
    {
        let mut auth_failed = false;
        match answer {
            Ok(config) => {
                if config.is_authenticated {
                    if config.read_only {
                        self.authorization = Authorization::ReadOnly;
                    } else {
                        self.authorization = Authorization::Full;
                    }
                } else {
                    self.authorization = Authorization::NoAccess;
                    auth_failed = true;
                }
            },
            Err(_) => {},
        }
        let mut replies: Vec<AuthReply> = Vec::new();
        if auth_failed {
            replies.push(AuthReply::Send(Message::Auth(AuthMessage::PermissionDenied("permission-denied".to_owned()))));
            return (replies, Err(SyncError::PermissionDenied { reason: "Authentication failed".to_owned() }));
        }
        let scope = match self.authorization {
            Authorization::ReadOnly => "read-only".to_owned(),
            _ => "read-write".to_owned(),
        };
        replies.push(AuthReply::Send(Message::Auth(AuthMessage::Authenticated(scope))));
        if has_awareness_states {
            replies.push(AuthReply::SendAwareness);
        }
        replies.push(AuthReply::SendSyncStep1);
        (replies, Ok(()))
    }

    /// A connection as `new` makes it for `name`.
    pub open spec fn is_fresh(&self, name: Seq<char>) -> bool {
        &&& self.spec_doc_name() == name
        &&& self.spec_authorization() == Authorization::NoAccess
        &&& self.spec_client_id() is None
        &&& !self.spec_closed()
    }

    /// A copy of this connection's state.
    pub fn duplicate(&self) -> (r: DocConnection)
        ensures
            r.spec_doc_name() == self.spec_doc_name(),
            r.spec_authorization() == self.spec_authorization(),
            r.spec_client_id() == self.spec_client_id(),
            r.spec_closed() == self.spec_closed(),
    {
        DocConnection {
            doc_name: self.doc_name.clone(),
            authorization: self.authorization,
            client_id: self.client_id,
            closed: self.closed,
        }
    }

    /// The frame that answers an action, if it has an answer. `computed` is
    /// what the document computed for it: the update that a state vector
    /// lacks, or the encoded awareness state.
    pub fn reply_frame(&self, action: &DocAction, computed: &[u8]) -> (r: Option<Vec<u8>>)
        ensures
            action is ReplyStateDiff ==> (r matches Some(f) && f@ == frame_bytes(
                self.spec_doc_name(),
                MessageView::Sync(SyncMessageView::SyncStep2(computed@)),
            )),
            action is ApplyUpdateAndAck ==> (r matches Some(f) && f@ == frame_bytes(
                self.spec_doc_name(),
                MessageView::SyncStatus(true),
            )),
            action is ReplyAwareness ==> (r matches Some(f) && f@ == frame_bytes(
                self.spec_doc_name(),
                MessageView::Awareness(computed@),
            )),
            action matches DocAction::Reply(m) ==> (r matches Some(f) && f@ == frame_bytes(
                self.spec_doc_name(),
                m@,
            )),
            (action is ApplyUpdate || action is Authenticate || action is ApplyAwareness
                || action is Ignore) ==> r is None,
    {
        match action {
            DocAction::ReplyStateDiff(_) => {
                let m = Message::Sync(SyncMessage::SyncStep2(vstd::slice::slice_to_vec(computed)));
                Some(self.send_message(&m))
            },
            DocAction::ApplyUpdateAndAck(_) => Some(self.send_message(&Message::SyncStatus(true))),
            DocAction::ReplyAwareness => {
                let m = Message::Awareness(vstd::slice::slice_to_vec(computed));
                Some(self.send_message(&m))
            },
            DocAction::Reply(m) => Some(self.send_message(m)),
            _ => None,
        }
    }

    /// The frame of a reply to authentication. `awareness` is the encoded
    /// awareness state and `state_vector` the document's encoded state vector.
    pub fn auth_reply_frame(&self, reply: &AuthReply, awareness: &[u8], state_vector: &[u8]) -> (r: Vec<u8>)
        ensures
            reply matches AuthReply::Send(m) ==> r@ == frame_bytes(self.spec_doc_name(), m@),
            reply is SendAwareness ==> r@ == frame_bytes(self.spec_doc_name(), MessageView::Awareness(awareness@)),
            reply is SendSyncStep1 ==> r@ == frame_bytes(
                self.spec_doc_name(),
                MessageView::Sync(SyncMessageView::SyncStep1(state_vector@)),
            ),
    {
        match reply {
            AuthReply::Send(m) => self.send_message(m),
            AuthReply::SendAwareness => {
                let m = Message::Awareness(vstd::slice::slice_to_vec(awareness));
                self.send_message(&m)
            },
            AuthReply::SendSyncStep1 => {
                let m = Message::Sync(SyncMessage::SyncStep1(vstd::slice::slice_to_vec(state_vector)));
                self.send_message(&m)
            },
        }
    }

    /// Closes the connection; returns the awareness client whose state is to
    /// be removed, if it announced one.
    pub fn close(&mut self) -> (r: Option<u64>)
        ensures
            final(self).spec_closed(),
            r == old(self).spec_client_id(),
            final(self).spec_doc_name() == old(self).spec_doc_name(),
            final(self).spec_authorization() == old(self).spec_authorization(),
            final(self).spec_client_id() == old(self).spec_client_id(),
    {
        self.closed = true;
        self.client_id
    }

    /// The frame that relays a document update to this connection's client;
    /// none once the connection is closed.
    pub fn update_broadcast(&self, update: &[u8]) -> (r: Option<Vec<u8>>)
        ensures
            self.spec_closed() ==> r is None,
            !self.spec_closed() ==> (r matches Some(f) && f@ == frame_bytes(
                self.spec_doc_name(),
                MessageView::Sync(SyncMessageView::Update(update@)),
            )),
    {
        if self.closed {
            return None;
        }
        let mut buf: Vec<u8> = Vec::new();
        write_string(&mut buf, self.doc_name.as_str());
        write_var_u8(&mut buf, MSG_SYNC);
        write_var_u8(&mut buf, MSG_SYNC_UPDATE);
        write_buf(&mut buf, update);
        assert(buf@ =~= frame_bytes(self.spec_doc_name(), MessageView::Sync(SyncMessageView::Update(update@))));
        Some(buf)
    }

    /// The frame that relays an encoded awareness update to this connection's
    /// client; none once the connection is closed.
    pub fn awareness_broadcast(&self, update: &[u8]) -> (r: Option<Vec<u8>>)
        ensures
            self.spec_closed() ==> r is None,
            !self.spec_closed() ==> (r matches Some(f) && f@ == frame_bytes(self.spec_doc_name(), MessageView::Awareness(update@))),
    {
        if self.closed {
            return None;
        }
        let mut buf: Vec<u8> = Vec::new();
        write_string(&mut buf, self.doc_name.as_str());
        let msg = Message::Awareness(vstd::slice::slice_to_vec(update));
        msg.encode(&mut buf);
        assert(buf@ =~= frame_bytes(self.spec_doc_name(), MessageView::Awareness(update@)));
        Some(buf)
    }
}

/// The clients that an awareness change touches: added, then updated, then removed.
pub fn changed_clients(added: &[u64], updated: &[u64], removed: &[u64]) -> (r: Vec<u64>)
    ensures
        r@ == added@ + updated@ + removed@,
{
    let mut changed: Vec<u64> = Vec::new();
    changed.extend_from_slice(added);
    changed.extend_from_slice(updated);
    changed.extend_from_slice(removed);
    assert(changed@ =~= added@ + updated@ + removed@);
    changed
}

/// Once a connection knows its awareness client, later awareness updates
/// never change it.
pub proof fn law_client_id_is_kept(current: u64, clients: Set<u64>)
    ensures
        next_client_id(Some(current), clients) == Some(current),
{
}

/// An update announcing one client makes it the client of a connection that
/// had none; an update naming several does not.
pub proof fn law_first_single_client_is_taken(id: u64, clients: Set<u64>)
    requires
        clients.len() != 1,
    ensures
        next_client_id(None, set![id]) == Some(id),
        next_client_id(None, clients) is None,
{
    assert(set![id].len() == 1) by {
        assert(set![id] =~= Set::<u64>::empty().insert(id));
    }
    assert(set![id].contains(set![id].choose()));
}

/// Two authentication replies that send the same thing.
pub open spec fn same_reply(a: AuthReply, b: AuthReply) -> bool {
    match (a, b) {
        (AuthReply::Send(m1), AuthReply::Send(m2)) => m1@ == m2@,
        (AuthReply::SendAwareness, AuthReply::SendAwareness) => true,
        (AuthReply::SendSyncStep1, AuthReply::SendSyncStep1) => true,
        _ => false,
    }
}

/// A token from a provider that sends its version after it, and the same
/// token from one that does not, lead a connection to the same request: the
/// same document is authenticated with the same token, and the connection
/// is left alike.
pub proof fn law_version_trailer_does_not_matter(
    conn: DocConnection,
    token: Seq<char>,
    version: Seq<char>,
    after_with: DocConnection,
    after_without: DocConnection,
    with_version: Result<DocAction, SyncError>,
    without_version: Result<DocAction, SyncError>,
)
    requires
        handles_msg(conn, MessageView::Auth(AuthMessageView::Token(token, Some(version))), after_with, with_version),
        handles_msg(conn, MessageView::Auth(AuthMessageView::Token(token, None)), after_without, without_version),
    ensures
        with_version matches Ok(DocAction::Authenticate { document_name: d1, token: t1 })
            && without_version matches Ok(DocAction::Authenticate { document_name: d2, token: t2 })
            && t1@ == token && t2@ == token && d1@ == d2@,
        after_with.spec_doc_name() == after_without.spec_doc_name(),
        after_with.spec_authorization() == after_without.spec_authorization(),
        after_with.spec_client_id() == after_without.spec_client_id(),
        after_with.spec_closed() == after_without.spec_closed(),
{
    if let (Ok(DocAction::Authenticate { document_name: d1, .. }), Ok(DocAction::Authenticate { document_name: d2, .. })) = (with_version, without_version) {
        lemma_routing_key_names_one_document(conn.spec_doc_name(), d1@, d2@);
    }
}

/// The replies to an authentication answer depend on nothing but the
/// answer and the connection's state: connections alike, given the same
/// answer, send the same replies and end alike.
pub proof fn law_auth_replies_depend_on_the_answer(
    conn1: DocConnection,
    conn2: DocConnection,
    answer: Result<DocConnectionConfig, anyhow::Error>,
    has_awareness_states: bool,
    after1: DocConnection,
    after2: DocConnection,
    r1: (Vec<AuthReply>, Result<(), SyncError>),
    r2: (Vec<AuthReply>, Result<(), SyncError>),
)
    requires
        conn1.spec_doc_name() == conn2.spec_doc_name(),
        conn1.spec_authorization() == conn2.spec_authorization(),
        conn1.spec_client_id() == conn2.spec_client_id(),
        conn1.spec_closed() == conn2.spec_closed(),
        finishes_auth(conn1, answer, has_awareness_states, after1, r1),
        finishes_auth(conn2, answer, has_awareness_states, after2, r2),
    ensures
        r1.0@.len() == r2.0@.len(),
        forall|i: int| 0 <= i < r1.0@.len() ==> same_reply(#[trigger] r1.0@[i], r2.0@[i]),
        r1.1 is Ok <==> r2.1 is Ok,
        after1.spec_authorization() == after2.spec_authorization(),
        after1.spec_doc_name() == after2.spec_doc_name(),
        after1.spec_client_id() == after2.spec_client_id(),
{
    assert forall|i: int| 0 <= i < r1.0@.len() implies same_reply(#[trigger] r1.0@[i], r2.0@[i]) by {
        if i == r1.0@.len() - 1 && i > 0 {
            assert(r1.0@[i] == r1.0@.last());
            assert(r2.0@[i] == r2.0@.last());
        }
    }
}

/// Only full access writes: a connection without it that is sent a document
/// update (a sync step 2 or an incremental update) is refused with the
/// write-access reason and asked to apply nothing, and whatever a connection
/// is asked to apply came with full access.
pub proof fn law_only_full_access_writes(
    conn: DocConnection,
    msg: MessageView,
    after: DocConnection,
    r: Result<DocAction, SyncError>,
)
    requires
        handles_msg(conn, msg, after, r),
    ensures
        conn.spec_authorization() != Authorization::Full && (msg matches MessageView::Sync(s) && !(s is SyncStep1))
            ==> (r matches Err(SyncError::PermissionDenied { reason }) && reason@ == "Token does not have write access"@),
        (r matches Ok(DocAction::ApplyUpdate(_)) || r matches Ok(DocAction::ApplyUpdateAndAck(_)))
            ==> conn.spec_authorization() == Authorization::Full,
        after.spec_authorization() == conn.spec_authorization(),
{
}

} // verus!
