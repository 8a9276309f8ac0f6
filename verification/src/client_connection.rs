//! A client's websocket connection, which may serve several documents.
use vstd::prelude::*;
use vstd::hash_map::StringHashMap;
use crate::lib0::{
    at_end, lemma_at_end_split, read_string, read_to_end,
    string_field, unexpected_value, DecodeError,
};
use crate::sync::{decode_message_at, encode_message, fits_string, string_at, wf_message, Message, MessageView};
use crate::doc_connection::{frame_bytes, handles_msg, finishes_auth, AuthReply, DocAction, DocConnection, SyncError};
use crate::payload::{awareness_clients, awareness_update_valid, check_state_vector, state_vector_valid};
use crate::sync::{AuthMessage, AuthMessageView, SyncMessage, SyncMessageView};
use vstd::string::StringSliceAdditionalSpecFns;
use vstd::utf8::*;
use core::time::Duration;

verus! {

/// What a document server grants a connection.
#[derive(Debug, Clone, Copy, PartialEq, Eq, Structural)]
pub struct DocConnectionConfig {
    pub read_only: bool,
    pub is_authenticated: bool,
}

impl Default for DocConnectionConfig {
    /// Authenticated, with write access.
    fn default() -> (r: Self)
        ensures
            !r.read_only,
            r.is_authenticated,
    {
        DocConnectionConfig { read_only: false, is_authenticated: true }
    }
}

/// A frame held back until its document is ready.
#[derive(Debug)]
pub struct MessageQueueEntry {
    pub data: Vec<u8>,
    pub document_name: String,
}

/// Errors of a client connection.
#[derive(Debug)]
pub enum ConnectionError {
    /// The connection is closed.
    Closed,
    /// A frame could not be decoded.
    Decoding(DecodeError),
    /// The document connection refused the message.
    HandleFailed(SyncError),
}

/// Decoding of a frame: the document name, then the message that the rest of
/// the frame holds.
pub open spec fn decode_frame_spec(data: Seq<u8>) -> Option<(Seq<char>, MessageView)> {
    match string_at(data, 0) {
        Some((name, q)) => match decode_message_at(data.subrange(q as int, data.len() as int), 0) {
            Some((m, _)) => Some((name, m)),
            None => None,
        },
        None => None,
    }
}

/// Splits a frame into its document name and its message. A frame built by
/// `encode_frame` decodes back to its name and message.
pub fn decode_frame(data: &[u8]) -> (r: Result<(String, Message), DecodeError>)
    ensures
        r is Ok <==> decode_frame_spec(data@) is Some,
        r matches Ok((name, m)) ==> decode_frame_spec(data@) == Some((name@, m@)),
        forall|n: Seq<char>, w: MessageView|
            #![trigger frame_bytes(n, w)]
            data@ == frame_bytes(n, w) && fits_string(n) && wf_message(w) ==> (r matches Ok(
                (name, m),
            ) && name@ == n && m@ == w),
{
    let (document_name, q) = match read_string(data, 0) {
        Ok(x) => x,
        Err(e) => {
            proof {
                assert forall|n: Seq<char>, w: MessageView|
                    #![trigger frame_bytes(n, w)]
                    data@ == frame_bytes(n, w) && fits_string(n) && wf_message(w) implies false by {
                    assert(data@.subrange(0, data@.len() as int) =~= data@);
                    assert(at_end(data@, 0, string_field(n) + encode_message(w)));
                    lemma_at_end_split(data@, 0, string_field(n), encode_message(w));
                }
            }
            return Err(e);
        },
    };
    let rest = read_to_end(data, q);
    let res = Message::decode_at(rest.as_slice(), 0);
    proof {
        assert forall|n: Seq<char>, w: MessageView|
            #![trigger frame_bytes(n, w)]
            data@ == frame_bytes(n, w) && fits_string(n) && wf_message(w) implies (res matches Ok((m, _))
            && document_name@ == n && m@ == w) by {
            assert(data@.subrange(0, data@.len() as int) =~= data@);
            assert(at_end(data@, 0, string_field(n) + encode_message(w)));
            lemma_at_end_split(data@, 0, string_field(n), encode_message(w));
            assert(rest@.subrange(0, rest@.len() as int) =~= rest@);
            assert(at_end(rest@, 0, encode_message(w)));
        }
    }
    match res {
        Ok((m, _)) => Ok((document_name, m)),
        Err(e) => Err(e),
    }
}

/// `name` is the document that routing key `key` names: the part of the key
/// before its first NUL (`documentName\0sessionId`), or the whole key when it
/// holds none.
pub open spec fn splits_routing_key(key: Seq<char>, name: Seq<char>) -> bool {
    let b = encode_utf8(key);
    let n = encode_utf8(name).len();
    &&& n <= b.len()
    &&& encode_utf8(name) == b.subrange(0, n as int)
    &&& forall|j: int| 0 <= j < n ==> b[j] != 0u8
    &&& (n == b.len() || b[n as int] == 0u8)
}

proof fn lemma_encode_utf8_concat(a: Seq<char>, b: Seq<char>)
    ensures
        encode_utf8(a + b) == encode_utf8(a) + encode_utf8(b),
    decreases a.len(),
{
    if a.len() == 0 {
        assert(a + b =~= b);
        assert(encode_utf8(a) + encode_utf8(b) =~= encode_utf8(b));
    } else {
        assert((a + b).drop_first() =~= a.drop_first() + b);
        lemma_encode_utf8_concat(a.drop_first(), b);
        assert(encode_utf8(a + b) =~= encode_utf8(a) + encode_utf8(b));
    }
}

proof fn lemma_scalar_bytes_nonzero(c: u32)
    requires
        c != 0,
    ensures
        forall|j: int| 0 <= j < encode_scalar(c).len() ==> encode_scalar(c)[j] != 0u8,
{
    assert(forall|y: u8| #[trigger] (0x80u8 | y) != 0u8) by (bit_vector);
    assert(forall|y: u8| #[trigger] (0xC0u8 | y) != 0u8) by (bit_vector);
    assert(forall|y: u8| #[trigger] (0xE0u8 | y) != 0u8) by (bit_vector);
    assert(forall|y: u8| #[trigger] (0xF0u8 | y) != 0u8) by (bit_vector);
    assert((0 < c && c <= 0x7F) ==> (c & 0x7F) as u8 != 0u8) by (bit_vector);
}

proof fn lemma_no_nul_bytes(chars: Seq<char>)
    requires
        forall|i: int| 0 <= i < chars.len() ==> chars[i] != '\0',
    ensures
        forall|j: int| 0 <= j < encode_utf8(chars).len() ==> encode_utf8(chars)[j] != 0u8,
    decreases chars.len(),
{
    if chars.len() > 0 {
        assert(chars[0] != '\0');
        assert(('\0' as u32) == 0);
        if (chars[0] as u32) == 0 {
            vstd::utf8::char_u32_cast(chars[0], 0);
            vstd::utf8::char_u32_cast('\0', 0);
        }
        assert((chars[0] as u32) != 0);
        lemma_scalar_bytes_nonzero(chars[0] as u32);
        lemma_no_nul_bytes(chars.drop_first());
        let e = encode_scalar(chars[0] as u32);
        let rest = encode_utf8(chars.drop_first());
        assert forall|j: int| 0 <= j < encode_utf8(chars).len() implies encode_utf8(chars)[j] != 0u8 by {
            if j < e.len() {
                assert(encode_utf8(chars)[j] == e[j]);
            } else {
                assert(encode_utf8(chars)[j] == rest[j - e.len()]);
            }
        }
    }
}

/// A routing key names one document: `splits_routing_key` relates each key
/// to a single name.
pub proof fn lemma_routing_key_names_one_document(key: Seq<char>, a: Seq<char>, b: Seq<char>)
    requires
        splits_routing_key(key, a),
        splits_routing_key(key, b),
    ensures
        a == b,
{
    broadcast use vstd::utf8::encode_utf8_decode_utf8;
    let bytes = encode_utf8(key);
    let na = encode_utf8(a).len();
    let nb = encode_utf8(b).len();
    if na < nb {
        assert(bytes[na as int] != 0u8);
    } else if nb < na {
        assert(bytes[nb as int] != 0u8);
    }
    assert(encode_utf8(a) == encode_utf8(b));
    assert(decode_utf8(encode_utf8(a)) == a);
    assert(decode_utf8(encode_utf8(b)) == b);
}

/// Routing keys `documentName\0sessionId` that share their document part
/// name the same document, whatever their sessions: both are fetched by that
/// name, while each session keeps its own key (and frames under it).
pub proof fn law_routing_keys_share_their_document(
    document: Seq<char>,
    session1: Seq<char>,
    session2: Seq<char>,
    name1: Seq<char>,
    name2: Seq<char>,
)
    requires
        forall|i: int| 0 <= i < document.len() ==> document[i] != '\0',
        splits_routing_key(document + seq!['\0'] + session1, name1),
        splits_routing_key(document + seq!['\0'] + session2, name2),
    ensures
        name1 == document,
        name2 == document,
{
    lemma_key_names_its_document(document, session1, name1);
    lemma_key_names_its_document(document, session2, name2);
}

proof fn lemma_key_names_its_document(document: Seq<char>, session: Seq<char>, name: Seq<char>)
    requires
        forall|i: int| 0 <= i < document.len() ==> document[i] != '\0',
        splits_routing_key(document + seq!['\0'] + session, name),
    ensures
        name == document,
{
    broadcast use vstd::utf8::encode_utf8_decode_utf8;
    let key = document + seq!['\0'] + session;
    lemma_encode_utf8_concat(document + seq!['\0'], session);
    lemma_encode_utf8_concat(document, seq!['\0']);
    assert(seq!['\0'].drop_first() =~= Seq::<char>::empty());
    assert(('\0' as u32) == 0);
    assert((0u32 & 0x7F) as u8 == 0u8) by (bit_vector);
    assert(seq!['\0'][0] == '\0');
    assert(encode_scalar(seq!['\0'][0] as u32) =~= seq![0u8]);
    assert(encode_utf8(seq!['\0'].drop_first()) =~= Seq::<u8>::empty());
    assert(encode_utf8(seq!['\0']) =~= seq![0u8]);
    lemma_no_nul_bytes(document);
    let d = encode_utf8(document);
    let bytes = encode_utf8(key);
    assert(bytes == d + seq![0u8] + encode_utf8(session));
    assert(bytes[d.len() as int] == 0u8);
    let n = encode_utf8(name).len();
    if n > d.len() {
        assert(bytes[d.len() as int] != 0u8);
    } else if n < d.len() {
        assert(bytes[n as int] == d[n as int]);
    }
    assert(encode_utf8(name) =~= d);
    assert(decode_utf8(encode_utf8(name)) == name);
}

/// The document that a routing key names (`documentName\0sessionId`, or a
/// plain document name).
pub fn document_name_of_key(key: &str) -> (r: String)
    ensures
        splits_routing_key(key@, r@),
{
    broadcast use vstd::utf8::encode_utf8_valid_utf8;
    let bytes = key.as_bytes();
    let n = bytes.len();
    let mut i: usize = 0;
    while i < n && bytes[i] != 0
        invariant
            n == bytes@.len(),
            bytes@ == encode_utf8(key@),
            i <= n,
            forall|j: int| 0 <= j < i ==> bytes@[j] != 0u8,
        decreases n - i,
    {
        i = i + 1;
    }
    proof {
        if i < n {
            is_char_boundary_iff_is_leading_byte(bytes@, i as int);
        } else {
            is_char_boundary_start_end_of_seq(bytes@);
        }
    }
    let (head, _) = key.split_at(i);
    let name = head.to_owned();
    assert(encode_utf8(name@) == head.spec_bytes());
    name
}

/// Whether a message's payload decodes where the protocol decodes it: the
/// state vector of a sync step 1, and an awareness update.
/// The routing key of a frame that decodes.
pub open spec fn frame_key(data: Seq<u8>) -> Seq<char> {
    (decode_frame_spec(data)->0).0
}

/// The message of a frame that decodes.
pub open spec fn frame_message(data: Seq<u8>) -> MessageView {
    (decode_frame_spec(data)->0).1
}

/// A frame that decodes and whose payload decodes.
pub open spec fn routable(data: Seq<u8>) -> bool {
    decode_frame_spec(data) is Some && payload_valid(frame_message(data))
}

pub open spec fn payload_valid(m: MessageView) -> bool {
    match m {
        MessageView::Sync(SyncMessageView::SyncStep1(sv)) => state_vector_valid(sv),
        MessageView::Awareness(u) => awareness_update_valid(u),
        _ => true,
    }
}

/// Checks a message's payload (see `payload_valid`).
pub fn check_payload(m: &Message) -> (r: Result<(), DecodeError>)
    ensures
        r is Ok <==> payload_valid(m@),
{
    match m {
        Message::Sync(SyncMessage::SyncStep1(sv)) => {
            if check_state_vector(sv.as_slice()) {
                Ok(())
            } else {
                Err(unexpected_value())
            }
        },
        Message::Awareness(u) => match awareness_clients(u.as_slice()) {
            Ok(_) => Ok(()),
            Err(e) => Err(e),
        },
        _ => Ok(()),
    }
}

/// Where a frame went.
#[derive(Debug)]
pub enum FrameRoute {
    /// The connection under this routing key took the message in and asks
    /// for this action.
    Handled { routing_key: String, action: DocAction },
    /// No connection exists under this routing key yet: the document must
    /// be fetched, and `open_session` then takes the message in.
    Open { routing_key: String, document_name: String, message: Message },
}

/// How the outcome of a document connection reaches the frame handler: an
/// action as it is, a refusal as `HandleFailed`.
pub open spec fn routed_as(res: Result<DocAction, SyncError>, key: Seq<char>, r: Result<FrameRoute, ConnectionError>) -> bool {
    match res {
        Ok(a) => r matches Ok(FrameRoute::Handled { routing_key, action }) && routing_key@ == key && action == a,
        Err(e) => r == Err::<FrameRoute, ConnectionError>(ConnectionError::HandleFailed(e)),
    }
}

pub open spec fn opened_as(res: Result<DocAction, SyncError>, r: Result<Option<DocAction>, ConnectionError>) -> bool {
    match res {
        Ok(a) => r == Ok::<Option<DocAction>, ConnectionError>(Some(a)),
        Err(e) => r == Err::<Option<DocAction>, ConnectionError>(ConnectionError::HandleFailed(e)),
    }
}

pub open spec fn finished_as(res: Result<(), SyncError>, r: Result<(), ConnectionError>) -> bool {
    match res {
        Ok(_) => r is Ok,
        Err(e) => r == Err::<(), ConnectionError>(ConnectionError::HandleFailed(e)),
    }
}

/// The context that a list of key-value pairs sets up, a later pair
/// winning over an earlier one with the same key.
pub open spec fn context_of_pairs(pairs: Seq<(String, String)>) -> Map<Seq<char>, String>
    decreases pairs.len(),
{
    if pairs.len() == 0 {
        Map::empty()
    } else {
        context_of_pairs(pairs.drop_last()).insert(pairs.last().0@, pairs.last().1)
    }
}

/// A lowercase hexadecimal digit.
pub open spec fn is_lower_hex(c: char) -> bool {
    ('0' <= c && c <= '9') || ('a' <= c && c <= 'f')
}

/// The text of a random (version 4, RFC 4122 variant) UUID: 32 lowercase
/// hexadecimal digits in groups of 8-4-4-4-12 joined by hyphens, the version
/// digit `4` and a variant digit among `8`, `9`, `a`, `b`.
pub open spec fn is_uuid_v4_text(s: Seq<char>) -> bool {
    &&& s.len() == 36
    &&& s[8] == '-' && s[13] == '-' && s[18] == '-' && s[23] == '-'
    &&& s[14] == '4'
    &&& (s[19] == '8' || s[19] == '9' || s[19] == 'a' || s[19] == 'b')
    &&& forall|i: int| 0 <= i < 36 && i != 8 && i != 13 && i != 18 && i != 23 ==> is_lower_hex(#[trigger] s[i])
}

/// The context set up from a list of key-value pairs holds exactly their
/// keys, each with the value of the last pair that has it.
pub proof fn law_context_of_pairs(pairs: Seq<(String, String)>)
    ensures
        forall|i: int| 0 <= i < pairs.len() ==> context_of_pairs(pairs).contains_key(#[trigger] pairs[i].0@),
        forall|i: int|
            0 <= i < pairs.len() && (forall|j: int| i < j < pairs.len() ==> pairs[j].0@ != pairs[i].0@)
                ==> context_of_pairs(pairs)[#[trigger] pairs[i].0@] == pairs[i].1,
        forall|k: Seq<char>| #[trigger] context_of_pairs(pairs).contains_key(k)
            ==> exists|i: int| 0 <= i < pairs.len() && pairs[i].0@ == k,
    decreases pairs.len(),
{
    if pairs.len() > 0 {
        let init = pairs.drop_last();
        law_context_of_pairs(init);
        let last = pairs.last();
        assert forall|i: int| 0 <= i < pairs.len() implies context_of_pairs(pairs).contains_key(#[trigger] pairs[i].0@) by {
            if i < pairs.len() - 1 {
                assert(init[i] == pairs[i]);
            }
        }
        assert forall|i: int|
            0 <= i < pairs.len() && (forall|j: int| i < j < pairs.len() ==> pairs[j].0@ != pairs[i].0@)
                implies context_of_pairs(pairs)[#[trigger] pairs[i].0@] == pairs[i].1 by {
            if i < pairs.len() - 1 {
                assert(init[i] == pairs[i]);
                assert(pairs[pairs.len() - 1].0@ != pairs[i].0@);
                assert forall|j: int| i < j < init.len() implies init[j].0@ != init[i].0@ by {
                    assert(init[j] == pairs[j]);
                }
            }
        }
        assert forall|k: Seq<char>| #[trigger] context_of_pairs(pairs).contains_key(k)
            implies exists|i: int| 0 <= i < pairs.len() && pairs[i].0@ == k by {
            if k == last.0@ {
                assert(pairs[pairs.len() - 1].0@ == k);
            } else {
                assert(context_of_pairs(init).contains_key(k));
                let i = choose|i: int| 0 <= i < init.len() && init[i].0@ == k;
                assert(pairs[i] == init[i]);
            }
        }
    }
}

/// A fresh random socket identifier (`uuid` `Uuid::new_v4`, shown
/// hyphenated in lowercase). Which random value it holds is left open.
#[verifier::external_body]
fn new_socket_id() -> (r: String)
    ensures
        is_uuid_v4_text(r@),
{
    uuid::Uuid::new_v4().to_string()
}

/// The state of a client connection: its socket id, the documents it has
/// opened (each with the owner's connection value `C`), its context and
/// whether it is closed.
#[verifier::reject_recursive_types(C)]
pub struct ClientConnection<C> {
    socket_id: String,
    document_connections: StringHashMap<C>,
    timeout: Duration,
    context: StringHashMap<String>,
    closed: bool,
}

impl<C> ClientConnection<C> {
    pub closed spec fn spec_socket_id(&self) -> Seq<char> {
        self.socket_id@
    }

    pub closed spec fn documents(&self) -> Map<Seq<char>, C> {
        self.document_connections@
    }

    pub closed spec fn spec_context(&self) -> Map<Seq<char>, String> {
        self.context@
    }

    pub closed spec fn spec_closed(&self) -> bool {
        self.closed
    }

    pub closed spec fn spec_timeout(&self) -> Duration {
        self.timeout
    }

    /// An open connection with no document, a fresh socket id and the given
    /// context (a later pair wins over an earlier one with the same key).
    pub fn new(timeout: Duration, default_context: Vec<(String, String)>) -> (r: Self)
        ensures
            is_uuid_v4_text(r.spec_socket_id()),
            r.documents() == Map::<Seq<char>, C>::empty(),
            r.spec_context() == context_of_pairs(default_context@),
            forall|i: int| 0 <= i < default_context@.len() ==> r.spec_context().contains_key(#[trigger] default_context@[i].0@),
            forall|i: int|
                0 <= i < default_context@.len()
                    && (forall|j: int| i < j < default_context@.len() ==> default_context@[j].0@ != default_context@[i].0@)
                    ==> r.spec_context()[#[trigger] default_context@[i].0@] == default_context@[i].1,
            forall|k: Seq<char>| #[trigger] r.spec_context().contains_key(k)
                ==> exists|i: int| 0 <= i < default_context@.len() && default_context@[i].0@ == k,
            !r.spec_closed(),
            r.spec_timeout() == timeout,
    {
        let mut context: StringHashMap<String> = StringHashMap::new();
        let n = default_context.len();
        let mut i: usize = 0;
        while i < n
            invariant
                n == default_context@.len(),
                i <= n,
                context@ == context_of_pairs(default_context@.take(i as int)),
            decreases n - i,
        {
            let k = default_context[i].0.clone();
            let v = default_context[i].1.clone();
            proof {
                assert(default_context@.take(i + 1).drop_last() =~= default_context@.take(i as int));
            }
            context.insert(k, v);
            i = i + 1;
        }
        proof {
            assert(default_context@.take(n as int) =~= default_context@);
            law_context_of_pairs(default_context@);
        }
        ClientConnection {
            socket_id: new_socket_id(),
            document_connections: StringHashMap::new(),
            timeout,
            context,
            closed: false,
        }
    }

    pub fn socket_id(&self) -> (r: &str)
        ensures
            r@ == self.spec_socket_id(),
    {
        self.socket_id.as_str()
    }

    pub fn is_closed(&self) -> (r: bool)
        ensures
            r == self.spec_closed(),
    {
        self.closed
    }

    /// Closes the connection (closing it again changes nothing).
    pub fn close(&mut self) -> (r: Result<(), ConnectionError>)
        ensures
            r is Ok,
            final(self).spec_closed(),
            final(self).documents() == old(self).documents(),
            final(self).spec_context() == old(self).spec_context(),
            final(self).spec_socket_id() == old(self).spec_socket_id(),
    {
        if self.closed {
            return Ok(());
        }
        self.closed = true;
        Ok(())
    }

    /// The connection already opened for a document, if any.
    pub fn fetch_connection(&self, document_name: &str) -> (r: Option<&C>)
        ensures
            r matches Some(c) ==> self.documents().contains_key(document_name@) && *c == self.documents()[document_name@],
            r is None ==> !self.documents().contains_key(document_name@),
    {
        self.document_connections.get(document_name)
    }

    /// Records the connection opened for a document.
    pub fn insert_connection(&mut self, document_name: String, connection: C)
        ensures
            final(self).documents() == old(self).documents().insert(document_name@, connection),
            final(self).spec_context() == old(self).spec_context(),
            final(self).spec_closed() == old(self).spec_closed(),
            final(self).spec_socket_id() == old(self).spec_socket_id(),
    {
        self.document_connections.insert(document_name, connection);
    }

    pub fn get_context(&self, key: &str) -> (r: Option<String>)
        ensures
            r matches Some(v) ==> self.spec_context().contains_key(key@) && v@ == self.spec_context()[key@]@,
            r is None ==> !self.spec_context().contains_key(key@),
    {
        match self.context.get(key) {
            Some(v) => Some(v.clone()),
            None => None,
        }
    }

    pub fn set_context(&mut self, key: String, value: String)
        ensures
            final(self).spec_context() == old(self).spec_context().insert(key@, value),
            final(self).documents() == old(self).documents(),
            final(self).spec_closed() == old(self).spec_closed(),
            final(self).spec_socket_id() == old(self).spec_socket_id(),
    {
        self.context.insert(key, value);
    }

    pub fn get_document_count(&self) -> (r: usize)
        ensures
            r == self.documents().len(),
    {
        self.document_connections.len()
    }

    pub fn has_document(&self, document_name: &str) -> (r: bool)
        ensures
            r == self.documents().contains_key(document_name@),
    {
        self.document_connections.contains_key(document_name)
    }
}

impl ClientConnection<DocConnection> {
    /// Takes in a frame from the client and routes it to the connection
    /// opened under its routing key. Refused once the connection is closed,
    /// when the frame does not decode, and when its payload does not decode
    /// (`payload_valid`); a message that the document connection refuses is
    /// reported as `HandleFailed`, with the connection kept. Without a
    /// connection under the key, the frame asks for its document to be
    /// fetched (the part of the key before a NUL).
    pub fn handle_message(&mut self, data: &[u8]) -> (r: Result<FrameRoute, ConnectionError>)
        ensures
            final(self).spec_context() == old(self).spec_context(),
            final(self).spec_closed() == old(self).spec_closed(),
            final(self).spec_socket_id() == old(self).spec_socket_id(),
            old(self).spec_closed() ==> r matches Err(ConnectionError::Closed),
            !old(self).spec_closed() && decode_frame_spec(data@) is None ==> r matches Err(ConnectionError::Decoding(_)),
            !old(self).spec_closed() && decode_frame_spec(data@) is Some && !payload_valid(frame_message(data@))
                ==> r matches Err(ConnectionError::Decoding(_)),
            !(!old(self).spec_closed() && routable(data@) && old(self).documents().contains_key(frame_key(data@)))
                ==> final(self).documents() == old(self).documents(),
            !old(self).spec_closed() && routable(data@) && !old(self).documents().contains_key(frame_key(data@)) ==> (
                r matches Ok(FrameRoute::Open { routing_key, document_name, message })
                && routing_key@ == frame_key(data@) && splits_routing_key(frame_key(data@), document_name@)
                && message@ == frame_message(data@)),
            !old(self).spec_closed() && routable(data@) && old(self).documents().contains_key(frame_key(data@)) ==> {
                &&& final(self).documents().contains_key(frame_key(data@))
                &&& final(self).documents() == old(self).documents().insert(frame_key(data@), final(self).documents()[frame_key(data@)])
                &&& exists|res: Result<DocAction, SyncError>| #[trigger] handles_msg(
                    old(self).documents()[frame_key(data@)],
                    frame_message(data@),
                    final(self).documents()[frame_key(data@)],
                    res,
                ) && routed_as(res, frame_key(data@), r)
            },
            forall|n: Seq<char>, w: MessageView|
                #![trigger frame_bytes(n, w)]
                !old(self).spec_closed() && data@ == frame_bytes(n, w) && fits_string(n) && wf_message(w)
                    ==> decode_frame_spec(data@) == Some((n, w)),
            forall|n: Seq<char>, t: Seq<char>, v: Option<Seq<char>>|
                #![trigger frame_bytes(n, MessageView::Auth(AuthMessageView::Token(t, v)))]
                !old(self).spec_closed() && data@ == frame_bytes(n, MessageView::Auth(AuthMessageView::Token(t, v)))
                    && fits_string(n) && wf_message(MessageView::Auth(AuthMessageView::Token(t, v))) ==> {
                    &&& old(self).documents().contains_key(n) ==> (r matches Ok(FrameRoute::Handled { action, .. })
                        && action matches DocAction::Authenticate { token: tok, .. } && tok@ == t)
                    &&& !old(self).documents().contains_key(n) ==> (r matches Ok(FrameRoute::Open { message, .. })
                        && message matches Message::Auth(AuthMessage::Token(tok, _)) && tok@ == t)
                },
    {
        if self.closed {
            return Err(ConnectionError::Closed);
        }
        let (key, msg) = match decode_frame(data) {
            Ok(x) => x,
            Err(e) => return Err(ConnectionError::Decoding(e)),
        };
        match check_payload(&msg) {
            Ok(()) => {},
            Err(e) => return Err(ConnectionError::Decoding(e)),
        }
        let existing = match self.document_connections.get(key.as_str()) {
            Some(c) => Some(c.duplicate()),
            None => None,
        };
        match existing {
            None => {
                let document_name = document_name_of_key(key.as_str());
                Ok(FrameRoute::Open { routing_key: key, document_name, message: msg })
            },
            Some(c) => {
                let mut c = c;
                let ghost before = c;
                let ghost m = msg@;
                let res = c.handle_msg(msg);
                let ghost after = c;
                self.document_connections.insert(key.clone(), c);
                let r = match res {
                    Ok(action) => Ok(FrameRoute::Handled { routing_key: key, action }),
                    Err(e) => Err(ConnectionError::HandleFailed(e)),
                };
                proof {
                    assert(handles_msg(self.documents()[key@], m, after, res) == handles_msg(before, m, after, res));
                    assert(handles_msg(old(self).documents()[key@], m, final(self).documents()[key@], res));
                    assert(routed_as(res, key@, r));
                }
                r
            },
        }
    }

    /// Opens the connection under a routing key once its document was
    /// fetched (`fetched`), and takes in the message that asked for it; the
    /// connection stays open whatever the message leads to. A failed fetch
    /// opens nothing and is no error.
    pub fn open_session(&mut self, routing_key: String, fetched: bool, message: Message) -> (r: Result<Option<DocAction>, ConnectionError>)
        ensures
            final(self).spec_context() == old(self).spec_context(),
            final(self).spec_closed() == old(self).spec_closed(),
            final(self).spec_socket_id() == old(self).spec_socket_id(),
            !fetched ==> (r matches Ok(None) && final(self).documents() == old(self).documents()),
            fetched ==> {
                &&& final(self).documents().contains_key(routing_key@)
                &&& final(self).documents() == old(self).documents().insert(routing_key@, final(self).documents()[routing_key@])
                &&& exists|o: DocConnection, res: Result<DocAction, SyncError>|
                    o.is_fresh(routing_key@) && #[trigger] handles_msg(o, message@, final(self).documents()[routing_key@], res)
                    && opened_as(res, r)
            },
    {
        if !fetched {
            return Ok(None);
        }
        let mut c = DocConnection::new(routing_key.clone());
        let ghost before = c;
        let ghost m = message@;
        let res = c.handle_msg(message);
        let ghost after = c;
        self.document_connections.insert(routing_key, c);
        let r = match res {
            Ok(action) => Ok(Some(action)),
            Err(e) => Err(ConnectionError::HandleFailed(e)),
        };
        proof {
            assert(before.is_fresh(routing_key@) && handles_msg(before, m, after, res) && opened_as(res, r));
        }
        r
    }

    /// Hands an authentication answer to the connection under a routing
    /// key; none when there is no such connection. A refusal is reported as
    /// `HandleFailed`.
    pub fn finish_session_auth(
        &mut self,
        routing_key: &str,
        answer: Result<DocConnectionConfig, anyhow::Error>,
        has_awareness_states: bool,
    ) -> (r: Option<(Vec<AuthReply>, Result<(), ConnectionError>)>)
        ensures
            final(self).spec_context() == old(self).spec_context(),
            final(self).spec_closed() == old(self).spec_closed(),
            final(self).spec_socket_id() == old(self).spec_socket_id(),
            !old(self).documents().contains_key(routing_key@) ==> r is None && final(self).documents() == old(self).documents(),
            old(self).documents().contains_key(routing_key@) ==> {
                &&& r is Some
                &&& final(self).documents().contains_key(routing_key@)
                &&& final(self).documents() == old(self).documents().insert(routing_key@, final(self).documents()[routing_key@])
                &&& exists|res: Result<(), SyncError>| #[trigger] finishes_auth(
                    old(self).documents()[routing_key@],
                    answer,
                    has_awareness_states,
                    final(self).documents()[routing_key@],
                    ((r->0).0, res),
                ) && finished_as(res, (r->0).1)
            },
    {
        let existing = match self.document_connections.get(routing_key) {
            Some(c) => Some(c.duplicate()),
            None => None,
        };
        match existing {
            None => None,
            Some(c) => {
                let mut c = c;
                let ghost before = c;
                let ghost ans = answer;
                let (replies, res) = c.finish_auth(answer, has_awareness_states);
                let ghost after = c;
                self.document_connections.insert(routing_key.to_owned(), c);
                let out = match res {
                    Ok(()) => Ok(()),
                    Err(e) => Err(ConnectionError::HandleFailed(e)),
                };
                proof {
                    assert(finishes_auth(before, ans, has_awareness_states, after, (replies, res)));
                    assert(finishes_auth(old(self).documents()[routing_key@], ans, has_awareness_states, after, (replies, res)));
                    assert(finished_as(res, out));
                }
                let r = Some((replies, out));
                proof {
                    assert(self.documents()[routing_key@] == after);
                    assert(finishes_auth(
                        old(self).documents()[routing_key@],
                        answer,
                        has_awareness_states,
                        self.documents()[routing_key@],
                        ((r->0).0, res),
                    ) && finished_as(res, (r->0).1));
                }
                r
            },
        }
    }

    /// Closes the session under a routing key, as when its connection goes
    /// away: it relays nothing more. Returns the awareness client whose state
    /// is to be removed (the first one it announced alone), if any; none when
    /// no session is open under the key.
    pub fn close_session(&mut self, routing_key: &str) -> (r: Option<u64>)
        ensures
            final(self).spec_context() == old(self).spec_context(),
            final(self).spec_closed() == old(self).spec_closed(),
            final(self).spec_socket_id() == old(self).spec_socket_id(),
            !old(self).documents().contains_key(routing_key@) ==> r is None && final(self).documents() == old(self).documents(),
            old(self).documents().contains_key(routing_key@) ==> {
                let before = old(self).documents()[routing_key@];
                let after = final(self).documents()[routing_key@];
                &&& r == before.spec_client_id()
                &&& final(self).documents().contains_key(routing_key@)
                &&& final(self).documents() == old(self).documents().insert(routing_key@, after)
                &&& after.spec_closed()
                &&& after.spec_doc_name() == before.spec_doc_name()
                &&& after.spec_authorization() == before.spec_authorization()
                &&& after.spec_client_id() == before.spec_client_id()
            },
    {
        let existing = match self.document_connections.get(routing_key) {
            Some(c) => Some(c.duplicate()),
            None => None,
        };
        match existing {
            None => None,
            Some(c) => {
                let mut c = c;
                let r = c.close();
                self.document_connections.insert(routing_key.to_owned(), c);
                r
            },
        }
    }
}

} // verus!
