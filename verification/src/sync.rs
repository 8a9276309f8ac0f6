//! Messages of the Hocuspocus/Yjs sync protocol and their binary form.
use vstd::prelude::*;
use vstd::utf8::*;
use crate::lib0::{
    at_end, buf_field, fits_length, has_field_at, lemma_at_end_field, lemma_at_end_split,
    lemma_buf_reads_back, lemma_field_nonempty, lemma_var_u8_len, lemma_var_u8_reads_back, lib0_buf, lib0_var_u8, read_buf, read_string,
    read_var_u8, string_field, unexpected_value, var_u8_bytes, write_buf, write_raw_u8,
    write_string, write_var_u8, DecodeError,
};

verus! {

broadcast use vstd::utf8::encode_utf8_valid_utf8, vstd::utf8::encode_utf8_decode_utf8;

/// Tag of a sync message.
pub const MSG_SYNC: u8 = 0;
/// Tag of an awareness update.
pub const MSG_AWARENESS: u8 = 1;
/// Tag of an authentication message.
pub const MSG_AUTH: u8 = 2;
/// Tag of an awareness query.
pub const MSG_QUERY_AWARENESS: u8 = 3;
/// Tag of a sync-status message.
pub const MSG_SYNC_STATUS: u8 = 7;

/// Sub-tag of a sync step 1 (a state vector).
pub const MSG_SYNC_STEP_1: u8 = 0;
/// Sub-tag of a sync step 2 (a document update answering a state vector).
pub const MSG_SYNC_STEP_2: u8 = 1;
/// Sub-tag of an incremental document update.
pub const MSG_SYNC_UPDATE: u8 = 2;

/// Sub-tag of an authentication request that carries a token.
pub const AUTH_TOKEN: u8 = 0;
/// Sub-tag of an authentication refusal.
pub const PERMISSION_DENIED: u8 = 1;
/// Sub-tag of an authentication grant.
pub const AUTHENTICATED: u8 = 2;

/// A step of the Yjs document synchronisation.
#[derive(Debug, Clone, PartialEq, Eq)]
pub enum SyncMessage {
    /// The sender's encoded state vector.
    SyncStep1(Vec<u8>),
    /// An encoded update answering a state vector.
    SyncStep2(Vec<u8>),
    /// An encoded incremental update.
    Update(Vec<u8>),
}

/// An authentication exchange.
#[derive(Debug, Clone, PartialEq, Eq)]
pub enum AuthMessage {
    /// A client's token, optionally followed by the provider's version.
    Token(String, Option<String>),
    /// The server refuses access, with a reason.
    PermissionDenied(String),
    /// The server grants access, with its scope.
    Authenticated(String),
}

/// A protocol message (the part of a frame after the document name).
#[derive(Debug, Clone, PartialEq, Eq)]
pub enum Message {
    Sync(SyncMessage),
    /// An encoded awareness update.
    Awareness(Vec<u8>),
    Auth(AuthMessage),
    AwarenessQuery,
    SyncStatus(bool),
    Custom(u8, Vec<u8>),
}

pub enum SyncMessageView {
    SyncStep1(Seq<u8>),
    SyncStep2(Seq<u8>),
    Update(Seq<u8>),
}

pub enum AuthMessageView {
    Token(Seq<char>, Option<Seq<char>>),
    PermissionDenied(Seq<char>),
    Authenticated(Seq<char>),
}

pub enum MessageView {
    Sync(SyncMessageView),
    Awareness(Seq<u8>),
    Auth(AuthMessageView),
    AwarenessQuery,
    SyncStatus(bool),
    Custom(u8, Seq<u8>),
}

impl View for SyncMessage {
    type V = SyncMessageView;

    open spec fn view(&self) -> SyncMessageView {
        match self {
            SyncMessage::SyncStep1(b) => SyncMessageView::SyncStep1(b@),
            SyncMessage::SyncStep2(b) => SyncMessageView::SyncStep2(b@),
            SyncMessage::Update(b) => SyncMessageView::Update(b@),
        }
    }
}

impl View for AuthMessage {
    type V = AuthMessageView;

    open spec fn view(&self) -> AuthMessageView {
        match self {
            AuthMessage::Token(t, v) => AuthMessageView::Token(
                t@,
                match v {
                    Some(v) => Some(v@),
                    None => None,
                },
            ),
            AuthMessage::PermissionDenied(r) => AuthMessageView::PermissionDenied(r@),
            AuthMessage::Authenticated(s) => AuthMessageView::Authenticated(s@),
        }
    }
}

impl View for Message {
    type V = MessageView;

    open spec fn view(&self) -> MessageView {
        match self {
            Message::Sync(m) => MessageView::Sync(m@),
            Message::Awareness(b) => MessageView::Awareness(b@),
            Message::Auth(a) => MessageView::Auth(a@),
            Message::AwarenessQuery => MessageView::AwarenessQuery,
            Message::SyncStatus(b) => MessageView::SyncStatus(*b),
            Message::Custom(t, b) => MessageView::Custom(*t, b@),
        }
    }
}

/// Binary form of a sync step.
pub open spec fn encode_sync(m: SyncMessageView) -> Seq<u8> {
    match m {
        SyncMessageView::SyncStep1(b) => var_u8_bytes(MSG_SYNC_STEP_1) + buf_field(b),
        SyncMessageView::SyncStep2(b) => var_u8_bytes(MSG_SYNC_STEP_2) + buf_field(b),
        SyncMessageView::Update(b) => var_u8_bytes(MSG_SYNC_UPDATE) + buf_field(b),
    }
}

pub open spec fn optional_string_field(s: Option<Seq<char>>) -> Seq<u8> {
    match s {
        Some(s) => string_field(s),
        None => Seq::empty(),
    }
}

/// Binary form of an authentication message.
pub open spec fn encode_auth(m: AuthMessageView) -> Seq<u8> {
    match m {
        AuthMessageView::Token(t, v) => var_u8_bytes(AUTH_TOKEN) + string_field(t)
            + optional_string_field(v),
        AuthMessageView::PermissionDenied(r) => var_u8_bytes(PERMISSION_DENIED) + string_field(r),
        AuthMessageView::Authenticated(s) => var_u8_bytes(AUTHENTICATED) + string_field(s),
    }
}

/// Binary form of a message.
pub open spec fn encode_message(m: MessageView) -> Seq<u8> {
    match m {
        MessageView::Sync(s) => var_u8_bytes(MSG_SYNC) + encode_sync(s),
        MessageView::Awareness(b) => var_u8_bytes(MSG_AWARENESS) + buf_field(b),
        MessageView::Auth(a) => var_u8_bytes(MSG_AUTH) + encode_auth(a),
        MessageView::AwarenessQuery => var_u8_bytes(MSG_QUERY_AWARENESS),
        MessageView::SyncStatus(b) => var_u8_bytes(MSG_SYNC_STATUS) + var_u8_bytes(
            if b { 1u8 } else { 0u8 },
        ),
        MessageView::Custom(t, b) => seq![t] + buf_field(b),
    }
}


/// What `yrs` reads as a string at `pos`: a buffer that is valid UTF-8.
pub open spec fn string_at(data: Seq<u8>, pos: nat) -> Option<(Seq<char>, nat)> {
    match lib0_buf(data, pos) {
        Some((b, q)) => if valid_utf8(b) {
            Some((decode_utf8(b), q))
        } else {
            None
        },
        None => None,
    }
}

/// Decoding of a sync step at `pos`: the step and the offset after it.
pub open spec fn decode_sync_at(data: Seq<u8>, pos: nat) -> Option<(SyncMessageView, nat)> {
    match lib0_var_u8(data, pos) {
        Some((tag, p)) => if tag == MSG_SYNC_STEP_1 || tag == MSG_SYNC_STEP_2 || tag
            == MSG_SYNC_UPDATE {
            match lib0_buf(data, p) {
                Some((b, q)) => Some(
                    (
                        if tag == MSG_SYNC_STEP_1 {
                            SyncMessageView::SyncStep1(b)
                        } else if tag == MSG_SYNC_STEP_2 {
                            SyncMessageView::SyncStep2(b)
                        } else {
                            SyncMessageView::Update(b)
                        },
                        q,
                    ),
                ),
                None => None,
            }
        } else {
            None
        },
        None => None,
    }
}

/// Steps whose payload length the decoder reads back.
pub open spec fn wf_sync(m: SyncMessageView) -> bool {
    match m {
        SyncMessageView::SyncStep1(b) => fits_length(b.len()),
        SyncMessageView::SyncStep2(b) => fits_length(b.len()),
        SyncMessageView::Update(b) => fits_length(b.len()),
    }
}

pub open spec fn sync_tag(m: SyncMessageView) -> u8 {
    match m {
        SyncMessageView::SyncStep1(_) => MSG_SYNC_STEP_1,
        SyncMessageView::SyncStep2(_) => MSG_SYNC_STEP_2,
        SyncMessageView::Update(_) => MSG_SYNC_UPDATE,
    }
}

pub open spec fn sync_payload(m: SyncMessageView) -> Seq<u8> {
    match m {
        SyncMessageView::SyncStep1(b) => b,
        SyncMessageView::SyncStep2(b) => b,
        SyncMessageView::Update(b) => b,
    }
}

proof fn lemma_sync_layout(data: Seq<u8>, pos: int, m: SyncMessageView)
    requires
        at_end(data, pos, encode_sync(m)),
    ensures
        has_field_at(data, pos, var_u8_bytes(sync_tag(m))),
        has_field_at(data, pos + 1, buf_field(sync_payload(m))),
        pos + 1 + buf_field(sync_payload(m)).len() == data.len(),
{
    lemma_var_u8_len(sync_tag(m));
    lemma_at_end_split(data, pos, var_u8_bytes(sync_tag(m)), buf_field(sync_payload(m)));
    lemma_at_end_field(data, pos + 1, buf_field(sync_payload(m)));
}

impl SyncMessage {
    /// Appends the binary form of this step.
    pub fn encode(&self, buf: &mut Vec<u8>)
        ensures
            final(buf)@ == old(buf)@ + encode_sync(self@),
            self@ matches SyncMessageView::SyncStep1(b) ==> final(buf)@ == old(buf)@ + seq![0u8] + buf_field(b),
            self@ matches SyncMessageView::SyncStep2(b) ==> final(buf)@ == old(buf)@ + seq![1u8] + buf_field(b),
            self@ matches SyncMessageView::Update(b) ==> final(buf)@ == old(buf)@ + seq![2u8] + buf_field(b),
    {
        let ghost start = buf@;
        match self {
            SyncMessage::SyncStep1(b) => {
                write_var_u8(buf, MSG_SYNC_STEP_1);
                write_buf(buf, b.as_slice());
            },
            SyncMessage::SyncStep2(b) => {
                write_var_u8(buf, MSG_SYNC_STEP_2);
                write_buf(buf, b.as_slice());
            },
            SyncMessage::Update(b) => {
                write_var_u8(buf, MSG_SYNC_UPDATE);
                write_buf(buf, b.as_slice());
            },
        }
        assert(buf@ =~= start + encode_sync(self@));
        proof {
            law_sync_step_bytes(sync_payload(self@));
            assert(start + (seq![0u8] + buf_field(sync_payload(self@))) =~= start + seq![0u8] + buf_field(sync_payload(self@)));
            assert(start + (seq![1u8] + buf_field(sync_payload(self@))) =~= start + seq![1u8] + buf_field(sync_payload(self@)));
            assert(start + (seq![2u8] + buf_field(sync_payload(self@))) =~= start + seq![2u8] + buf_field(sync_payload(self@)));
        }
    }

    /// Decodes a step at `pos`; a step whose binary form runs to the end of
    /// `data` decodes back to itself.
    pub fn decode_at(data: &[u8], pos: usize) -> (r: Result<(SyncMessage, usize), DecodeError>)
        ensures
            r is Ok <==> decode_sync_at(data@, pos as nat) is Some,
            r matches Ok((m, next)) ==> decode_sync_at(data@, pos as nat) == Some((m@, next as nat))
                && next <= data@.len(),
            forall|s: SyncMessageView|
                #![trigger encode_sync(s)]
                at_end(data@, pos as int, encode_sync(s)) && wf_sync(s) ==> (r matches Ok((m, next))
                    && m@ == s && next == data@.len()),
    {
        let (tag, p) = match read_var_u8(data, pos) {
            Ok(x) => x,
            Err(e) => {
                proof {
                    assert forall|s: SyncMessageView|
                        #![trigger encode_sync(s)]
                        at_end(data@, pos as int, encode_sync(s)) && wf_sync(s) implies false by {
                        lemma_sync_layout(data@, pos as int, s);
                    }
                }
                return Err(e);
            },
        };
        if tag != MSG_SYNC_STEP_1 && tag != MSG_SYNC_STEP_2 && tag != MSG_SYNC_UPDATE {
            proof {
                assert forall|s: SyncMessageView|
                    #![trigger encode_sync(s)]
                    at_end(data@, pos as int, encode_sync(s)) && wf_sync(s) implies false by {
                    lemma_sync_layout(data@, pos as int, s);
                }
            }
            return Err(unexpected_value());
        }
        let (b, q) = match read_buf(data, p) {
            Ok(x) => x,
            Err(e) => {
                proof {
                    assert forall|s: SyncMessageView|
                        #![trigger encode_sync(s)]
                        at_end(data@, pos as int, encode_sync(s)) && wf_sync(s) implies false by {
                        lemma_sync_layout(data@, pos as int, s);
                        lemma_var_u8_len(sync_tag(s));
                    }
                }
                return Err(e);
            },
        };
        let m = if tag == MSG_SYNC_STEP_1 {
            SyncMessage::SyncStep1(b)
        } else if tag == MSG_SYNC_STEP_2 {
            SyncMessage::SyncStep2(b)
        } else {
            SyncMessage::Update(b)
        };
        proof {
            assert forall|s: SyncMessageView|
                #![trigger encode_sync(s)]
                at_end(data@, pos as int, encode_sync(s)) && wf_sync(s) implies m@ == s && q
                == data@.len() by {
                lemma_sync_layout(data@, pos as int, s);
                lemma_var_u8_len(sync_tag(s));
            }
        }
        Ok((m, q))
    }
}


/// Decoding of an authentication message at `pos`. A token is optionally
/// followed by the provider's version, when bytes remain.
pub open spec fn decode_auth_at(data: Seq<u8>, pos: nat) -> Option<(AuthMessageView, nat)> {
    match lib0_var_u8(data, pos) {
        Some((tag, p)) => if tag == AUTH_TOKEN {
            match string_at(data, p) {
                Some((t, q)) => if q >= data.len() {
                    Some((AuthMessageView::Token(t, None), q))
                } else {
                    match string_at(data, q) {
                        Some((v, r)) => Some((AuthMessageView::Token(t, Some(v)), r)),
                        None => None,
                    }
                },
                None => None,
            }
        } else if tag == PERMISSION_DENIED {
            match string_at(data, p) {
                Some((r, q)) => Some((AuthMessageView::PermissionDenied(r), q)),
                None => None,
            }
        } else if tag == AUTHENTICATED {
            match string_at(data, p) {
                Some((sc, q)) => Some((AuthMessageView::Authenticated(sc), q)),
                None => None,
            }
        } else {
            None
        },
        None => None,
    }
}

pub open spec fn fits_string(s: Seq<char>) -> bool {
    fits_length(encode_utf8(s).len())
}

/// Authentication messages whose strings the decoder reads back.
pub open spec fn wf_auth(m: AuthMessageView) -> bool {
    match m {
        AuthMessageView::Token(t, v) => fits_string(t) && match v {
            Some(v) => fits_string(v),
            None => true,
        },
        AuthMessageView::PermissionDenied(r) => fits_string(r),
        AuthMessageView::Authenticated(sc) => fits_string(sc),
    }
}

pub open spec fn auth_tag(m: AuthMessageView) -> u8 {
    match m {
        AuthMessageView::Token(_, _) => AUTH_TOKEN,
        AuthMessageView::PermissionDenied(_) => PERMISSION_DENIED,
        AuthMessageView::Authenticated(_) => AUTHENTICATED,
    }
}

/// The first string of an authentication message.
pub open spec fn auth_text(m: AuthMessageView) -> Seq<char> {
    match m {
        AuthMessageView::Token(t, _) => t,
        AuthMessageView::PermissionDenied(r) => r,
        AuthMessageView::Authenticated(sc) => sc,
    }
}

pub open spec fn auth_version(m: AuthMessageView) -> Option<Seq<char>> {
    match m {
        AuthMessageView::Token(_, v) => v,
        _ => None,
    }
}

proof fn lemma_auth_layout(data: Seq<u8>, pos: int, m: AuthMessageView)
    requires
        at_end(data, pos, encode_auth(m)),
    ensures
        has_field_at(data, pos, var_u8_bytes(auth_tag(m))),
        has_field_at(data, pos + 1, string_field(auth_text(m))),
        at_end(data, pos + 1 + string_field(auth_text(m)).len(), optional_string_field(auth_version(m))),
        auth_version(m) is None ==> pos + 1 + string_field(auth_text(m)).len() == data.len(),
        auth_version(m) matches Some(v) ==> pos + 1 + string_field(auth_text(m)).len() < data.len()
            && has_field_at(data, pos + 1 + string_field(auth_text(m)).len(), string_field(v)),
{
    let t = var_u8_bytes(auth_tag(m));
    let f = string_field(auth_text(m));
    let o = optional_string_field(auth_version(m));
    lemma_var_u8_len(auth_tag(m));
    assert(encode_auth(m) =~= t + (f + o));
    lemma_at_end_split(data, pos, t, f + o);
    lemma_at_end_split(data, pos + 1, f, o);
    match auth_version(m) {
        Some(v) => {
            lemma_field_nonempty(v, Seq::empty());
            lemma_at_end_field(data, pos + 1 + f.len(), string_field(v));
        },
        None => {
        },
    }
}

impl AuthMessage {
    /// Appends the binary form of this authentication message.
    pub fn encode(&self, buf: &mut Vec<u8>)
        ensures
            final(buf)@ == old(buf)@ + encode_auth(self@),
    {
        let ghost start = buf@;
        match self {
            AuthMessage::Token(t, v) => {
                write_var_u8(buf, AUTH_TOKEN);
                write_string(buf, t.as_str());
                match v {
                    Some(v) => write_string(buf, v.as_str()),
                    None => {},
                }
            },
            AuthMessage::PermissionDenied(r) => {
                write_var_u8(buf, PERMISSION_DENIED);
                write_string(buf, r.as_str());
            },
            AuthMessage::Authenticated(sc) => {
                write_var_u8(buf, AUTHENTICATED);
                write_string(buf, sc.as_str());
            },
        }
        assert(buf@ =~= start + encode_auth(self@));
    }

    /// Decodes an authentication message at `pos`; one whose binary form runs
    /// to the end of `data` decodes back to itself.
    pub fn decode_at(data: &[u8], pos: usize) -> (r: Result<(AuthMessage, usize), DecodeError>)
        ensures
            r is Ok <==> decode_auth_at(data@, pos as nat) is Some,
            r matches Ok((m, next)) ==> decode_auth_at(data@, pos as nat) == Some((m@, next as nat))
                && next <= data@.len(),
            forall|a: AuthMessageView|
                #![trigger encode_auth(a)]
                at_end(data@, pos as int, encode_auth(a)) && wf_auth(a) ==> (r matches Ok((m, next))
                    && m@ == a && next == data@.len()),
    {
        let (tag, p) = match read_var_u8(data, pos) {
            Ok(x) => x,
            Err(e) => {
                proof {
                    assert forall|a: AuthMessageView|
                        #![trigger encode_auth(a)]
                        at_end(data@, pos as int, encode_auth(a)) && wf_auth(a) implies false by {
                        lemma_auth_layout(data@, pos as int, a);
                    }
                }
                return Err(e);
            },
        };
        if tag != AUTH_TOKEN && tag != PERMISSION_DENIED && tag != AUTHENTICATED {
            proof {
                assert forall|a: AuthMessageView|
                    #![trigger encode_auth(a)]
                    at_end(data@, pos as int, encode_auth(a)) && wf_auth(a) implies false by {
                    lemma_auth_layout(data@, pos as int, a);
                }
            }
            return Err(unexpected_value());
        }
        let (text, q) = match read_string(data, p) {
            Ok(x) => x,
            Err(e) => {
                proof {
                    assert forall|a: AuthMessageView|
                        #![trigger encode_auth(a)]
                        at_end(data@, pos as int, encode_auth(a)) && wf_auth(a) implies false by {
                        lemma_auth_layout(data@, pos as int, a);
                        lemma_var_u8_len(auth_tag(a));
                    }
                }
                return Err(e);
            },
        };
        if tag == PERMISSION_DENIED {
            proof {
                assert forall|a: AuthMessageView|
                    #![trigger encode_auth(a)]
                    at_end(data@, pos as int, encode_auth(a)) && wf_auth(a) implies AuthMessage::PermissionDenied(text)@ == a
                    && q == data@.len() by {
                    lemma_auth_layout(data@, pos as int, a);
                    lemma_var_u8_len(auth_tag(a));
                }
            }
            return Ok((AuthMessage::PermissionDenied(text), q));
        }
        if tag == AUTHENTICATED {
            proof {
                assert forall|a: AuthMessageView|
                    #![trigger encode_auth(a)]
                    at_end(data@, pos as int, encode_auth(a)) && wf_auth(a) implies AuthMessage::Authenticated(text)@ == a
                    && q == data@.len() by {
                    lemma_auth_layout(data@, pos as int, a);
                    lemma_var_u8_len(auth_tag(a));
                }
            }
            return Ok((AuthMessage::Authenticated(text), q));
        }
        if q >= data.len() {
            proof {
                assert forall|a: AuthMessageView|
                    #![trigger encode_auth(a)]
                    at_end(data@, pos as int, encode_auth(a)) && wf_auth(a) implies AuthMessage::Token(text, None)@ == a
                    && q == data@.len() by {
                    lemma_auth_layout(data@, pos as int, a);
                    lemma_var_u8_len(auth_tag(a));
                }
            }
            return Ok((AuthMessage::Token(text, None), q));
        }
        let (version, r) = match read_string(data, q) {
            Ok(x) => x,
            Err(e) => {
                proof {
                    assert forall|a: AuthMessageView|
                        #![trigger encode_auth(a)]
                        at_end(data@, pos as int, encode_auth(a)) && wf_auth(a) implies false by {
                        lemma_auth_layout(data@, pos as int, a);
                        lemma_var_u8_len(auth_tag(a));
                    }
                }
                return Err(e);
            },
        };
        proof {
            assert forall|a: AuthMessageView|
                #![trigger encode_auth(a)]
                at_end(data@, pos as int, encode_auth(a)) && wf_auth(a) implies AuthMessage::Token(text, Some(version))@ == a
                && r == data@.len() by {
                lemma_auth_layout(data@, pos as int, a);
                lemma_var_u8_len(auth_tag(a));
            }
        }
        Ok((AuthMessage::Token(text, Some(version)), r))
    }
}


/// Decoding of a message at `pos`: the message and the offset after it.
/// Tags that name no message of this protocol carry a buffer (`Custom`).
pub open spec fn decode_message_at(data: Seq<u8>, pos: nat) -> Option<(MessageView, nat)> {
    match lib0_var_u8(data, pos) {
        Some((tag, p)) => if tag == MSG_SYNC {
            match decode_sync_at(data, p) {
                Some((m, q)) => Some((MessageView::Sync(m), q)),
                None => None,
            }
        } else if tag == MSG_AWARENESS {
            match lib0_buf(data, p) {
                Some((b, q)) => Some((MessageView::Awareness(b), q)),
                None => None,
            }
        } else if tag == MSG_AUTH {
            match decode_auth_at(data, p) {
                Some((a, q)) => Some((MessageView::Auth(a), q)),
                None => None,
            }
        } else if tag == MSG_QUERY_AWARENESS {
            Some((MessageView::AwarenessQuery, p))
        } else if tag == MSG_SYNC_STATUS {
            match lib0_var_u8(data, p) {
                Some((v, q)) => Some((MessageView::SyncStatus(v == 1), q)),
                None => None,
            }
        } else {
            match lib0_buf(data, p) {
                Some((b, q)) => Some((MessageView::Custom(tag, b), q)),
                None => None,
            }
        },
        None => None,
    }
}

/// Tags that name a message of this protocol.
pub open spec fn is_known_tag(t: u8) -> bool {
    t == MSG_SYNC || t == MSG_AWARENESS || t == MSG_AUTH || t == MSG_QUERY_AWARENESS || t
        == MSG_SYNC_STATUS
}

/// Messages that decode back to themselves: payload lengths of 32 bits, and
/// custom tags below 128 that name no other message.
pub open spec fn wf_message(m: MessageView) -> bool {
    match m {
        MessageView::Sync(s) => wf_sync(s),
        MessageView::Awareness(b) => fits_length(b.len()),
        MessageView::Auth(a) => wf_auth(a),
        MessageView::AwarenessQuery => true,
        MessageView::SyncStatus(_) => true,
        MessageView::Custom(t, b) => t < 128 && !is_known_tag(t) && fits_length(b.len()),
    }
}

pub open spec fn message_tag(m: MessageView) -> u8 {
    match m {
        MessageView::Sync(_) => MSG_SYNC,
        MessageView::Awareness(_) => MSG_AWARENESS,
        MessageView::Auth(_) => MSG_AUTH,
        MessageView::AwarenessQuery => MSG_QUERY_AWARENESS,
        MessageView::SyncStatus(_) => MSG_SYNC_STATUS,
        MessageView::Custom(t, _) => t,
    }
}

/// The bytes of a message after its tag.
pub open spec fn message_body(m: MessageView) -> Seq<u8> {
    match m {
        MessageView::Sync(s) => encode_sync(s),
        MessageView::Awareness(b) => buf_field(b),
        MessageView::Auth(a) => encode_auth(a),
        MessageView::AwarenessQuery => Seq::empty(),
        MessageView::SyncStatus(b) => var_u8_bytes(if b { 1u8 } else { 0u8 }),
        MessageView::Custom(_, b) => buf_field(b),
    }
}

proof fn lemma_message_layout(data: Seq<u8>, pos: int, m: MessageView)
    requires
        at_end(data, pos, encode_message(m)),
        wf_message(m),
    ensures
        has_field_at(data, pos, var_u8_bytes(message_tag(m))),
        at_end(data, pos + 1, message_body(m)),
        m is AwarenessQuery ==> pos + 1 == data.len(),
        m matches MessageView::SyncStatus(b) ==> has_field_at(
            data,
            pos + 1,
            var_u8_bytes(if b { 1u8 } else { 0u8 }),
        ) && pos + 2 == data.len(),
        m matches MessageView::Awareness(b) ==> has_field_at(data, pos + 1, buf_field(b)) && pos
            + 1 + buf_field(b).len() == data.len(),
        m matches MessageView::Custom(_, b) ==> has_field_at(data, pos + 1, buf_field(b)) && pos
            + 1 + buf_field(b).len() == data.len(),
{
    lemma_var_u8_len(message_tag(m));
    lemma_var_u8_len(1u8);
    lemma_var_u8_len(0u8);
    assert(encode_message(m) =~= var_u8_bytes(message_tag(m)) + message_body(m));
    lemma_at_end_split(data, pos, var_u8_bytes(message_tag(m)), message_body(m));
    lemma_at_end_field(data, pos + 1, message_body(m));
}

impl Message {
    /// Appends the binary form of this message.
    pub fn encode(&self, buf: &mut Vec<u8>)
        ensures
            final(buf)@ == old(buf)@ + encode_message(self@),
    {
        let ghost start = buf@;
        match self {
            Message::Sync(m) => {
                write_var_u8(buf, MSG_SYNC);
                m.encode(buf);
            },
            Message::Awareness(b) => {
                write_var_u8(buf, MSG_AWARENESS);
                write_buf(buf, b.as_slice());
            },
            Message::Auth(a) => {
                write_var_u8(buf, MSG_AUTH);
                a.encode(buf);
            },
            Message::AwarenessQuery => {
                write_var_u8(buf, MSG_QUERY_AWARENESS);
            },
            Message::SyncStatus(synced) => {
                write_var_u8(buf, MSG_SYNC_STATUS);
                write_var_u8(
                    buf,
                    if *synced {
                        1u8
                    } else {
                        0u8
                    },
                );
            },
            Message::Custom(tag, b) => {
                write_raw_u8(buf, *tag);
                write_buf(buf, b.as_slice());
            },
        }
        assert(buf@ =~= start + encode_message(self@));
    }

    /// The binary form of this message.
    pub fn encode_v1(&self) -> (r: Vec<u8>)
        ensures
            r@ == encode_message(self@),
    {
        let mut buf: Vec<u8> = Vec::new();
        self.encode(&mut buf);
        assert(buf@ =~= encode_message(self@));
        buf
    }

    /// Decodes a message at `pos`; a well-formed message whose binary form
    /// runs to the end of `data` decodes back to itself.
    pub fn decode_at(data: &[u8], pos: usize) -> (r: Result<(Message, usize), DecodeError>)
        ensures
            r is Ok <==> decode_message_at(data@, pos as nat) is Some,
            r matches Ok((m, next)) ==> decode_message_at(data@, pos as nat) == Some(
                (m@, next as nat),
            ) && next <= data@.len(),
            forall|w: MessageView|
                #![trigger encode_message(w)]
                at_end(data@, pos as int, encode_message(w)) && wf_message(w) ==> (r matches Ok(
                    (m, next),
                ) && m@ == w && next == data@.len()),
    {
        let (tag, p) = match read_var_u8(data, pos) {
            Ok(x) => x,
            Err(e) => {
                proof {
                    assert forall|w: MessageView|
                        #![trigger encode_message(w)]
                        at_end(data@, pos as int, encode_message(w)) && wf_message(w) implies false by {
                        lemma_message_layout(data@, pos as int, w);
                    }
                }
                return Err(e);
            },
        };
        if tag == MSG_SYNC {
            let res = SyncMessage::decode_at(data, p);
            proof {
                assert forall|w: MessageView|
                    #![trigger encode_message(w)]
                    at_end(data@, pos as int, encode_message(w)) && wf_message(w) implies (res matches Ok((m, next))
                    && MessageView::Sync(m@) == w && next == data@.len()) by {
                    lemma_message_layout(data@, pos as int, w);
                    lemma_var_u8_len(message_tag(w));
                    if let MessageView::Sync(s) = w {
                        assert(at_end(data@, p as int, encode_sync(s)));
                    }
                }
            }
            match res {
                Ok((m, q)) => Ok((Message::Sync(m), q)),
                Err(e) => Err(e),
            }
        } else if tag == MSG_AUTH {
            let res = AuthMessage::decode_at(data, p);
            proof {
                assert forall|w: MessageView|
                    #![trigger encode_message(w)]
                    at_end(data@, pos as int, encode_message(w)) && wf_message(w) implies (res matches Ok((m, next))
                    && MessageView::Auth(m@) == w && next == data@.len()) by {
                    lemma_message_layout(data@, pos as int, w);
                    lemma_var_u8_len(message_tag(w));
                    if let MessageView::Auth(a) = w {
                        assert(at_end(data@, p as int, encode_auth(a)));
                    }
                }
            }
            match res {
                Ok((m, q)) => Ok((Message::Auth(m), q)),
                Err(e) => Err(e),
            }
        } else if tag == MSG_QUERY_AWARENESS {
            proof {
                assert forall|w: MessageView|
                    #![trigger encode_message(w)]
                    at_end(data@, pos as int, encode_message(w)) && wf_message(w) implies MessageView::AwarenessQuery
                    == w && p == data@.len() by {
                    lemma_message_layout(data@, pos as int, w);
                    lemma_var_u8_len(message_tag(w));
                }
            }
            Ok((Message::AwarenessQuery, p))
        } else if tag == MSG_SYNC_STATUS {
            match read_var_u8(data, p) {
                Ok((v, q)) => {
                    proof {
                        assert forall|w: MessageView|
                            #![trigger encode_message(w)]
                            at_end(data@, pos as int, encode_message(w)) && wf_message(w) implies MessageView::SyncStatus(
                            v == 1,
                        ) == w && q == data@.len() by {
                            lemma_message_layout(data@, pos as int, w);
                            lemma_var_u8_len(message_tag(w));
                            lemma_var_u8_len(1u8);
                            lemma_var_u8_len(0u8);
                        }
                    }
                    Ok((Message::SyncStatus(v == 1), q))
                },
                Err(e) => {
                    proof {
                        assert forall|w: MessageView|
                            #![trigger encode_message(w)]
                            at_end(data@, pos as int, encode_message(w)) && wf_message(w) implies false by {
                            lemma_message_layout(data@, pos as int, w);
                            lemma_var_u8_len(message_tag(w));
                        }
                    }
                    Err(e)
                },
            }
        } else {
            match read_buf(data, p) {
                Ok((b, q)) => {
                    let m = if tag == MSG_AWARENESS {
                        Message::Awareness(b)
                    } else {
                        Message::Custom(tag, b)
                    };
                    proof {
                        assert forall|w: MessageView|
                            #![trigger encode_message(w)]
                            at_end(data@, pos as int, encode_message(w)) && wf_message(w) implies m@
                            == w && q == data@.len() by {
                            lemma_message_layout(data@, pos as int, w);
                            lemma_var_u8_len(message_tag(w));
                        }
                    }
                    Ok((m, q))
                },
                Err(e) => {
                    proof {
                        assert forall|w: MessageView|
                            #![trigger encode_message(w)]
                            at_end(data@, pos as int, encode_message(w)) && wf_message(w) implies false by {
                            lemma_message_layout(data@, pos as int, w);
                            lemma_var_u8_len(message_tag(w));
                        }
                    }
                    Err(e)
                },
            }
        }
    }
}

/// Each sync step goes out as its wire tag (the tag of the matching
/// `SyncType`: step 1 is 0, step 2 is 1, an update 2) followed by its
/// length-prefixed payload, and such bytes decode back to that step.
pub proof fn law_sync_step_bytes(b: Seq<u8>)
    ensures
        encode_sync(SyncMessageView::SyncStep1(b)) == seq![0u8] + buf_field(b),
        encode_sync(SyncMessageView::SyncStep2(b)) == seq![1u8] + buf_field(b),
        encode_sync(SyncMessageView::Update(b)) == seq![2u8] + buf_field(b),
        encode_sync(SyncMessageView::SyncStep1(b))[0] == crate::types::sync_type_tag(crate::types::SyncType::Step1),
        encode_sync(SyncMessageView::SyncStep2(b))[0] == crate::types::sync_type_tag(crate::types::SyncType::Step2),
        encode_sync(SyncMessageView::Update(b))[0] == crate::types::sync_type_tag(crate::types::SyncType::Update),
        fits_length(b.len()) ==> decode_sync_at(seq![0u8] + buf_field(b), 0) == Some(
            (SyncMessageView::SyncStep1(b), 1 + buf_field(b).len()),
        ),
        fits_length(b.len()) ==> decode_sync_at(seq![1u8] + buf_field(b), 0) == Some(
            (SyncMessageView::SyncStep2(b), 1 + buf_field(b).len()),
        ),
        fits_length(b.len()) ==> decode_sync_at(seq![2u8] + buf_field(b), 0) == Some(
            (SyncMessageView::Update(b), 1 + buf_field(b).len()),
        ),
{
    lemma_var_u8_len(0u8);
    lemma_var_u8_len(1u8);
    lemma_var_u8_len(2u8);
    if fits_length(b.len()) {
        let t: Seq<u8> = seq![0u8, 1u8, 2u8];
        assert forall|k: int| 0 <= k < 3 implies decode_sync_at(seq![t[k]] + buf_field(b), 0) == Some(
            (
                if k == 0 {
                    SyncMessageView::SyncStep1(b)
                } else if k == 1 {
                    SyncMessageView::SyncStep2(b)
                } else {
                    SyncMessageView::Update(b)
                },
                1 + buf_field(b).len(),
            ),
        ) by {
            let d = seq![t[k]] + buf_field(b);
            lemma_var_u8_len(t[k]);
            assert(d.subrange(0, 1) =~= var_u8_bytes(t[k]));
            lemma_var_u8_reads_back(d, 0, t[k]);
            assert(d.subrange(1, 1 + buf_field(b).len() as int) =~= buf_field(b));
            lemma_buf_reads_back(d, 1, b);
        }
        assert(t[0] == 0u8 && t[1] == 1u8 && t[2] == 2u8);
    }
}

} // verus!
