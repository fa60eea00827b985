//! Identifiers and the DIDComm message shapes.
use vstd::prelude::*;

use crate::endpoint::{valid_name, Endpoint};
use crate::errors::Error;
use crate::table::TableKey;

verus! {

/// What `Uuid::from_u128(v).to_string()` writes: the lowercase hyphenated form of `v`.
pub uninterp spec fn uuid_text(v: u128) -> Seq<char>;

/// Relies on uuid::Uuid::new_v4: a random 128-bit value whose version nibble is 4
/// and whose variant bits are `10`.
#[verifier::external_body]
pub(crate) fn random_uuid() -> (r: u128)
    ensures
        (r >> 76u128) & 0xfu128 == 4,
        (r >> 62u128) & 0x3u128 == 2,
{
    uuid::Uuid::new_v4().as_u128()
}

/// Relies on uuid::Uuid's `Display` (through `to_string`), which writes the
/// 36-character lowercase hyphenated form.
#[verifier::external_body]
fn uuid_to_string(v: u128) -> (r: String)
    ensures
        r@ == uuid_text(v),
        r@.len() == 36,
{
    uuid::Uuid::from_u128(v).to_string()
}

/// Opaque identifier of a protocol conversation.
#[derive(Debug, Clone, Hash, PartialEq, Eq)]
pub struct ThreadId {
    inner: String,
}

impl View for ThreadId {
    type V = Seq<char>;

    closed spec fn view(&self) -> Seq<char> {
        self.inner@
    }
}

impl TableKey for ThreadId {
    fn same_key(&self, other: &Self) -> (r: bool) {
        self.inner == other.inner
    }
}

impl ThreadId {
    /// A fresh identifier: the text of a random UUID.
    pub fn new() -> (r: ThreadId)
        ensures
            r@.len() == 36,
            exists|v: u128|
                r@ == uuid_text(v) && (v >> 76u128) & 0xfu128 == 4 && (v >> 62u128) & 0x3u128 == 2,
    {
        let v = random_uuid();
        ThreadId { inner: uuid_to_string(v) }
    }

    pub fn from_string(inner: String) -> (r: ThreadId)
        ensures
            r@ == inner@,
    {
        ThreadId { inner }
    }

    pub fn as_str(&self) -> (r: &str)
        ensures
            r@ == self@,
    {
        self.inner.as_str()
    }

    pub fn to_string(&self) -> (r: String)
        ensures
            r@ == self@,
    {
        self.inner.clone()
    }

    pub fn duplicate(&self) -> (r: ThreadId)
        ensures
            r@ == self@,
    {
        ThreadId { inner: self.inner.clone() }
    }
}

/// Identity of a peer, held as the bytes of its multihash.
#[derive(Debug, Clone, Hash, PartialEq, Eq)]
pub struct PeerId {
    bytes: Vec<u8>,
}

impl View for PeerId {
    type V = Seq<u8>;

    closed spec fn view(&self) -> Seq<u8> {
        self.bytes@
    }
}

impl PeerId {
    pub fn from_bytes(bytes: Vec<u8>) -> (r: PeerId)
        ensures
            r@ == bytes@,
    {
        PeerId { bytes }
    }

    pub fn to_bytes(&self) -> (r: Vec<u8>)
        ensures
            r@ == self@,
    {
        self.bytes.clone()
    }
}

/// The outer wire frame: the endpoint and a serialized plaintext message.
#[derive(Debug, Clone)]
pub struct RequestMessage {
    pub endpoint: Endpoint,
    pub data: Vec<u8>,
}

impl RequestMessage {
    pub fn new(name: &str, data: Vec<u8>) -> (r: Result<Self, Error>)
        ensures
            valid_name(name@) ==> (r matches Ok(m) && m.endpoint@ == (name@, false) && m.data@
                == data@),
            !valid_name(name@) ==> r == Err::<Self, Error>(Error::InvalidEndpoint),
    {
        let endpoint = Endpoint::new(name)?;
        Ok(RequestMessage { endpoint, data })
    }
}

pub type ResponseMessage = Vec<u8>;

/// What a handler is handed besides its state: the input, the sending peer and
/// the endpoint the request came in on.
pub struct RequestContext<T> {
    pub input: T,
    pub peer: PeerId,
    pub endpoint: Endpoint,
}

impl<T> RequestContext<T> {
    pub fn new(input: T, peer: PeerId, endpoint: Endpoint) -> (r: Self)
        ensures
            r.input == input,
            r.peer == peer,
            r.endpoint == endpoint,
    {
        RequestContext { input, peer, endpoint }
    }

    pub fn convert<I>(self, input: I) -> (r: RequestContext<I>)
        ensures
            r.input == input,
            r.peer == self.peer,
            r.endpoint == self.endpoint,
    {
        RequestContext::new(input, self.peer, self.endpoint)
    }
}

/// A DIDComm plaintext message carrying a typed body.
#[derive(Debug, Clone)]
pub struct DidCommPlaintextMessage<T> {
    pub typ: String,
    pub id: ThreadId,
    pub thid: Option<ThreadId>,
    pub pthid: Option<ThreadId>,
    pub type_: String,
    pub from: String,
    pub to: String,
    pub created_time: u32,
    pub expires_time: u32,
    pub body: T,
}

/// The thread a message belongs to: its parent thread if it names one, else its own id.
pub open spec fn effective_thread(id: Seq<char>, thid: Option<Seq<char>>) -> Seq<char> {
    match thid {
        Some(t) => t,
        None => id,
    }
}

impl<T> DidCommPlaintextMessage<T> {
    pub open spec fn thid_view(&self) -> Option<Seq<char>> {
        match self.thid {
            Some(t) => Some(t@),
            None => None,
        }
    }

    pub fn new(id: ThreadId, type_: String, body: T) -> (r: Self)
        ensures
            r.id == id,
            r.type_ == type_,
            r.body == body,
            r.typ@.len() == 0,
            r.thid is None,
            r.pthid is None,
            r.from@.len() == 0,
            r.to@.len() == 0,
            r.created_time == 0,
            r.expires_time == 0,
    {
        DidCommPlaintextMessage {
            id,
            type_,
            body,
            typ: String::new(),
            thid: None,
            pthid: None,
            from: String::new(),
            to: String::new(),
            created_time: 0,
            expires_time: 0,
        }
    }

    pub fn thread_id(&self) -> (r: &ThreadId)
        ensures
            r@ == effective_thread(self.id@, self.thid_view()),
    {
        match self.thid.as_ref() {
            Some(thid) => thid,
            None => &self.id,
        }
    }
}

/// Can be returned from a hook to indicate that the protocol should immediately terminate.
/// It carries no cause: a hook is expected to send a problem report to the peer
/// before returning it.
pub struct DidCommTermination;

} // verus!
