//! The wire message: a tag byte, then either a length-prefixed UTF-8 identity or a payload
//! in its own encoding.
use crate::peer::{
    length_prefixed, read_length_prefixed, read_length_prefixed_at, Payload, PeerId, ReadFailure,
};
use crate::leb128::lemma_uleb128_read;
use vstd::prelude::*;
use vstd::string::{StringExecFns, StringSliceAdditionalSpecFns};
use vstd::utf8::*;

verus! {

broadcast use {encode_utf8_valid_utf8, encode_utf8_decode_utf8, decode_utf8_encode_utf8};

/// What a message says, with identities as characters and payloads as bytes.
pub enum MessageView {
    HelloFromInitiator(Seq<char>),
    HelloFromAcceptor(Seq<char>),
    Data(Seq<u8>),
}

impl MessageView {
    /// The byte lengths of the message's body fit the 64-bit length field.
    pub open spec fn fits(self) -> bool {
        match self {
            MessageView::HelloFromInitiator(id) => encode_utf8(id).len() <= u64::MAX,
            MessageView::HelloFromAcceptor(id) => encode_utf8(id).len() <= u64::MAX,
            MessageView::Data(p) => p.len() <= u64::MAX,
        }
    }
}

/// The tag byte of a hello from the party that opened the connection.
pub const TAG_HELLO_FROM_INITIATOR: u8 = 0;

/// The tag byte of a hello from the party that accepted the connection.
pub const TAG_HELLO_FROM_ACCEPTOR: u8 = 1;

/// The tag byte of a data message.
pub const TAG_DATA: u8 = 2;

/// The bytes of a message on the wire.
pub open spec fn encoding(m: MessageView) -> Seq<u8> {
    match m {
        MessageView::HelloFromInitiator(id) => seq![TAG_HELLO_FROM_INITIATOR] + length_prefixed(
            encode_utf8(id),
        ),
        MessageView::HelloFromAcceptor(id) => seq![TAG_HELLO_FROM_ACCEPTOR] + length_prefixed(
            encode_utf8(id),
        ),
        MessageView::Data(p) => seq![TAG_DATA] + length_prefixed(p),
    }
}

/// The two ways in which decoding fails.
pub enum DecodeFailure {
    /// More bytes may yet complete the message.
    Insufficient,
    /// The bytes cannot begin any message.
    Invalid,
}

/// How a failure to read a length-prefixed body counts for the whole message.
pub open spec fn failure_of(f: ReadFailure) -> DecodeFailure {
    match f {
        ReadFailure::Truncated => DecodeFailure::Insufficient,
        ReadFailure::TooLarge => DecodeFailure::Invalid,
    }
}

/// The identity that follows the tag byte of `s`.
pub open spec fn identity_after_tag(s: Seq<u8>) -> Result<Seq<char>, DecodeFailure> {
    match read_length_prefixed(s, 1) {
        Ok(b) => if valid_utf8(b) {
            Ok(decode_utf8(b))
        } else {
            Err(DecodeFailure::Invalid)
        },
        Err(f) => Err(failure_of(f)),
    }
}

/// The message at the start of `s`, or why there is none. Bytes after it are left alone.
pub open spec fn decoding(s: Seq<u8>) -> Result<MessageView, DecodeFailure> {
    if s.len() == 0 {
        Err(DecodeFailure::Insufficient)
    } else if s[0] == TAG_HELLO_FROM_INITIATOR {
        match identity_after_tag(s) {
            Ok(id) => Ok(MessageView::HelloFromInitiator(id)),
            Err(f) => Err(f),
        }
    } else if s[0] == TAG_HELLO_FROM_ACCEPTOR {
        match identity_after_tag(s) {
            Ok(id) => Ok(MessageView::HelloFromAcceptor(id)),
            Err(f) => Err(f),
        }
    } else if s[0] == TAG_DATA {
        match read_length_prefixed(s, 1) {
            Ok(p) => Ok(MessageView::Data(p)),
            Err(f) => Err(failure_of(f)),
        }
    } else {
        Err(DecodeFailure::Invalid)
    }
}

/// Why bytes could not be decoded into a message.
#[derive(Debug, PartialEq, Eq)]
pub enum DecodeError {
    /// The bytes end before a whole message: wait for more.
    InsufficientInput,
    /// The bytes cannot be a message; the text says why.
    InvalidFormat(String),
}

impl DecodeError {
    pub open spec fn failure(&self) -> DecodeFailure {
        match self {
            DecodeError::InsufficientInput => DecodeFailure::Insufficient,
            DecodeError::InvalidFormat(_) => DecodeFailure::Invalid,
        }
    }

    fn from_read(f: ReadFailure) -> (r: DecodeError)
        ensures
            r.failure() == failure_of(f),
    {
        match f {
            ReadFailure::Truncated => DecodeError::InsufficientInput,
            ReadFailure::TooLarge => DecodeError::InvalidFormat(
                String::from_str("length does not fit in 64 bits"),
            ),
        }
    }

    /// The error in words.
    pub fn message(&self) -> (r: String)
        ensures
            self matches DecodeError::InsufficientInput ==> r@ == "not enough input"@,
            self matches DecodeError::InvalidFormat(why) ==> r@ == "invalid input: "@ + why@,
    {
        match self {
            DecodeError::InsufficientInput => String::from_str("not enough input"),
            DecodeError::InvalidFormat(why) => String::from_str("invalid input: ").concat(
                why.as_str(),
            ),
        }
    }
}

/// Relies on `core::str::from_utf8`: it accepts exactly the slices that are valid UTF-8,
/// and the string it returns is made of the same bytes.
#[verifier::external_body]
fn str_from_utf8<'a>(b: &'a [u8]) -> (r: Option<&'a str>)
    ensures
        r is Some <==> valid_utf8(b@),
        r matches Some(s) ==> s.spec_bytes() == b@,
{
    core::str::from_utf8(b).ok()
}

/// Reads the length-prefixed UTF-8 identity that follows the tag byte of `data`.
fn identity_from(data: &[u8]) -> (r: Result<PeerId, DecodeError>)
    requires
        data@.len() >= 1,
    ensures
        r matches Ok(id) ==> identity_after_tag(data@) == Ok::<Seq<char>, DecodeFailure>(id@),
        r matches Err(e) ==> identity_after_tag(data@) == Err::<Seq<char>, DecodeFailure>(
            e.failure(),
        ),
{
    match read_length_prefixed_at(data, 1) {
        Err(f) => Err(DecodeError::from_read(f)),
        Ok(b) => match str_from_utf8(b) {
            Some(s) => Ok(PeerId::new(String::from_str(s))),
            None => Err(DecodeError::InvalidFormat(String::from_str("identity is not valid UTF-8"))),
        },
    }
}

/// Reading a length-prefixed byte string back from the end of its encoding gives it back.
proof fn lemma_read_length_prefixed(tag: u8, b: Seq<u8>)
    requires
        b.len() <= u64::MAX,
    ensures
        read_length_prefixed(seq![tag] + length_prefixed(b), 1) == Ok::<Seq<u8>, ReadFailure>(b),
{
    let n = b.len();
    let e = crate::leb128::uleb128(n);
    let k = e.len() as int;
    let s = seq![tag] + length_prefixed(b);
    assert(s.subrange(1, 1 + k) =~= e);
    lemma_uleb128_read(s, 1, n);
    assert(s.subrange(1 + k, 1 + k + n) =~= b);
}

/// Decoding the encoding of a message gives the message back.
pub proof fn lemma_decode_encode(m: MessageView)
    requires
        m.fits(),
    ensures
        decoding(encoding(m)) == Ok::<MessageView, DecodeFailure>(m),
{
    match m {
        MessageView::HelloFromInitiator(id) => {
            lemma_read_length_prefixed(TAG_HELLO_FROM_INITIATOR, encode_utf8(id));
        },
        MessageView::HelloFromAcceptor(id) => {
            lemma_read_length_prefixed(TAG_HELLO_FROM_ACCEPTOR, encode_utf8(id));
        },
        MessageView::Data(p) => {
            lemma_read_length_prefixed(TAG_DATA, p);
        },
    }
}

/// Bytes that start with no known tag are invalid, however they go on.
pub proof fn lemma_unknown_tag_invalid(s: Seq<u8>)
    requires
        s.len() > 0,
        s[0] != TAG_HELLO_FROM_INITIATOR,
        s[0] != TAG_HELLO_FROM_ACCEPTOR,
        s[0] != TAG_DATA,
    ensures
        decoding(s) == Err::<MessageView, DecodeFailure>(DecodeFailure::Invalid),
{
}

/// A message of the handshake protocol, as it crosses the connection.
#[derive(Debug, PartialEq, Eq)]
pub struct Message(MessageInner);

#[derive(Debug, PartialEq, Eq)]
pub(crate) enum MessageInner {
    HelloFromInitiator(PeerId),
    HelloFromAcceptor(PeerId),
    Data(Payload),
}

impl MessageInner {
    pub(crate) open spec fn view(&self) -> MessageView {
        match self {
            MessageInner::HelloFromInitiator(id) => MessageView::HelloFromInitiator(id@),
            MessageInner::HelloFromAcceptor(id) => MessageView::HelloFromAcceptor(id@),
            MessageInner::Data(p) => MessageView::Data(p@),
        }
    }
}

impl View for Message {
    type V = MessageView;

    closed spec fn view(&self) -> MessageView {
        self.0.view()
    }
}

impl Message {
    /// The first message of a handshake, from the party that opened the connection.
    pub fn hello_from_initiator(id: PeerId) -> (r: Message)
        ensures
            r@ == MessageView::HelloFromInitiator(id@),
    {
        Message(MessageInner::HelloFromInitiator(id))
    }

    /// The reply to the first message, from the party that accepted the connection.
    pub fn hello_from_acceptor(id: PeerId) -> (r: Message)
        ensures
            r@ == MessageView::HelloFromAcceptor(id@),
    {
        Message(MessageInner::HelloFromAcceptor(id))
    }

    /// A message that carries one application payload.
    pub fn data(payload: Payload) -> (r: Message)
        ensures
            r@ == MessageView::Data(payload@),
    {
        Message(MessageInner::Data(payload))
    }

    pub(crate) fn into_inner(self) -> (r: MessageInner)
        ensures
            r.view() == self@,
    {
        self.0
    }

    /// The bytes of the message on the wire.
    pub fn encode(&self) -> (r: Vec<u8>)
        ensures
            r@ == encoding(self@),
    {
        let tag: u8 = match &self.0 {
            MessageInner::HelloFromInitiator(_) => TAG_HELLO_FROM_INITIATOR,
            MessageInner::HelloFromAcceptor(_) => TAG_HELLO_FROM_ACCEPTOR,
            MessageInner::Data(_) => TAG_DATA,
        };
        let mut bytes: Vec<u8> = vec![tag];
        match &self.0 {
            MessageInner::HelloFromInitiator(id) => {
                crate::peer::push_length_prefixed(&mut bytes, id.as_str().as_bytes());
            },
            MessageInner::HelloFromAcceptor(id) => {
                crate::peer::push_length_prefixed(&mut bytes, id.as_str().as_bytes());
            },
            MessageInner::Data(payload) => {
                let body = payload.encode();
                bytes.extend_from_slice(body.as_slice());
            },
        }
        assert(bytes@ =~= encoding(self@));
        bytes
    }

    /// Decodes the message at the start of `data`.
    pub fn decode(data: &[u8]) -> (r: Result<Message, DecodeError>)
        ensures
            r matches Ok(m) ==> decoding(data@) == Ok::<MessageView, DecodeFailure>(m@),
            r matches Err(e) ==> decoding(data@) == Err::<MessageView, DecodeFailure>(e.failure()),
    {
        if data.len() == 0 {
            return Err(DecodeError::InsufficientInput);
        }
        let tag = data[0];
        if tag == TAG_HELLO_FROM_INITIATOR {
            match identity_from(data) {
                Ok(id) => Ok(Message(MessageInner::HelloFromInitiator(id))),
                Err(e) => Err(e),
            }
        } else if tag == TAG_HELLO_FROM_ACCEPTOR {
            match identity_from(data) {
                Ok(id) => Ok(Message(MessageInner::HelloFromAcceptor(id))),
                Err(e) => Err(e),
            }
        } else if tag == TAG_DATA {
            match Payload::parse(data, 1) {
                Ok(p) => Ok(Message(MessageInner::Data(p))),
                Err(f) => Err(DecodeError::from_read(f)),
            }
        } else {
            Err(DecodeError::InvalidFormat(String::from_str("invalid message type")))
        }
    }
}

} // verus!
