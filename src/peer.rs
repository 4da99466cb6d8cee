//! The values that a connection carries: identities, opaque payloads, and the envelopes
//! that pair a payload with its sender and recipient.
use crate::leb128::{decode_uleb128, encode_uleb128, read_uleb128, uleb128, UlebFailure};
use vstd::prelude::*;

verus! {

/// The stable identity of an endpoint: an opaque string, compared character by character.
#[derive(Debug, PartialEq, Eq)]
pub struct PeerId(String);

impl View for PeerId {
    type V = Seq<char>;

    closed spec fn view(&self) -> Seq<char> {
        self.0@
    }
}

impl PeerId {
    pub fn new(id: String) -> (r: PeerId)
        ensures
            r@ == id@,
    {
        PeerId(id)
    }

    pub fn as_str(&self) -> (r: &str)
        ensures
            r@ == self@,
    {
        self.0.as_str()
    }
}

impl Clone for PeerId {
    fn clone(&self) -> (r: PeerId)
        ensures
            r@ == self@,
    {
        PeerId(self.0.clone())
    }
}

/// An application payload: bytes that this crate carries but never interprets.
#[derive(Debug, PartialEq, Eq)]
pub struct Payload(Vec<u8>);

impl View for Payload {
    type V = Seq<u8>;

    closed spec fn view(&self) -> Seq<u8> {
        self.0@
    }
}

/// A byte string behind its ULEB128 length.
pub open spec fn length_prefixed(b: Seq<u8>) -> Seq<u8> {
    uleb128(b.len()) + b
}

/// Why a length-prefixed byte string cannot be read.
pub enum ReadFailure {
    /// The input ends before the byte string does.
    Truncated,
    /// The length does not fit in 64 bits.
    TooLarge,
}

/// The length-prefixed byte string that starts at index `i` of `s`, or why it cannot be read.
/// Bytes after it are left alone.
pub open spec fn read_length_prefixed(s: Seq<u8>, i: int) -> Result<Seq<u8>, ReadFailure> {
    match read_uleb128(s, i) {
        Err(UlebFailure::Truncated) => Err(ReadFailure::Truncated),
        Err(UlebFailure::TooLarge) => Err(ReadFailure::TooLarge),
        Ok((n, j)) => if j + n > s.len() {
            Err(ReadFailure::Truncated)
        } else {
            Ok(s.subrange(j, j + n))
        },
    }
}

/// Appends `b` behind its ULEB128 length to `out`.
pub fn push_length_prefixed(out: &mut Vec<u8>, b: &[u8])
    ensures
        final(out)@ == old(out)@ + length_prefixed(b@),
{
    encode_uleb128(out, b.len() as u64);
    let ghost before = out@;
    out.extend_from_slice(b);
    assert(out@ =~= before + b@);
}

/// Reads the length-prefixed byte string that starts at index `start` of `s`.
pub fn read_length_prefixed_at(s: &[u8], start: usize) -> (r: Result<&[u8], ReadFailure>)
    requires
        start <= s@.len(),
    ensures
        r matches Ok(b) ==> read_length_prefixed(s@, start as int) == Ok::<Seq<u8>, ReadFailure>(
            b@,
        ),
        r matches Err(f) ==> read_length_prefixed(s@, start as int) == Err::<Seq<u8>, ReadFailure>(
            f,
        ),
{
    match decode_uleb128(s, start) {
        Err(UlebFailure::Truncated) => Err(ReadFailure::Truncated),
        Err(UlebFailure::TooLarge) => Err(ReadFailure::TooLarge),
        Ok((n, j)) => {
            proof {
                crate::leb128::lemma_uleb128_in_bounds(s@, start as int);
            }
            if n > (s.len() - j) as u64 {
                Err(ReadFailure::Truncated)
            } else {
                Ok(vstd::slice::slice_subrange(s, j, j + n as usize))
            }
        },
    }
}

impl Payload {
    pub fn new(bytes: Vec<u8>) -> (r: Payload)
        ensures
            r@ == bytes@,
    {
        Payload(bytes)
    }

    pub fn as_bytes(&self) -> (r: &[u8])
        ensures
            r@ == self@,
    {
        self.0.as_slice()
    }

    /// The payload's own encoding: its bytes behind their ULEB128 length.
    pub fn encode(&self) -> (r: Vec<u8>)
        ensures
            r@ == length_prefixed(self@),
    {
        let mut out: Vec<u8> = Vec::new();
        push_length_prefixed(&mut out, self.0.as_slice());
        assert(out@ =~= length_prefixed(self@));
        out
    }

    /// Reads a payload in its own encoding from index `start` of `s`.
    pub fn parse(s: &[u8], start: usize) -> (r: Result<Payload, ReadFailure>)
        requires
            start <= s@.len(),
        ensures
            r matches Ok(p) ==> read_length_prefixed(s@, start as int) == Ok::<
                Seq<u8>,
                ReadFailure,
            >(p@),
            r matches Err(f) ==> read_length_prefixed(s@, start as int) == Err::<
                Seq<u8>,
                ReadFailure,
            >(f),
    {
        match read_length_prefixed_at(s, start) {
            Ok(b) => Ok(Payload(vstd::slice::slice_to_vec(b))),
            Err(f) => Err(f),
        }
    }
}

/// What an envelope holds: who sent it, to whom, and the payload.
pub struct EnvelopeView {
    pub sender: Seq<char>,
    pub recipient: Seq<char>,
    pub payload: Seq<u8>,
}

/// A payload together with the identities of its sender and its recipient.
#[derive(Debug, PartialEq, Eq)]
pub struct Envelope {
    sender: PeerId,
    recipient: PeerId,
    payload: Payload,
}

impl View for Envelope {
    type V = EnvelopeView;

    closed spec fn view(&self) -> EnvelopeView {
        EnvelopeView { sender: self.sender@, recipient: self.recipient@, payload: self.payload@ }
    }
}

impl Envelope {
    pub fn new(sender: PeerId, recipient: PeerId, payload: Payload) -> (r: Envelope)
        ensures
            r@ == (EnvelopeView { sender: sender@, recipient: recipient@, payload: payload@ }),
    {
        Envelope { sender, recipient, payload }
    }

    pub fn sender(&self) -> (r: &PeerId)
        ensures
            r@ == self@.sender,
    {
        &self.sender
    }

    pub fn recipient(&self) -> (r: &PeerId)
        ensures
            r@ == self@.recipient,
    {
        &self.recipient
    }

    pub fn payload(&self) -> (r: &Payload)
        ensures
            r@ == self@.payload,
    {
        &self.payload
    }

    /// Gives up the envelope for its payload.
    pub fn take_payload(self) -> (r: Payload)
        ensures
            r@ == self@.payload,
    {
        self.payload
    }
}

} // verus!
