//! The handshake: each end learns the other's identity, then application payloads flow as
//! envelopes.
//!
//! The party that opens the connection starts with [`Connecting::connect`] and sends its
//! hello at once; the party that accepts it starts with [`Connecting::accept`] and waits.
//! A [`Connecting`] value takes the role that the first message received implies. Once
//! [`Step::Done`] comes back, the [`Connected`] value turns incoming data messages into
//! envelopes and outgoing envelopes into data messages.
use crate::message::{
    decoding, encoding, lemma_decode_encode, DecodeFailure, Message, MessageInner, MessageView,
};
use crate::peer::{Envelope, EnvelopeView, PeerId};
use vstd::prelude::*;
use vstd::string::StringExecFns;

verus! {

/// Why a message was refused.
#[derive(Debug, PartialEq, Eq)]
pub enum Error {
    /// The message is of a kind that the current state does not take.
    UnexpectedMessage,
}

impl Error {
    /// The error in words.
    pub fn message(&self) -> (r: String)
        ensures
            r@ == "unexpected message"@,
    {
        match self {
            Error::UnexpectedMessage => String::from_str("unexpected message"),
        }
    }
}

/// Both identities of an established connection.
pub struct ConnectedView {
    pub our: Seq<char>,
    pub their: Seq<char>,
}

/// A step of the handshake, with the state as our identity (while connecting) or both
/// identities (once connected), and the message to send now, if any.
pub enum StepView {
    Continue(Seq<char>, Option<MessageView>),
    Done(ConnectedView, Option<MessageView>),
}

pub open spec fn message_view(m: Option<Message>) -> Option<MessageView> {
    match m {
        Some(msg) => Some(msg@),
        None => None,
    }
}

/// The first step of the party that accepts a connection: wait, sending nothing.
pub open spec fn accept_step(us: Seq<char>) -> StepView {
    StepView::Continue(us, None)
}

/// The first step of the party that opens a connection: send its hello.
pub open spec fn connect_step(us: Seq<char>) -> StepView {
    StepView::Continue(us, Some(MessageView::HelloFromInitiator(us)))
}

/// What a connecting party with identity `us` does with a message it receives.
pub open spec fn connecting_receive(us: Seq<char>, m: MessageView) -> Result<StepView, Error> {
    match m {
        MessageView::HelloFromInitiator(them) => Ok(
            StepView::Done(
                ConnectedView { our: us, their: them },
                Some(MessageView::HelloFromAcceptor(us)),
            ),
        ),
        MessageView::HelloFromAcceptor(them) => Ok(
            StepView::Done(ConnectedView { our: us, their: them }, None),
        ),
        MessageView::Data(_) => Err(Error::UnexpectedMessage),
    }
}

/// The envelope that a connected party makes of a message it receives.
pub open spec fn connected_receive(c: ConnectedView, m: MessageView) -> Result<
    EnvelopeView,
    Error,
> {
    match m {
        MessageView::Data(p) => Ok(EnvelopeView { sender: c.their, recipient: c.our, payload: p }),
        _ => Err(Error::UnexpectedMessage),
    }
}

/// The message that a connected party sends for an envelope: its payload alone.
pub open spec fn connected_send(c: ConnectedView, e: EnvelopeView) -> MessageView {
    MessageView::Data(e.payload)
}

/// The acceptor's handshake: it waits with its own identity and sends nothing, and a hello
/// from the initiator completes it, with both identities known and a hello to send back.
pub proof fn lemma_acceptor_flow(a: Seq<char>, b: Seq<char>)
    ensures
        accept_step(a) == StepView::Continue(a, None),
        connecting_receive(a, MessageView::HelloFromInitiator(b)) == Ok::<StepView, Error>(
            StepView::Done(
                ConnectedView { our: a, their: b },
                Some(MessageView::HelloFromAcceptor(a)),
            ),
        ),
{
}

/// The initiator's handshake: it sends a hello with its own identity, and the acceptor's
/// hello completes it, with both identities known and nothing more to send.
pub proof fn lemma_initiator_flow(a: Seq<char>, b: Seq<char>)
    ensures
        connect_step(a) == StepView::Continue(a, Some(MessageView::HelloFromInitiator(a))),
        connecting_receive(a, MessageView::HelloFromAcceptor(b)) == Ok::<StepView, Error>(
            StepView::Done(ConnectedView { our: a, their: b }, None),
        ),
{
}

/// Data that arrives before the handshake is complete is refused, whichever way the
/// handshake began.
pub proof fn lemma_data_before_handshake(a: Seq<char>, p: Seq<u8>)
    ensures
        accept_step(a) matches StepView::Continue(state, _) && connecting_receive(
            state,
            MessageView::Data(p),
        ) == Err::<StepView, Error>(Error::UnexpectedMessage),
        connect_step(a) matches StepView::Continue(state, _) && connecting_receive(
            state,
            MessageView::Data(p),
        ) == Err::<StepView, Error>(Error::UnexpectedMessage),
{
}

/// Once connected, a hello of either kind is refused.
pub proof fn lemma_hello_after_handshake(c: ConnectedView, id: Seq<char>)
    ensures
        connected_receive(c, MessageView::HelloFromInitiator(id)) == Err::<EnvelopeView, Error>(
            Error::UnexpectedMessage,
        ),
        connected_receive(c, MessageView::HelloFromAcceptor(id)) == Err::<EnvelopeView, Error>(
            Error::UnexpectedMessage,
        ),
{
}

/// An envelope sent over a connection and received back through the same connection keeps
/// its payload, while its sender and recipient come from the handshake, whatever the
/// envelope said of them.
pub proof fn lemma_envelope_bridge(c: ConnectedView, e: EnvelopeView)
    requires
        e.payload.len() <= u64::MAX,
    ensures
        connected_send(c, e) == MessageView::Data(e.payload),
        decoding(encoding(connected_send(c, e))) == Ok::<MessageView, DecodeFailure>(
            connected_send(c, e),
        ),
        connected_receive(c, connected_send(c, e)) == Ok::<EnvelopeView, Error>(
            EnvelopeView { sender: c.their, recipient: c.our, payload: e.payload },
        ),
{
    lemma_decode_encode(connected_send(c, e));
}

/// The state of a handshake before the other end's identity is known.
#[derive(Debug, PartialEq, Eq)]
pub struct Connecting(PeerId);

impl View for Connecting {
    type V = Seq<char>;

    closed spec fn view(&self) -> Seq<char> {
        self.0@
    }
}

/// The state of a handshake once both identities are known.
#[derive(Debug, PartialEq, Eq)]
pub struct Connected {
    our_peer_id: PeerId,
    their_peer_id: PeerId,
}

impl View for Connected {
    type V = ConnectedView;

    closed spec fn view(&self) -> ConnectedView {
        ConnectedView { our: self.our_peer_id@, their: self.their_peer_id@ }
    }
}

/// A step of the handshake: the next state, and the message to send before going on, if any.
#[derive(Debug, PartialEq, Eq)]
pub enum Step {
    /// The handshake goes on: send the message, if any, then wait for the next one.
    Continue(Connecting, Option<Message>),
    /// The handshake is complete: send the message, if any.
    Done(Connected, Option<Message>),
}

impl View for Step {
    type V = StepView;

    open spec fn view(&self) -> StepView {
        match self {
            Step::Continue(state, m) => StepView::Continue(state@, message_view(*m)),
            Step::Done(c, m) => StepView::Done(c@, message_view(*m)),
        }
    }
}

impl Connecting {
    /// Our own identity.
    pub fn our_peer_id(&self) -> (r: &PeerId)
        ensures
            r@ == self@,
    {
        &self.0
    }

    /// Starts the handshake of the party that accepts a connection.
    pub fn accept(us: PeerId) -> (r: Step)
        ensures
            r@ == accept_step(us@),
    {
        Step::Continue(Connecting(us), None)
    }

    /// Starts the handshake of the party that opens a connection.
    pub fn connect(us: PeerId) -> (r: Step)
        ensures
            r@ == connect_step(us@),
    {
        Step::Continue(
            Connecting(us.clone()),
            Some(Message::hello_from_initiator(us)),
        )
    }

    /// Takes the message that the other end sent.
    pub fn receive(self, msg: Message) -> (r: Result<Step, Error>)
        ensures
            r matches Ok(step) ==> connecting_receive(self@, msg@) == Ok::<StepView, Error>(step@),
            r matches Err(e) ==> connecting_receive(self@, msg@) == Err::<StepView, Error>(e),
    {
        match msg.into_inner() {
            MessageInner::HelloFromInitiator(their_peer_id) => Ok(
                Step::Done(
                    Connected { our_peer_id: self.0.clone(), their_peer_id },
                    Some(Message::hello_from_acceptor(self.0)),
                ),
            ),
            MessageInner::HelloFromAcceptor(their_peer_id) => Ok(
                Step::Done(Connected { our_peer_id: self.0, their_peer_id }, None),
            ),
            MessageInner::Data(_) => Err(Error::UnexpectedMessage),
        }
    }
}

impl Connected {
    /// Our own identity.
    pub fn our_peer_id(&self) -> (r: &PeerId)
        ensures
            r@ == self@.our,
    {
        &self.our_peer_id
    }

    /// The identity of the other end.
    pub fn their_peer_id(&self) -> (r: &PeerId)
        ensures
            r@ == self@.their,
    {
        &self.their_peer_id
    }

    /// Turns a message from the other end into an envelope from them to us.
    pub fn receive(&self, msg: Message) -> (r: Result<Envelope, Error>)
        ensures
            r matches Ok(env) ==> connected_receive(self@, msg@) == Ok::<EnvelopeView, Error>(
                env@,
            ),
            r matches Err(e) ==> connected_receive(self@, msg@) == Err::<EnvelopeView, Error>(e),
    {
        match msg.into_inner() {
            MessageInner::Data(payload) => Ok(
                Envelope::new(self.their_peer_id.clone(), self.our_peer_id.clone(), payload),
            ),
            _ => Err(Error::UnexpectedMessage),
        }
    }

    /// Turns an envelope into the message that carries it to the other end. The envelope's
    /// sender and recipient are not sent: the connection itself stands for them.
    pub fn send(&self, env: Envelope) -> (r: Message)
        ensures
            r@ == connected_send(self@, env@),
    {
        Message::data(env.take_payload())
    }
}

impl Clone for Connected {
    fn clone(&self) -> (r: Connected)
        ensures
            r@ == self@,
    {
        Connected {
            our_peer_id: self.our_peer_id.clone(),
            their_peer_id: self.their_peer_id.clone(),
        }
    }
}

} // verus!
