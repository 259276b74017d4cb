//! The handshake: the exchange that runs once, over the raw stream, before
//! any frame, and ends in the two ciphers of the connection.
//!
//! The handshake performs no input or output. It says which operation on the
//! stream comes next, and takes the outcome of that operation as an event.
//! Every transition between two of its states is one write or one read.
//!
//! Each message is a four-byte length, most significant byte first, that
//! counts the whole message, then the body:
//!
//! * client hello: the protocol version offered, then the public key;
//! * server hello: the protocol version chosen, then the public key;
//! * client response: the challenge;
//! * server acknowledgement: the server's tag.

use vstd::prelude::*;
use crate::cipher::{CipherPair, CipherPairView, CipherView};
use crate::exchange::{
    agreed, derive_keys, derived, fresh_secret, public_key, public_of, shared_secret, Keys,
    KeysView, DIGEST_SIZE, GROUP_SIZE, SECRET_SIZE,
};
use crate::wire::{append, be32, be32_value, copy, push_be32, range, read_be32, same};

verus! {

/// The highest protocol version that this side speaks, and the one it offers.
pub const PROTOCOL_VERSION: u8 = 4;

/// Length in bytes of the length prefix of a handshake message.
pub const PREFIX_SIZE: usize = 4;

/// The shortest server hello: prefix, version and one byte of key.
pub const MIN_SERVER_HELLO: usize = 6;

/// The longest server hello: prefix, version and a key of the group's size.
pub const MAX_SERVER_HELLO: usize = 101;

/// Length in bytes of the server's acknowledgement: prefix and tag.
pub const ACK_SIZE: usize = 24;

/// Why a handshake failed. A failed handshake is not resumed: the connection
/// has to be made anew.
#[derive(Clone, Copy, Debug, PartialEq, Eq, Structural)]
pub enum HandshakeError {
    /// The server's tag is not the one that the exchange calls for.
    InvalidSignature,
    /// A message was malformed or truncated, or came out of turn.
    Malformed,
    /// The stream failed.
    IOError,
}

/// Where a handshake stands.
#[derive(Clone, Copy, Debug, PartialEq, Eq, Structural)]
pub enum HandshakeState {
    /// Nothing has been written.
    Init,
    /// The client hello has been written.
    SentClientHello,
    /// The length of the server hello has been read; its body is awaited.
    AwaitingServerHello,
    /// The server hello has been read and the keys are derived.
    ComputedSharedSecret,
    /// The client response has been written.
    SentClientResponse,
    /// The length of the acknowledgement has been read; the tag is awaited.
    AwaitingAck,
    /// The server's tag has been accepted: the ciphers are ready.
    Established,
    /// The handshake has failed.
    Failed,
}

/// The outcome of the operation that the handshake asked for.
pub enum HandshakeEvent {
    /// The bytes of a write have all been written.
    Written,
    /// A read has delivered these bytes.
    Received(Vec<u8>),
    /// The stream ended before a read was complete.
    Closed,
    /// The stream failed.
    Failed,
}

/// An event as contracts see it.
pub ghost enum HandshakeEventView {
    Written,
    Received(Seq<u8>),
    Closed,
    Failed,
}

impl View for HandshakeEvent {
    type V = HandshakeEventView;

    open spec fn view(&self) -> HandshakeEventView {
        match *self {
            HandshakeEvent::Written => HandshakeEventView::Written,
            HandshakeEvent::Received(bytes) => HandshakeEventView::Received(bytes@),
            HandshakeEvent::Closed => HandshakeEventView::Closed,
            HandshakeEvent::Failed => HandshakeEventView::Failed,
        }
    }
}

/// The operation on the stream that the handshake asks for next.
#[derive(Debug)]
pub enum HandshakeAction {
    /// Write all of these bytes.
    Write(Vec<u8>),
    /// Read exactly this many bytes.
    Read(usize),
    /// Nothing more: the handshake is established.
    Done,
    /// Nothing more: the handshake has failed.
    Abort,
}

/// An action as contracts see it.
pub ghost enum HandshakeActionView {
    Write(Seq<u8>),
    Read(nat),
    Done,
    Abort,
}

impl View for HandshakeAction {
    type V = HandshakeActionView;

    open spec fn view(&self) -> HandshakeActionView {
        match *self {
            HandshakeAction::Write(bytes) => HandshakeActionView::Write(bytes@),
            HandshakeAction::Read(count) => HandshakeActionView::Read(count as nat),
            HandshakeAction::Done => HandshakeActionView::Done,
            HandshakeAction::Abort => HandshakeActionView::Abort,
        }
    }
}

/// What an established handshake leaves: the two ciphers, which have taken
/// no frame yet, and the protocol version that the server chose.
pub struct HandshakeResult {
    /// The ciphers of the two directions.
    pub ciphers: CipherPair,
    /// The negotiated protocol version.
    pub version: u8,
}

/// A handshake's result as contracts see it.
pub ghost struct HandshakeResultView {
    /// The ciphers of the two directions.
    pub ciphers: CipherPairView,
    /// The negotiated protocol version.
    pub version: u8,
}

impl View for HandshakeResult {
    type V = HandshakeResultView;

    open spec fn view(&self) -> HandshakeResultView {
        HandshakeResultView { ciphers: self.ciphers@, version: self.version }
    }
}

/// A handshake message with this body: the length of the whole, then the body.
pub open spec fn message(body: Seq<u8>) -> Seq<u8> {
    be32((body.len() + PREFIX_SIZE) as nat) + body
}

/// The client hello that offers this public key.
pub open spec fn client_hello(public: Seq<u8>) -> Seq<u8> {
    message(seq![PROTOCOL_VERSION] + public)
}

/// The client response that carries this challenge.
pub open spec fn client_response(challenge: Seq<u8>) -> Seq<u8> {
    message(challenge)
}

/// Whether a server may choose this version: any from one to the one offered.
pub open spec fn version_accepted(version: u8) -> bool {
    1 <= version <= PROTOCOL_VERSION
}

/// Whether the length prefix of a server hello declares a length that a
/// server hello can have.
pub open spec fn hello_prefix_accepted(prefix: Seq<u8>) -> bool {
    prefix.len() == PREFIX_SIZE && MIN_SERVER_HELLO <= be32_value(prefix) <= MAX_SERVER_HELLO
}

/// Whether the length prefix of an acknowledgement declares its one length.
pub open spec fn ack_prefix_accepted(prefix: Seq<u8>) -> bool {
    prefix.len() == PREFIX_SIZE && be32_value(prefix) == ACK_SIZE
}

/// The result of a handshake that derived these keys and this version.
pub open spec fn established(keys: KeysView, version: u8) -> HandshakeResultView {
    HandshakeResultView {
        ciphers: CipherPairView {
            send: CipherView::fresh(keys.send_key),
            recv: CipherView::fresh(keys.recv_key),
        },
        version,
    }
}

/// A handshake as contracts see it: its state, with what the state holds.
pub ghost enum HandshakeView {
    /// Holds the private exponent and the client hello to be written.
    Init { secret: Seq<u8>, hello: Seq<u8> },
    /// Holds the private exponent and the bytes exchanged so far.
    SentClientHello { secret: Seq<u8>, transcript: Seq<u8> },
    /// Holds, besides, the number of bytes of the server hello still to come.
    AwaitingServerHello { secret: Seq<u8>, transcript: Seq<u8>, remaining: nat },
    /// Holds the derived keys and the version that the server chose.
    ComputedSharedSecret { keys: KeysView, version: u8 },
    /// As before; the challenge has gone out.
    SentClientResponse { keys: KeysView, version: u8 },
    /// As before; the server's tag is next.
    AwaitingAck { keys: KeysView, version: u8 },
    /// Holds the result.
    Established { result: HandshakeResultView },
    /// Holds the reason.
    Failed { error: HandshakeError },
}

impl HandshakeView {
    /// The handshake of a side with this private exponent, before anything
    /// is written.
    pub open spec fn initial(secret: Seq<u8>) -> HandshakeView {
        HandshakeView::Init { secret, hello: client_hello(public_of(secret)) }
    }

    /// Where the handshake stands.
    pub open spec fn state(self) -> HandshakeState {
        match self {
            HandshakeView::Init { .. } => HandshakeState::Init,
            HandshakeView::SentClientHello { .. } => HandshakeState::SentClientHello,
            HandshakeView::AwaitingServerHello { .. } => HandshakeState::AwaitingServerHello,
            HandshakeView::ComputedSharedSecret { .. } => HandshakeState::ComputedSharedSecret,
            HandshakeView::SentClientResponse { .. } => HandshakeState::SentClientResponse,
            HandshakeView::AwaitingAck { .. } => HandshakeState::AwaitingAck,
            HandshakeView::Established { .. } => HandshakeState::Established,
            HandshakeView::Failed { .. } => HandshakeState::Failed,
        }
    }

    /// Whether the handshake has ended, well or badly.
    pub open spec fn terminal(self) -> bool {
        self is Established || self is Failed
    }

    /// The operation that the handshake asks for in this state.
    pub open spec fn action(self) -> HandshakeActionView {
        match self {
            HandshakeView::Init { hello, .. } => HandshakeActionView::Write(hello),
            HandshakeView::SentClientHello { .. } => HandshakeActionView::Read(PREFIX_SIZE as nat),
            HandshakeView::AwaitingServerHello { remaining, .. } => HandshakeActionView::Read(
                remaining,
            ),
            HandshakeView::ComputedSharedSecret { keys, .. } => HandshakeActionView::Write(
                client_response(keys.challenge),
            ),
            HandshakeView::SentClientResponse { .. } => HandshakeActionView::Read(
                PREFIX_SIZE as nat,
            ),
            HandshakeView::AwaitingAck { .. } => HandshakeActionView::Read(DIGEST_SIZE as nat),
            HandshakeView::Established { .. } => HandshakeActionView::Done,
            HandshakeView::Failed { .. } => HandshakeActionView::Abort,
        }
    }

    /// The handshake that failed for this reason.
    pub open spec fn failed(error: HandshakeError) -> HandshakeView {
        HandshakeView::Failed { error }
    }

    /// The state that follows on an event. An ended handshake stays as it
    /// is. A failure of the stream fails the handshake with `IOError`. The
    /// event that answers the operation asked for moves the handshake on, if
    /// what it delivers is well formed; the server's tag has to be the one
    /// derived, else the handshake fails with `InvalidSignature`. Everything
    /// else fails it with `Malformed`: a stream that ends early, a read of
    /// another length than asked for, a length or version out of range, an
    /// event out of turn.
    pub open spec fn step(self, event: HandshakeEventView) -> HandshakeView {
        if self.terminal() {
            self
        } else if event is Failed {
            Self::failed(HandshakeError::IOError)
        } else {
            match self {
                HandshakeView::Init { secret, hello } => {
                    if event is Written {
                        HandshakeView::SentClientHello { secret, transcript: hello }
                    } else {
                        Self::failed(HandshakeError::Malformed)
                    }
                },
                HandshakeView::SentClientHello { secret, transcript } => match event {
                    HandshakeEventView::Received(prefix) => if hello_prefix_accepted(prefix) {
                        HandshakeView::AwaitingServerHello {
                            secret,
                            transcript: transcript + prefix,
                            remaining: (be32_value(prefix) - PREFIX_SIZE) as nat,
                        }
                    } else {
                        Self::failed(HandshakeError::Malformed)
                    },
                    _ => Self::failed(HandshakeError::Malformed),
                },
                HandshakeView::AwaitingServerHello { secret, transcript, remaining } => match event {
                    HandshakeEventView::Received(body) => if body.len() == remaining && body.len()
                        >= 2 && version_accepted(body[0]) {
                        HandshakeView::ComputedSharedSecret {
                            keys: derived(agreed(secret, body.skip(1)), transcript + body),
                            version: body[0],
                        }
                    } else {
                        Self::failed(HandshakeError::Malformed)
                    },
                    _ => Self::failed(HandshakeError::Malformed),
                },
                HandshakeView::ComputedSharedSecret { keys, version } => {
                    if event is Written {
                        HandshakeView::SentClientResponse { keys, version }
                    } else {
                        Self::failed(HandshakeError::Malformed)
                    }
                },
                HandshakeView::SentClientResponse { keys, version } => match event {
                    HandshakeEventView::Received(prefix) => if ack_prefix_accepted(prefix) {
                        HandshakeView::AwaitingAck { keys, version }
                    } else {
                        Self::failed(HandshakeError::Malformed)
                    },
                    _ => Self::failed(HandshakeError::Malformed),
                },
                HandshakeView::AwaitingAck { keys, version } => match event {
                    HandshakeEventView::Received(tag) => if tag.len() != DIGEST_SIZE {
                        Self::failed(HandshakeError::Malformed)
                    } else if tag == keys.server_tag {
                        HandshakeView::Established { result: established(keys, version) }
                    } else {
                        Self::failed(HandshakeError::InvalidSignature)
                    },
                    _ => Self::failed(HandshakeError::Malformed),
                },
                _ => self,
            }
        }
    }
}

enum Stage {
    Init { secret: Vec<u8>, hello: Vec<u8> },
    SentClientHello { secret: Vec<u8>, transcript: Vec<u8> },
    AwaitingServerHello { secret: Vec<u8>, transcript: Vec<u8>, remaining: usize },
    ComputedSharedSecret { keys: Keys, version: u8 },
    SentClientResponse { keys: Keys, version: u8 },
    AwaitingAck { keys: Keys, version: u8 },
    Established { result: HandshakeResult },
    Failed { error: HandshakeError },
}

/// One handshake: its state, and what the state holds.
pub struct Handshake {
    stage: Stage,
}

impl View for Handshake {
    type V = HandshakeView;

    closed spec fn view(&self) -> HandshakeView {
        match self.stage {
            Stage::Init { secret, hello } => HandshakeView::Init { secret: secret@, hello: hello@ },
            Stage::SentClientHello { secret, transcript } => HandshakeView::SentClientHello {
                secret: secret@,
                transcript: transcript@,
            },
            Stage::AwaitingServerHello {
                secret,
                transcript,
                remaining,
            } => HandshakeView::AwaitingServerHello {
                secret: secret@,
                transcript: transcript@,
                remaining: remaining as nat,
            },
            Stage::ComputedSharedSecret { keys, version } => HandshakeView::ComputedSharedSecret {
                keys: keys@,
                version,
            },
            Stage::SentClientResponse { keys, version } => HandshakeView::SentClientResponse {
                keys: keys@,
                version,
            },
            Stage::AwaitingAck { keys, version } => HandshakeView::AwaitingAck {
                keys: keys@,
                version,
            },
            Stage::Established { result } => HandshakeView::Established { result: result@ },
            Stage::Failed { error } => HandshakeView::Failed { error },
        }
    }
}

impl Handshake {
    /// The challenge that waits to be written has the length of a digest.
    #[verifier::type_invariant]
    spec fn well_formed(self) -> bool {
        self.stage matches Stage::ComputedSharedSecret { keys, .. } ==> keys.challenge@.len()
            == DIGEST_SIZE
    }
}

fn build_message(head: Option<u8>, body: &Vec<u8>) -> (out: Vec<u8>)
    requires
        body@.len() <= GROUP_SIZE,
    ensures
        out@ == match head {
            Some(first) => message(seq![first] + body@),
            None => message(body@),
        },
{
    let mut out: Vec<u8> = Vec::new();
    match head {
        Some(first) => {
            push_be32(&mut out, (body.len() + PREFIX_SIZE + 1) as u32);
            out.push(first);
            append(&mut out, body);
            assert(out@ =~= message(seq![first] + body@));
        },
        None => {
            push_be32(&mut out, (body.len() + PREFIX_SIZE) as u32);
            append(&mut out, body);
            assert(out@ =~= message(body@));
        },
    }
    out
}

fn fail(error: HandshakeError) -> (out: Handshake)
    ensures
        out@ == HandshakeView::failed(error),
{
    Handshake { stage: Stage::Failed { error } }
}

impl Handshake {
    /// The handshake of a side whose private exponent is `secret`, before
    /// anything is written.
    pub fn new(secret: Vec<u8>) -> (handshake: Handshake)
        ensures
            handshake@ == HandshakeView::initial(secret@),
    {
        let public = public_key(&secret);
        let hello = build_message(Some(PROTOCOL_VERSION), &public);
        Handshake { stage: Stage::Init { secret, hello } }
    }

    /// Where the handshake stands.
    pub fn state(&self) -> (state: HandshakeState)
        ensures
            state == self@.state(),
    {
        match &self.stage {
            Stage::Init { .. } => HandshakeState::Init,
            Stage::SentClientHello { .. } => HandshakeState::SentClientHello,
            Stage::AwaitingServerHello { .. } => HandshakeState::AwaitingServerHello,
            Stage::ComputedSharedSecret { .. } => HandshakeState::ComputedSharedSecret,
            Stage::SentClientResponse { .. } => HandshakeState::SentClientResponse,
            Stage::AwaitingAck { .. } => HandshakeState::AwaitingAck,
            Stage::Established { .. } => HandshakeState::Established,
            Stage::Failed { .. } => HandshakeState::Failed,
        }
    }

    /// Why the handshake failed, if it has.
    pub fn error(&self) -> (error: Option<HandshakeError>)
        ensures
            error == match self@ {
                HandshakeView::Failed { error } => Some(error),
                _ => None,
            },
    {
        match &self.stage {
            Stage::Failed { error } => Some(*error),
            _ => None,
        }
    }

    /// The operation on the stream that the handshake asks for next.
    pub fn action(&self) -> (action: HandshakeAction)
        ensures
            action@ == self@.action(),
    {
        match &self.stage {
            Stage::Init { hello, .. } => HandshakeAction::Write(copy(hello)),
            Stage::SentClientHello { .. } => HandshakeAction::Read(PREFIX_SIZE),
            Stage::AwaitingServerHello { remaining, .. } => HandshakeAction::Read(*remaining),
            Stage::ComputedSharedSecret { keys, .. } => {
                proof {
                    use_type_invariant(self);
                }
                HandshakeAction::Write(build_message(None, &keys.challenge))
            },
            Stage::SentClientResponse { .. } => HandshakeAction::Read(PREFIX_SIZE),
            Stage::AwaitingAck { .. } => HandshakeAction::Read(DIGEST_SIZE),
            Stage::Established { .. } => HandshakeAction::Done,
            Stage::Failed { .. } => HandshakeAction::Abort,
        }
    }

    /// Takes the outcome of the operation that was asked for, and hands back
    /// the handshake in the state that follows, with the operation that this
    /// state asks for.
    pub fn step(self, event: HandshakeEvent) -> (out: (Handshake, HandshakeAction))
        ensures
            out.0@ == self@.step(event@),
            out.1@ == out.0@.action(),
    {
        let next = self.advance(event);
        let action = next.action();
        (next, action)
    }

    fn advance(self, event: HandshakeEvent) -> (next: Handshake)
        ensures
            next@ == self@.step(event@),
    {
        match self.stage {
            Stage::Established { result } => Handshake { stage: Stage::Established { result } },
            Stage::Failed { error } => Handshake { stage: Stage::Failed { error } },
            Stage::Init { secret, hello } => match event {
                HandshakeEvent::Failed => fail(HandshakeError::IOError),
                HandshakeEvent::Written => Handshake {
                    stage: Stage::SentClientHello { secret, transcript: hello },
                },
                _ => fail(HandshakeError::Malformed),
            },
            Stage::SentClientHello { secret, transcript } => match event {
                HandshakeEvent::Failed => fail(HandshakeError::IOError),
                HandshakeEvent::Received(prefix) => {
                    if prefix.len() != PREFIX_SIZE {
                        return fail(HandshakeError::Malformed);
                    }
                    let declared: u32 = read_be32(&prefix, 0);
                    assert(prefix@.subrange(0, 4) =~= prefix@);
                    if declared < MIN_SERVER_HELLO as u32 || declared > MAX_SERVER_HELLO as u32 {
                        return fail(HandshakeError::Malformed);
                    }
                    let mut transcript = transcript;
                    append(&mut transcript, &prefix);
                    Handshake {
                        stage: Stage::AwaitingServerHello {
                            secret,
                            transcript,
                            remaining: declared as usize - PREFIX_SIZE,
                        },
                    }
                },
                _ => fail(HandshakeError::Malformed),
            },
            Stage::AwaitingServerHello { secret, transcript, remaining } => match event {
                HandshakeEvent::Failed => fail(HandshakeError::IOError),
                HandshakeEvent::Received(body) => {
                    if body.len() != remaining || body.len() < 2 {
                        return fail(HandshakeError::Malformed);
                    }
                    let version = body[0];
                    if version < 1 || version > PROTOCOL_VERSION {
                        return fail(HandshakeError::Malformed);
                    }
                    let remote = range(&body, 1, body.len());
                    assert(remote@ =~= body@.skip(1));
                    let shared = shared_secret(&secret, &remote);
                    let mut transcript = transcript;
                    append(&mut transcript, &body);
                    let keys = derive_keys(&shared, &transcript);
                    Handshake { stage: Stage::ComputedSharedSecret { keys, version } }
                },
                _ => fail(HandshakeError::Malformed),
            },
            Stage::ComputedSharedSecret { keys, version } => match event {
                HandshakeEvent::Failed => fail(HandshakeError::IOError),
                HandshakeEvent::Written => Handshake {
                    stage: Stage::SentClientResponse { keys, version },
                },
                _ => fail(HandshakeError::Malformed),
            },
            Stage::SentClientResponse { keys, version } => match event {
                HandshakeEvent::Failed => fail(HandshakeError::IOError),
                HandshakeEvent::Received(prefix) => {
                    if prefix.len() != PREFIX_SIZE {
                        return fail(HandshakeError::Malformed);
                    }
                    let declared: u32 = read_be32(&prefix, 0);
                    assert(prefix@.subrange(0, 4) =~= prefix@);
                    if declared != ACK_SIZE as u32 {
                        return fail(HandshakeError::Malformed);
                    }
                    Handshake { stage: Stage::AwaitingAck { keys, version } }
                },
                _ => fail(HandshakeError::Malformed),
            },
            Stage::AwaitingAck { keys, version } => match event {
                HandshakeEvent::Failed => fail(HandshakeError::IOError),
                HandshakeEvent::Received(tag) => {
                    if tag.len() != DIGEST_SIZE {
                        return fail(HandshakeError::Malformed);
                    }
                    if !same(&tag, &keys.server_tag) {
                        return fail(HandshakeError::InvalidSignature);
                    }
                    let Keys { send_key, recv_key, .. } = keys;
                    let ciphers = CipherPair::new(send_key, recv_key);
                    Handshake {
                        stage: Stage::Established { result: HandshakeResult { ciphers, version } },
                    }
                },
                _ => fail(HandshakeError::Malformed),
            },
        }
    }

    /// Ends the handshake. Of an established one it hands out the result,
    /// once; of a failed one the reason. A handshake that has not ended is
    /// handed back as it is.
    pub fn finish(self) -> (out: Result<Result<HandshakeResult, HandshakeError>, Handshake>)
        ensures
            match self@ {
                HandshakeView::Established { result } => out matches Ok(Ok(ready)) && ready@
                    == result,
                HandshakeView::Failed { error } => out matches Ok(Err(reason)) && reason == error,
                _ => out matches Err(pending) && pending@ == self@,
            },
    {
        proof {
            use_type_invariant(&self);
        }
        match self.stage {
            Stage::Established { result } => Ok(Ok(result)),
            Stage::Failed { error } => Ok(Err(error)),
            other => Err(Handshake { stage: other }),
        }
    }
}

/// Begins a handshake with a private exponent drawn afresh. The handshake
/// stands at `Init`; its first operation writes the client hello.
pub fn handshake() -> (begun: Handshake)
    ensures
        exists|secret: Seq<u8>|
            secret.len() == SECRET_SIZE && begun@ == #[trigger] HandshakeView::initial(secret),
{
    let secret = fresh_secret();
    Handshake::new(secret)
}

/// An ended handshake takes no further step.
pub proof fn lemma_terminal_absorbs(state: HandshakeView, event: HandshakeEventView)
    requires
        state.terminal(),
    ensures
        state.step(event) == state,
{
}

/// From every state that has not ended, a failure of the stream leads to
/// `Failed` with `IOError`.
pub proof fn lemma_stream_failure(state: HandshakeView)
    requires
        !state.terminal(),
    ensures
        state.step(HandshakeEventView::Failed) == HandshakeView::failed(HandshakeError::IOError),
{
}

/// A step moves the handshake to the next state in order, or to `Failed`;
/// it never goes back and never skips.
pub proof fn lemma_step_order(state: HandshakeView, event: HandshakeEventView)
    ensures
        state.step(event).state() == state.state() || state.step(event).state()
            == HandshakeState::Failed || state.step(event).state() == successor(state.state()),
        !state.terminal() ==> state.step(event).state() != state.state(),
{
}

/// The state that follows a state in the order of the exchange.
pub open spec fn successor(state: HandshakeState) -> HandshakeState {
    match state {
        HandshakeState::Init => HandshakeState::SentClientHello,
        HandshakeState::SentClientHello => HandshakeState::AwaitingServerHello,
        HandshakeState::AwaitingServerHello => HandshakeState::ComputedSharedSecret,
        HandshakeState::ComputedSharedSecret => HandshakeState::SentClientResponse,
        HandshakeState::SentClientResponse => HandshakeState::AwaitingAck,
        HandshakeState::AwaitingAck => HandshakeState::Established,
        HandshakeState::Established => HandshakeState::Established,
        HandshakeState::Failed => HandshakeState::Failed,
    }
}

/// The server hello that chooses this version and offers this public key.
pub open spec fn server_hello(version: u8, public: Seq<u8>) -> Seq<u8> {
    message(seq![version] + public)
}

/// The acknowledgement that carries this tag.
pub open spec fn server_ack(tag: Seq<u8>) -> Seq<u8> {
    message(tag)
}

/// What both sides derive in an exchange between a client with the private
/// exponent `secret` and a server that answers with `version` and `public`:
/// the keys of the secret agreed on, over the two hello messages.
pub open spec fn exchanged(secret: Seq<u8>, version: u8, public: Seq<u8>) -> KeysView {
    derived(
        agreed(secret, public),
        client_hello(public_of(secret)) + server_hello(version, public),
    )
}

/// With a server that keeps to the protocol the handshake is established.
/// The server answers the client hello with a version from one to the one
/// offered and a public key of one byte up to the group's size, and the
/// client response with the tag that the exchange derives, which is as long
/// as a digest; each message comes in two reads, the length and the rest.
/// Then the handshake passes through every state in order, writes the
/// challenge that the exchange derives, and ends with the two ciphers under
/// the keys derived, no frame taken yet.
pub proof fn lemma_honest_server(secret: Seq<u8>, version: u8, public: Seq<u8>)
    requires
        version_accepted(version),
        1 <= public.len() <= GROUP_SIZE,
        exchanged(secret, version, public).server_tag.len() == DIGEST_SIZE,
    ensures
        ({
            let keys = exchanged(secret, version, public);
            let hello = server_hello(version, public);
            let ack = server_ack(keys.server_tag);
            let sent = HandshakeView::initial(secret).step(HandshakeEventView::Written);
            let awaiting = sent.step(
                HandshakeEventView::Received(hello.subrange(0, PREFIX_SIZE as int)),
            );
            let computed = awaiting.step(
                HandshakeEventView::Received(hello.subrange(PREFIX_SIZE as int, hello.len() as int)),
            );
            let responded = computed.step(HandshakeEventView::Written);
            let acknowledged = responded.step(
                HandshakeEventView::Received(ack.subrange(0, PREFIX_SIZE as int)),
            );
            let ended = acknowledged.step(
                HandshakeEventView::Received(ack.subrange(PREFIX_SIZE as int, ack.len() as int)),
            );
            &&& sent.state() == HandshakeState::SentClientHello
            &&& awaiting.state() == HandshakeState::AwaitingServerHello
            &&& awaiting.action() == HandshakeActionView::Read((hello.len() - PREFIX_SIZE) as nat)
            &&& computed.state() == HandshakeState::ComputedSharedSecret
            &&& computed.action() == HandshakeActionView::Write(client_response(keys.challenge))
            &&& responded.state() == HandshakeState::SentClientResponse
            &&& acknowledged.state() == HandshakeState::AwaitingAck
            &&& ended == HandshakeView::Established { result: established(keys, version) }
        }),
{
    let keys = exchanged(secret, version, public);
    let hello = server_hello(version, public);
    let ack = server_ack(keys.server_tag);
    let body = seq![version] + public;
    let total = (body.len() + PREFIX_SIZE) as nat;
    assert(hello.subrange(0, PREFIX_SIZE as int) =~= be32(total));
    assert(hello.subrange(PREFIX_SIZE as int, hello.len() as int) =~= body);
    assert(be32_value(be32(total)) == total);
    assert(body[0] == version);
    assert(body.skip(1) =~= public);
    assert(ack.subrange(0, PREFIX_SIZE as int) =~= be32(ACK_SIZE as nat));
    assert(ack.subrange(PREFIX_SIZE as int, ack.len() as int) =~= keys.server_tag);
    assert(be32_value(be32(ACK_SIZE as nat)) == ACK_SIZE);
    let transcript = client_hello(public_of(secret)) + be32(total) + body;
    assert(transcript =~= client_hello(public_of(secret)) + hello);
}

} // verus!
