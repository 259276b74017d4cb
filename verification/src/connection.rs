//! The connector: from an address to a transport. The address is resolved,
//! the first endpoint is dialled, and the handshake runs over the stream.
//!
//! Resolving, dialling, reading and writing are the driver's; the connector
//! says which comes next and takes the outcome as an event.

use vstd::prelude::*;
use crate::exchange::{DIGEST_SIZE, GROUP_SIZE, SECRET_SIZE};
use crate::handshake::{
    established, exchanged, handshake, lemma_honest_server, server_ack, server_hello,
    version_accepted, Handshake, HandshakeAction, HandshakeActionView, HandshakeError,
    HandshakeEvent, HandshakeEventView, HandshakeView, PREFIX_SIZE,
};
use crate::transport::{Transport, TransportView};

verus! {

/// An address on the network.
#[derive(Clone, Copy, Debug, PartialEq, Eq, Structural)]
pub enum IpAddress {
    /// The four bytes of a version 4 address, as one number.
    V4(u32),
    /// The sixteen bytes of a version 6 address, as one number.
    V6(u128),
}

/// Where a stream can be opened to: an address and a port.
#[derive(Clone, Copy, Debug, PartialEq, Eq, Structural)]
pub struct Endpoint {
    /// The address.
    pub address: IpAddress,
    /// The port.
    pub port: u16,
}

/// The network did not give a stream. A caller may try again.
#[derive(Clone, Copy, Debug, PartialEq, Eq, Structural)]
pub enum NetworkError {
    /// The address resolved to no endpoint.
    ResolutionFailed,
    /// No stream could be opened to the endpoint.
    ConnectFailed,
}

/// Why no transport came of a connection.
#[derive(Clone, Copy, Debug, PartialEq, Eq, Structural)]
pub enum ConnectError {
    /// The network did not give a stream.
    Network(NetworkError),
    /// The handshake over the stream failed.
    Handshake(HandshakeError),
}

/// Where a connection stands.
#[derive(Clone, Copy, Debug, PartialEq, Eq, Structural)]
pub enum ConnectionState {
    /// The address is being resolved.
    Resolving,
    /// A stream to the first endpoint is being opened.
    Dialing,
    /// The handshake runs over the stream.
    Handshaking,
    /// The transport is ready.
    Connected,
    /// The connection has failed.
    Failed,
}

/// The outcome of what the connector asked for.
pub enum ConnectEvent {
    /// The address resolved to these endpoints, in this order; to none if it
    /// could not be resolved.
    Resolved(Vec<Endpoint>),
    /// The stream is open.
    Dialed,
    /// The stream could not be opened.
    Refused,
    /// The outcome of an operation on the stream.
    Stream(HandshakeEvent),
}

/// An event as contracts see it.
pub ghost enum ConnectEventView {
    Resolved(Seq<Endpoint>),
    Dialed,
    Refused,
    Stream(HandshakeEventView),
}

impl View for ConnectEvent {
    type V = ConnectEventView;

    open spec fn view(&self) -> ConnectEventView {
        match *self {
            ConnectEvent::Resolved(endpoints) => ConnectEventView::Resolved(endpoints@),
            ConnectEvent::Dialed => ConnectEventView::Dialed,
            ConnectEvent::Refused => ConnectEventView::Refused,
            ConnectEvent::Stream(event) => ConnectEventView::Stream(event@),
        }
    }
}

/// What the connector asks of the driver next.
pub enum ConnectAction {
    /// Resolve this address.
    Resolve(String),
    /// Open a stream to this endpoint.
    Dial(Endpoint),
    /// Perform this operation on the stream.
    Stream(HandshakeAction),
    /// Nothing more: the transport is ready.
    Done,
    /// Nothing more: the connection has failed.
    Abort,
}

/// An action as contracts see it.
pub ghost enum ConnectActionView {
    Resolve(Seq<char>),
    Dial(Endpoint),
    Stream(HandshakeActionView),
    Done,
    Abort,
}

impl View for ConnectAction {
    type V = ConnectActionView;

    open spec fn view(&self) -> ConnectActionView {
        match *self {
            ConnectAction::Resolve(address) => ConnectActionView::Resolve(address@),
            ConnectAction::Dial(endpoint) => ConnectActionView::Dial(endpoint),
            ConnectAction::Stream(action) => ConnectActionView::Stream(action@),
            ConnectAction::Done => ConnectActionView::Done,
            ConnectAction::Abort => ConnectActionView::Abort,
        }
    }
}

/// A connection as contracts see it: its state, with what the state holds.
pub ghost enum ConnectionView {
    Resolving { address: Seq<char>, handshake: HandshakeView },
    Dialing { endpoint: Endpoint, handshake: HandshakeView },
    Handshaking { handshake: HandshakeView },
    Connected { transport: TransportView },
    Failed { error: ConnectError },
}

impl ConnectionView {
    /// The connection to `address` that has not yet asked for anything, with
    /// the handshake that it will run.
    pub open spec fn begin(address: Seq<char>, handshake: HandshakeView) -> ConnectionView {
        ConnectionView::Resolving { address, handshake }
    }

    /// Where the connection stands.
    pub open spec fn state(self) -> ConnectionState {
        match self {
            ConnectionView::Resolving { .. } => ConnectionState::Resolving,
            ConnectionView::Dialing { .. } => ConnectionState::Dialing,
            ConnectionView::Handshaking { .. } => ConnectionState::Handshaking,
            ConnectionView::Connected { .. } => ConnectionState::Connected,
            ConnectionView::Failed { .. } => ConnectionState::Failed,
        }
    }

    /// Whether the connection has ended, well or badly.
    pub open spec fn terminal(self) -> bool {
        self is Connected || self is Failed
    }

    /// What the connector asks for in this state.
    pub open spec fn action(self) -> ConnectActionView {
        match self {
            ConnectionView::Resolving { address, .. } => ConnectActionView::Resolve(address),
            ConnectionView::Dialing { endpoint, .. } => ConnectActionView::Dial(endpoint),
            ConnectionView::Handshaking { handshake } => ConnectActionView::Stream(
                handshake.action(),
            ),
            ConnectionView::Connected { .. } => ConnectActionView::Done,
            ConnectionView::Failed { .. } => ConnectActionView::Abort,
        }
    }

    /// The connection that failed for this reason.
    pub open spec fn failed(error: ConnectError) -> ConnectionView {
        ConnectionView::Failed { error }
    }

    /// The connection whose handshake stands at `handshake`: connected once
    /// the handshake is established, failed once it has failed, and still
    /// shaking hands otherwise.
    pub open spec fn shaken(handshake: HandshakeView) -> ConnectionView {
        match handshake {
            HandshakeView::Established { result } => ConnectionView::Connected {
                transport: TransportView::fresh(result),
            },
            HandshakeView::Failed { error } => Self::failed(ConnectError::Handshake(error)),
            _ => ConnectionView::Handshaking { handshake },
        }
    }

    /// The state that follows on an event. An ended connection stays as it
    /// is. Of the endpoints that an address resolves to, the first is
    /// dialled; with none, resolution has failed. A stream that does not
    /// open is `ConnectFailed`. Over the open stream the handshake takes the
    /// stream's events, and its failure is the connection's. An event out of
    /// turn fails the step that was under way.
    pub open spec fn step(self, event: ConnectEventView) -> ConnectionView {
        match self {
            ConnectionView::Connected { .. } => self,
            ConnectionView::Failed { .. } => self,
            ConnectionView::Resolving { address, handshake } => match event {
                ConnectEventView::Resolved(endpoints) => if endpoints.len() > 0 {
                    ConnectionView::Dialing { endpoint: endpoints[0], handshake }
                } else {
                    Self::failed(ConnectError::Network(NetworkError::ResolutionFailed))
                },
                _ => Self::failed(ConnectError::Network(NetworkError::ResolutionFailed)),
            },
            ConnectionView::Dialing { endpoint, handshake } => match event {
                ConnectEventView::Dialed => Self::shaken(handshake),
                _ => Self::failed(ConnectError::Network(NetworkError::ConnectFailed)),
            },
            ConnectionView::Handshaking { handshake } => match event {
                ConnectEventView::Stream(outcome) => Self::shaken(handshake.step(outcome)),
                _ => Self::failed(ConnectError::Handshake(HandshakeError::Malformed)),
            },
        }
    }
}

enum Progress {
    Resolving { address: String, handshake: Handshake },
    Dialing { endpoint: Endpoint, handshake: Handshake },
    Handshaking { handshake: Handshake },
    Connected { transport: Transport },
    Failed { error: ConnectError },
}

/// One connection in the making: its state, and what the state holds.
pub struct Connection {
    progress: Progress,
}

impl View for Connection {
    type V = ConnectionView;

    closed spec fn view(&self) -> ConnectionView {
        match self.progress {
            Progress::Resolving { address, handshake } => ConnectionView::Resolving {
                address: address@,
                handshake: handshake@,
            },
            Progress::Dialing { endpoint, handshake } => ConnectionView::Dialing {
                endpoint,
                handshake: handshake@,
            },
            Progress::Handshaking { handshake } => ConnectionView::Handshaking {
                handshake: handshake@,
            },
            Progress::Connected { transport } => ConnectionView::Connected {
                transport: transport@,
            },
            Progress::Failed { error } => ConnectionView::Failed { error },
        }
    }
}

fn fail(error: ConnectError) -> (out: Connection)
    ensures
        out@ == ConnectionView::failed(error),
{
    Connection { progress: Progress::Failed { error } }
}

fn shake(handshake: Handshake) -> (out: Connection)
    ensures
        out@ == ConnectionView::shaken(handshake@),
{
    match handshake.finish() {
        Ok(Ok(result)) => Connection {
            progress: Progress::Connected { transport: Transport::new(result) },
        },
        Ok(Err(error)) => fail(ConnectError::Handshake(error)),
        Err(pending) => Connection { progress: Progress::Handshaking { handshake: pending } },
    }
}

/// Begins a connection to `address`, with a handshake whose private exponent
/// is drawn afresh. The connection stands at `Resolving`.
pub fn connect(address: String) -> (begun: Connection)
    ensures
        exists|secret: Seq<u8>|
            secret.len() == SECRET_SIZE && begun@ == #[trigger] ConnectionView::begin(
                address@,
                HandshakeView::initial(secret),
            ),
{
    let shaking = handshake();
    proof {
        let secret = choose|secret: Seq<u8>|
            secret.len() == SECRET_SIZE && shaking@ == #[trigger] HandshakeView::initial(secret);
        assert(ConnectionView::begin(address@, shaking@) == ConnectionView::begin(
            address@,
            HandshakeView::initial(secret),
        ));
    }
    Connection::with_handshake(address, shaking)
}

impl Connection {
    /// Begins a connection to `address` that will run the given handshake.
    pub fn with_handshake(address: String, handshake: Handshake) -> (begun: Connection)
        ensures
            begun@ == ConnectionView::begin(address@, handshake@),
    {
        Connection { progress: Progress::Resolving { address, handshake } }
    }

    /// Where the connection stands.
    pub fn state(&self) -> (state: ConnectionState)
        ensures
            state == self@.state(),
    {
        match &self.progress {
            Progress::Resolving { .. } => ConnectionState::Resolving,
            Progress::Dialing { .. } => ConnectionState::Dialing,
            Progress::Handshaking { .. } => ConnectionState::Handshaking,
            Progress::Connected { .. } => ConnectionState::Connected,
            Progress::Failed { .. } => ConnectionState::Failed,
        }
    }

    /// What the connector asks of the driver next.
    pub fn action(&self) -> (action: ConnectAction)
        ensures
            action@ == self@.action(),
    {
        match &self.progress {
            Progress::Resolving { address, .. } => ConnectAction::Resolve(address.clone()),
            Progress::Dialing { endpoint, .. } => ConnectAction::Dial(*endpoint),
            Progress::Handshaking { handshake } => ConnectAction::Stream(handshake.action()),
            Progress::Connected { .. } => ConnectAction::Done,
            Progress::Failed { .. } => ConnectAction::Abort,
        }
    }

    /// Takes the outcome of what was asked for, and hands back the
    /// connection in the state that follows, with what this state asks for.
    pub fn step(self, event: ConnectEvent) -> (out: (Connection, ConnectAction))
        ensures
            out.0@ == self@.step(event@),
            out.1@ == out.0@.action(),
    {
        let next = self.advance(event);
        let action = next.action();
        (next, action)
    }

    fn advance(self, event: ConnectEvent) -> (next: Connection)
        ensures
            next@ == self@.step(event@),
    {
        match self.progress {
            Progress::Connected { transport } => Connection {
                progress: Progress::Connected { transport },
            },
            Progress::Failed { error } => Connection { progress: Progress::Failed { error } },
            Progress::Resolving { address, handshake } => match event {
                ConnectEvent::Resolved(endpoints) => {
                    if endpoints.len() > 0 {
                        Connection {
                            progress: Progress::Dialing { endpoint: endpoints[0], handshake },
                        }
                    } else {
                        fail(ConnectError::Network(NetworkError::ResolutionFailed))
                    }
                },
                _ => fail(ConnectError::Network(NetworkError::ResolutionFailed)),
            },
            Progress::Dialing { endpoint, handshake } => match event {
                ConnectEvent::Dialed => shake(handshake),
                _ => fail(ConnectError::Network(NetworkError::ConnectFailed)),
            },
            Progress::Handshaking { handshake } => match event {
                ConnectEvent::Stream(outcome) => {
                    let (next, _) = handshake.step(outcome);
                    shake(next)
                },
                _ => fail(ConnectError::Handshake(HandshakeError::Malformed)),
            },
        }
    }

    /// Why the connection failed, if it has.
    pub fn error(&self) -> (error: Option<ConnectError>)
        ensures
            error == match self@ {
                ConnectionView::Failed { error } => Some(error),
                _ => None,
            },
    {
        match &self.progress {
            Progress::Failed { error } => Some(*error),
            _ => None,
        }
    }

    /// Ends the connection. Of a connected one it hands out the transport;
    /// of a failed one the reason. A connection that has not ended is handed
    /// back as it is.
    pub fn finish(self) -> (out: Result<Result<Transport, ConnectError>, Connection>)
        ensures
            match self@ {
                ConnectionView::Connected { transport } => out matches Ok(Ok(ready)) && ready@
                    == transport,
                ConnectionView::Failed { error } => out matches Ok(Err(reason)) && reason == error,
                _ => out matches Err(pending) && pending@ == self@,
            },
    {
        match self.progress {
            Progress::Connected { transport } => Ok(Ok(transport)),
            Progress::Failed { error } => Ok(Err(error)),
            other => Err(Connection { progress: other }),
        }
    }
}

/// An ended connection takes no further step.
pub proof fn lemma_terminal_absorbs(state: ConnectionView, event: ConnectEventView)
    requires
        state.terminal(),
    ensures
        state.step(event) == state,
{
}

/// The connection fails at the step where the network fails: with
/// `ResolutionFailed` where the address resolves to nothing, and with
/// `ConnectFailed` where the stream to the first endpoint does not open.
pub proof fn lemma_network_failure(
    address: Seq<char>,
    handshake: HandshakeView,
    endpoints: Seq<Endpoint>,
)
    ensures
        ({
            let begun = ConnectionView::begin(address, handshake);
            let resolved = begun.step(ConnectEventView::Resolved(endpoints));
            &&& begun.action() == ConnectActionView::Resolve(address)
            &&& endpoints.len() == 0 ==> resolved == ConnectionView::failed(
                ConnectError::Network(NetworkError::ResolutionFailed),
            )
            &&& endpoints.len() > 0 ==> resolved.action() == ConnectActionView::Dial(endpoints[0])
                && resolved.step(ConnectEventView::Refused) == ConnectionView::failed(
                ConnectError::Network(NetworkError::ConnectFailed),
            )
        }),
{
}

/// With an address that resolves, a stream that opens and a server that
/// keeps to the protocol, the connection ends in a transport: its ciphers
/// are under the keys that the exchange derives, neither has taken a frame,
/// and nothing is buffered.
pub proof fn lemma_honest_connection(
    address: Seq<char>,
    endpoints: Seq<Endpoint>,
    secret: Seq<u8>,
    version: u8,
    public: Seq<u8>,
)
    requires
        endpoints.len() > 0,
        version_accepted(version),
        1 <= public.len() <= GROUP_SIZE,
        exchanged(secret, version, public).server_tag.len() == DIGEST_SIZE,
    ensures
        ({
            let keys = exchanged(secret, version, public);
            let hello = server_hello(version, public);
            let ack = server_ack(keys.server_tag);
            let dialled = ConnectionView::begin(address, HandshakeView::initial(secret)).step(
                ConnectEventView::Resolved(endpoints),
            ).step(ConnectEventView::Dialed);
            let ended = dialled.step(ConnectEventView::Stream(HandshakeEventView::Written)).step(
                ConnectEventView::Stream(
                    HandshakeEventView::Received(hello.subrange(0, PREFIX_SIZE as int)),
                ),
            ).step(
                ConnectEventView::Stream(
                    HandshakeEventView::Received(
                        hello.subrange(PREFIX_SIZE as int, hello.len() as int),
                    ),
                ),
            ).step(ConnectEventView::Stream(HandshakeEventView::Written)).step(
                ConnectEventView::Stream(
                    HandshakeEventView::Received(ack.subrange(0, PREFIX_SIZE as int)),
                ),
            ).step(
                ConnectEventView::Stream(
                    HandshakeEventView::Received(ack.subrange(PREFIX_SIZE as int, ack.len() as int)),
                ),
            );
            &&& dialled == ConnectionView::Handshaking { handshake: HandshakeView::initial(secret) }
            &&& ended == ConnectionView::Connected {
                transport: TransportView::fresh(established(keys, version)),
            }
        }),
{
    lemma_honest_server(secret, version, public);
}

} // verus!
