//! The credential exchange: one login request out, one frame back, and the
//! reading of that frame as acceptance, rejection or a breach of protocol.
//!
//! The bodies of the login request and of the welcome follow a schema that
//! is kept outside this crate. The exchange hands the request to the driver
//! as plain fields, takes it back as bytes, and does the same in reverse for
//! the welcome. Like the handshake it performs no input or output: it says
//! what comes next and takes the outcome as an event.

use vstd::prelude::*;
use crate::codec::{encodes, frame_bytes, lemma_decode_inverts_encode, CodecError, Decoded, Frame, FrameView};
use crate::transport::{Transport, TransportView};
use crate::wire::copy;

verus! {

/// The command code of a login request.
pub const LOGIN_REQUEST: u8 = 0xab;

/// The command code with which the peer accepts a login.
pub const LOGIN_SUCCESS: u8 = 0xac;

/// The command code with which the peer rejects a login.
pub const LOGIN_FAILURE: u8 = 0xad;

/// The kind of secret that credentials hold.
#[derive(Clone, Copy, Debug, PartialEq, Eq, Structural)]
pub enum AuthenticationType {
    /// A user name and a password.
    UserPass,
    /// A token that an earlier login returned for reuse.
    StoredCredentials,
    /// A stored token of a linked third-party account.
    StoredFacebookCredentials,
    /// A session token.
    Token,
    /// A session token of a linked third-party account.
    FacebookToken,
}

/// What a user logs in with. The authentication data may be a secret: no
/// error of this crate holds any of it.
pub struct Credentials {
    /// The user name.
    pub username: String,
    /// The kind of the authentication data.
    pub auth_type: AuthenticationType,
    /// The authentication data.
    pub auth_data: Vec<u8>,
}

/// Credentials as contracts see them.
pub ghost struct CredentialsView {
    pub username: Seq<char>,
    pub auth_type: AuthenticationType,
    pub auth_data: Seq<u8>,
}

impl View for Credentials {
    type V = CredentialsView;

    open spec fn view(&self) -> CredentialsView {
        CredentialsView {
            username: self.username@,
            auth_type: self.auth_type,
            auth_data: self.auth_data@,
        }
    }
}

/// What the client says of itself in a login request. None of it is secret.
pub struct ClientInfo {
    /// The client's version, for people to read.
    pub version_string: String,
    /// What the client reports of the system it runs on.
    pub system_information: String,
}

/// Client information as contracts see it.
pub ghost struct ClientInfoView {
    pub version_string: Seq<char>,
    pub system_information: Seq<char>,
}

impl View for ClientInfo {
    type V = ClientInfoView;

    open spec fn view(&self) -> ClientInfoView {
        ClientInfoView {
            version_string: self.version_string@,
            system_information: self.system_information@,
        }
    }
}

/// The fields of a login request, before the schema encodes them.
pub struct LoginRequest {
    /// The user name, from the credentials.
    pub username: String,
    /// The kind of the authentication data, from the credentials.
    pub auth_type: AuthenticationType,
    /// The authentication data, from the credentials.
    pub auth_data: Vec<u8>,
    /// The identifier of this device.
    pub device_id: String,
    /// What the client reports of the system it runs on.
    pub system_information: String,
    /// The client's version.
    pub version_string: String,
}

/// A login request as contracts see it.
pub ghost struct LoginRequestView {
    pub username: Seq<char>,
    pub auth_type: AuthenticationType,
    pub auth_data: Seq<u8>,
    pub device_id: Seq<char>,
    pub system_information: Seq<char>,
    pub version_string: Seq<char>,
}

impl View for LoginRequest {
    type V = LoginRequestView;

    open spec fn view(&self) -> LoginRequestView {
        LoginRequestView {
            username: self.username@,
            auth_type: self.auth_type,
            auth_data: self.auth_data@,
            device_id: self.device_id@,
            system_information: self.system_information@,
            version_string: self.version_string@,
        }
    }
}

/// The fields of a welcome that the exchange reads, after the schema has
/// decoded them.
pub struct Welcome {
    /// The user name in the form that the peer keeps.
    pub canonical_username: String,
    /// The kind of the reusable token.
    pub reusable_auth_credentials_type: AuthenticationType,
    /// The reusable token.
    pub reusable_auth_credentials: Vec<u8>,
}

/// A welcome as contracts see it.
pub ghost struct WelcomeView {
    pub canonical_username: Seq<char>,
    pub reusable_auth_credentials_type: AuthenticationType,
    pub reusable_auth_credentials: Seq<u8>,
}

impl View for Welcome {
    type V = WelcomeView;

    open spec fn view(&self) -> WelcomeView {
        WelcomeView {
            canonical_username: self.canonical_username@,
            reusable_auth_credentials_type: self.reusable_auth_credentials_type,
            reusable_auth_credentials: self.reusable_auth_credentials@,
        }
    }
}

/// The peer turned the credentials down. The same credentials should not be
/// tried again unasked.
#[derive(Clone, Copy, Debug, PartialEq, Eq, Structural)]
pub enum AuthenticationError {
    /// The credentials were rejected, or the account is restricted.
    Rejected,
}

/// The exchange did not go as the protocol has it.
#[derive(Clone, Copy, Debug, PartialEq, Eq, Structural)]
pub enum ProtocolError {
    /// The peer answered with a frame of this command, which is no answer to
    /// a login request.
    UnexpectedPacket(u8),
    /// The stream ended before the answer had begun.
    ConnectionClosed,
    /// The schema could not encode the login request.
    MalformedRequest,
    /// The peer accepted the login with a payload that is no welcome.
    MalformedWelcome,
    /// The driver handed in an event that answers no operation asked for.
    OutOfTurn,
}

/// Why an authentication failed. Rejection and breach of protocol are told
/// apart, so that a caller can ask for other credentials in the one case and
/// connect anew in the other.
#[derive(Clone, Copy, Debug, PartialEq, Eq, Structural)]
pub enum AuthError {
    /// The codec refused a frame.
    Codec(CodecError),
    /// The peer rejected the credentials.
    Authentication(AuthenticationError),
    /// The exchange broke the protocol.
    Protocol(ProtocolError),
}

/// Where an authentication stands.
#[derive(Clone, Copy, Debug, PartialEq, Eq, Structural)]
pub enum AuthenticationState {
    /// The login request waits to be encoded by the schema.
    Encoding,
    /// The request frame waits to be written.
    Sending,
    /// The answer is awaited.
    Receiving,
    /// The welcome waits to be decoded by the schema.
    Decoding,
    /// The login was accepted.
    Authenticated,
    /// The authentication has failed.
    Failed,
}

/// The outcome of what the authentication asked for.
pub enum AuthEvent {
    /// The schema has encoded the login request as these bytes, or found
    /// that it cannot.
    Encoded(Option<Vec<u8>>),
    /// The bytes of a write have all been written.
    Written,
    /// A read has delivered these bytes.
    Received(Vec<u8>),
    /// The stream has ended, or failed.
    Closed,
    /// The schema has decoded the welcome, or found that it is none.
    Decoded(Option<Welcome>),
}

/// An event as contracts see it.
pub ghost enum AuthEventView {
    Encoded(Option<Seq<u8>>),
    Written,
    Received(Seq<u8>),
    Closed,
    Decoded(Option<WelcomeView>),
}

impl View for AuthEvent {
    type V = AuthEventView;

    open spec fn view(&self) -> AuthEventView {
        match *self {
            AuthEvent::Encoded(bytes) => AuthEventView::Encoded(
                match bytes {
                    Some(b) => Some(b@),
                    None => None,
                },
            ),
            AuthEvent::Written => AuthEventView::Written,
            AuthEvent::Received(bytes) => AuthEventView::Received(bytes@),
            AuthEvent::Closed => AuthEventView::Closed,
            AuthEvent::Decoded(welcome) => AuthEventView::Decoded(
                match welcome {
                    Some(w) => Some(w@),
                    None => None,
                },
            ),
        }
    }
}

/// What the authentication asks of the driver next.
pub enum AuthAction {
    /// Encode this login request by the schema.
    Encode(LoginRequest),
    /// Write all of these bytes to the stream.
    Write(Vec<u8>),
    /// Read what the stream delivers next.
    Read,
    /// Decode this payload as a welcome by the schema.
    Decode(Vec<u8>),
    /// Nothing more: the login was accepted.
    Done,
    /// Nothing more: the authentication has failed.
    Abort,
}

/// An action as contracts see it.
pub ghost enum AuthActionView {
    Encode(LoginRequestView),
    Write(Seq<u8>),
    Read,
    Decode(Seq<u8>),
    Done,
    Abort,
}

impl View for AuthAction {
    type V = AuthActionView;

    open spec fn view(&self) -> AuthActionView {
        match *self {
            AuthAction::Encode(request) => AuthActionView::Encode(request@),
            AuthAction::Write(bytes) => AuthActionView::Write(bytes@),
            AuthAction::Read => AuthActionView::Read,
            AuthAction::Decode(payload) => AuthActionView::Decode(payload@),
            AuthAction::Done => AuthActionView::Done,
            AuthAction::Abort => AuthActionView::Abort,
        }
    }
}

/// The login request that presents these credentials for this device.
pub open spec fn login_request_of(
    credentials: CredentialsView,
    device_id: Seq<char>,
    client: ClientInfoView,
) -> LoginRequestView {
    LoginRequestView {
        username: credentials.username,
        auth_type: credentials.auth_type,
        auth_data: credentials.auth_data,
        device_id,
        system_information: client.system_information,
        version_string: client.version_string,
    }
}

/// The reusable credentials that a welcome grants: the canonical user name
/// with the reusable token and its kind.
pub open spec fn reusable(welcome: WelcomeView) -> CredentialsView {
    CredentialsView {
        username: welcome.canonical_username,
        auth_type: welcome.reusable_auth_credentials_type,
        auth_data: welcome.reusable_auth_credentials,
    }
}

/// An authentication as contracts see it: its state, with what the state
/// holds. A failed authentication holds no transport: none is handed back.
pub ghost enum AuthenticationView {
    Encoding { transport: TransportView, request: LoginRequestView },
    Sending { transport: TransportView, wire: Seq<u8> },
    Receiving { transport: TransportView },
    Decoding { transport: TransportView, payload: Seq<u8> },
    Authenticated { transport: TransportView, credentials: CredentialsView },
    Failed { error: AuthError },
}

impl AuthenticationView {
    /// The authentication that has not yet asked for anything.
    pub open spec fn begin(
        transport: TransportView,
        credentials: CredentialsView,
        device_id: Seq<char>,
        client: ClientInfoView,
    ) -> AuthenticationView {
        AuthenticationView::Encoding {
            transport,
            request: login_request_of(credentials, device_id, client),
        }
    }

    /// Where the authentication stands.
    pub open spec fn state(self) -> AuthenticationState {
        match self {
            AuthenticationView::Encoding { .. } => AuthenticationState::Encoding,
            AuthenticationView::Sending { .. } => AuthenticationState::Sending,
            AuthenticationView::Receiving { .. } => AuthenticationState::Receiving,
            AuthenticationView::Decoding { .. } => AuthenticationState::Decoding,
            AuthenticationView::Authenticated { .. } => AuthenticationState::Authenticated,
            AuthenticationView::Failed { .. } => AuthenticationState::Failed,
        }
    }

    /// Whether the authentication has ended, well or badly.
    pub open spec fn terminal(self) -> bool {
        self is Authenticated || self is Failed
    }

    /// What the authentication asks for in this state.
    pub open spec fn action(self) -> AuthActionView {
        match self {
            AuthenticationView::Encoding { request, .. } => AuthActionView::Encode(request),
            AuthenticationView::Sending { wire, .. } => AuthActionView::Write(wire),
            AuthenticationView::Receiving { .. } => AuthActionView::Read,
            AuthenticationView::Decoding { payload, .. } => AuthActionView::Decode(payload),
            AuthenticationView::Authenticated { .. } => AuthActionView::Done,
            AuthenticationView::Failed { .. } => AuthActionView::Abort,
        }
    }

    /// The authentication that failed for this reason.
    pub open spec fn failed(error: AuthError) -> AuthenticationView {
        AuthenticationView::Failed { error }
    }

    /// After the schema has encoded the request: the request goes out as one
    /// frame with the login command, unless the codec refuses it.
    pub open spec fn framed(transport: TransportView, request: Seq<u8>) -> AuthenticationView {
        if request.len() > transport.codec.limit {
            Self::failed(AuthError::Codec(CodecError::OversizedFrame))
        } else if transport.codec.send.exhausted() {
            Self::failed(AuthError::Codec(CodecError::NonceExhausted))
        } else {
            AuthenticationView::Sending {
                transport: transport.sent(),
                wire: frame_bytes(transport.codec.send, LOGIN_REQUEST, request),
            }
        }
    }

    /// The reading of the one frame that answers a login request. The
    /// success code leads on to the decoding of the welcome; the failure
    /// code is a rejection; any other command is a breach of protocol.
    pub open spec fn answered(transport: TransportView, frame: FrameView) -> AuthenticationView {
        if frame.command == LOGIN_SUCCESS {
            AuthenticationView::Decoding { transport, payload: frame.payload }
        } else if frame.command == LOGIN_FAILURE {
            Self::failed(AuthError::Authentication(AuthenticationError::Rejected))
        } else {
            Self::failed(AuthError::Protocol(ProtocolError::UnexpectedPacket(frame.command)))
        }
    }

    /// While the answer is awaited: `bytes` arrive, or, with `closed`, the
    /// stream ends. A whole frame is read as the answer. Bytes short of a
    /// frame are kept while the stream is open. At the end of the stream an
    /// empty buffer means that the peer closed the connection, and a frame
    /// begun means that it was cut short.
    pub open spec fn awaited(transport: TransportView, bytes: Seq<u8>, closed: bool)
        -> AuthenticationView {
        match transport.incoming(bytes) {
            Decoded::Incomplete => if !closed {
                AuthenticationView::Receiving { transport: transport.fed(bytes) }
            } else if transport.inbound.len() + bytes.len() == 0 {
                Self::failed(AuthError::Protocol(ProtocolError::ConnectionClosed))
            } else {
                Self::failed(AuthError::Codec(CodecError::Truncated))
            },
            Decoded::Oversized => Self::failed(AuthError::Codec(CodecError::OversizedFrame)),
            Decoded::Exhausted => Self::failed(AuthError::Codec(CodecError::NonceExhausted)),
            Decoded::Corrupt { .. } => Self::failed(
                AuthError::Codec(CodecError::DecryptionFailed),
            ),
            Decoded::Frame { frame, .. } => Self::answered(transport.fed(bytes), frame),
        }
    }

    /// The state that follows on an event. An ended authentication stays as
    /// it is. In every other state the end of the stream is
    /// `ConnectionClosed`, but while the answer is awaited, where `awaited`
    /// says what it is; and an event that answers nothing asked for is
    /// `OutOfTurn`.
    pub open spec fn step(self, event: AuthEventView) -> AuthenticationView {
        match self {
            AuthenticationView::Authenticated { .. } => self,
            AuthenticationView::Failed { .. } => self,
            AuthenticationView::Encoding { transport, request } => match event {
                AuthEventView::Encoded(Some(bytes)) => Self::framed(transport, bytes),
                AuthEventView::Encoded(None) => Self::failed(
                    AuthError::Protocol(ProtocolError::MalformedRequest),
                ),
                AuthEventView::Closed => Self::failed(
                    AuthError::Protocol(ProtocolError::ConnectionClosed),
                ),
                _ => Self::failed(AuthError::Protocol(ProtocolError::OutOfTurn)),
            },
            AuthenticationView::Sending { transport, wire } => match event {
                AuthEventView::Written => AuthenticationView::Receiving { transport },
                AuthEventView::Closed => Self::failed(
                    AuthError::Protocol(ProtocolError::ConnectionClosed),
                ),
                _ => Self::failed(AuthError::Protocol(ProtocolError::OutOfTurn)),
            },
            AuthenticationView::Receiving { transport } => match event {
                AuthEventView::Received(bytes) => Self::awaited(transport, bytes, false),
                AuthEventView::Closed => Self::awaited(transport, Seq::empty(), true),
                _ => Self::failed(AuthError::Protocol(ProtocolError::OutOfTurn)),
            },
            AuthenticationView::Decoding { transport, payload } => match event {
                AuthEventView::Decoded(Some(welcome)) => AuthenticationView::Authenticated {
                    transport,
                    credentials: reusable(welcome),
                },
                AuthEventView::Decoded(None) => Self::failed(
                    AuthError::Protocol(ProtocolError::MalformedWelcome),
                ),
                AuthEventView::Closed => Self::failed(
                    AuthError::Protocol(ProtocolError::ConnectionClosed),
                ),
                _ => Self::failed(AuthError::Protocol(ProtocolError::OutOfTurn)),
            },
        }
    }
}

enum Phase {
    Encoding { transport: Transport, request: LoginRequest },
    Sending { transport: Transport, wire: Vec<u8> },
    Receiving { transport: Transport },
    Decoding { transport: Transport, payload: Vec<u8> },
    Authenticated { transport: Transport, credentials: Credentials },
    Failed { error: AuthError },
}

/// One authentication: its state, and what the state holds.
pub struct Authentication {
    phase: Phase,
}

impl View for Authentication {
    type V = AuthenticationView;

    closed spec fn view(&self) -> AuthenticationView {
        match self.phase {
            Phase::Encoding { transport, request } => AuthenticationView::Encoding {
                transport: transport@,
                request: request@,
            },
            Phase::Sending { transport, wire } => AuthenticationView::Sending {
                transport: transport@,
                wire: wire@,
            },
            Phase::Receiving { transport } => AuthenticationView::Receiving {
                transport: transport@,
            },
            Phase::Decoding { transport, payload } => AuthenticationView::Decoding {
                transport: transport@,
                payload: payload@,
            },
            Phase::Authenticated { transport, credentials } => AuthenticationView::Authenticated {
                transport: transport@,
                credentials: credentials@,
            },
            Phase::Failed { error } => AuthenticationView::Failed { error },
        }
    }
}

/// The login request that presents `credentials` for the device `device_id`.
pub fn login_request(credentials: Credentials, device_id: String, client: ClientInfo) -> (request:
    LoginRequest)
    ensures
        request@ == login_request_of(credentials@, device_id@, client@),
{
    let Credentials { username, auth_type, auth_data } = credentials;
    let ClientInfo { version_string, system_information } = client;
    LoginRequest { username, auth_type, auth_data, device_id, system_information, version_string }
}

/// The reusable credentials that `welcome` grants.
pub fn reusable_credentials(welcome: Welcome) -> (credentials: Credentials)
    ensures
        credentials@ == reusable(welcome@),
{
    let Welcome {
        canonical_username,
        reusable_auth_credentials_type,
        reusable_auth_credentials,
    } = welcome;
    Credentials {
        username: canonical_username,
        auth_type: reusable_auth_credentials_type,
        auth_data: reusable_auth_credentials,
    }
}

fn fail(error: AuthError) -> (out: Authentication)
    ensures
        out@ == AuthenticationView::failed(error),
{
    Authentication { phase: Phase::Failed { error } }
}

fn answer(transport: Transport, frame: Frame) -> (out: Authentication)
    ensures
        out@ == AuthenticationView::answered(transport@, frame@),
{
    let Frame { command, payload } = frame;
    if command == LOGIN_SUCCESS {
        Authentication { phase: Phase::Decoding { transport, payload } }
    } else if command == LOGIN_FAILURE {
        fail(AuthError::Authentication(AuthenticationError::Rejected))
    } else {
        fail(AuthError::Protocol(ProtocolError::UnexpectedPacket(command)))
    }
}

/// Begins the authentication of `credentials` over `transport`, for the
/// device `device_id`. The authentication takes the transport, and hands it
/// back only with the reusable credentials of an accepted login.
///
/// One request is sent and one frame is received; nothing is tried again.
/// The sending nonce advances when the request is framed, the receiving
/// nonce when the answer is taken from the buffer.
pub fn authenticate(
    transport: Transport,
    credentials: Credentials,
    device_id: String,
    client: ClientInfo,
) -> (begun: Authentication)
    ensures
        begun@ == AuthenticationView::begin(transport@, credentials@, device_id@, client@),
{
    let request = login_request(credentials, device_id, client);
    Authentication { phase: Phase::Encoding { transport, request } }
}

impl Authentication {
    /// Where the authentication stands.
    pub fn state(&self) -> (state: AuthenticationState)
        ensures
            state == self@.state(),
    {
        match &self.phase {
            Phase::Encoding { .. } => AuthenticationState::Encoding,
            Phase::Sending { .. } => AuthenticationState::Sending,
            Phase::Receiving { .. } => AuthenticationState::Receiving,
            Phase::Decoding { .. } => AuthenticationState::Decoding,
            Phase::Authenticated { .. } => AuthenticationState::Authenticated,
            Phase::Failed { .. } => AuthenticationState::Failed,
        }
    }

    /// What the authentication asks of the driver next.
    pub fn action(&self) -> (action: AuthAction)
        ensures
            action@ == self@.action(),
    {
        match &self.phase {
            Phase::Encoding { request, .. } => AuthAction::Encode(
                LoginRequest {
                    username: request.username.clone(),
                    auth_type: request.auth_type,
                    auth_data: copy(&request.auth_data),
                    device_id: request.device_id.clone(),
                    system_information: request.system_information.clone(),
                    version_string: request.version_string.clone(),
                },
            ),
            Phase::Sending { wire, .. } => AuthAction::Write(copy(wire)),
            Phase::Receiving { .. } => AuthAction::Read,
            Phase::Decoding { payload, .. } => AuthAction::Decode(copy(payload)),
            Phase::Authenticated { .. } => AuthAction::Done,
            Phase::Failed { .. } => AuthAction::Abort,
        }
    }

    /// Takes the outcome of what was asked for, and hands back the
    /// authentication in the state that follows, with what this state asks
    /// for.
    pub fn step(self, event: AuthEvent) -> (out: (Authentication, AuthAction))
        ensures
            out.0@ == self@.step(event@),
            out.1@ == out.0@.action(),
    {
        let next = self.advance(event);
        let action = next.action();
        (next, action)
    }

    fn advance(self, event: AuthEvent) -> (next: Authentication)
        ensures
            next@ == self@.step(event@),
    {
        match self.phase {
            Phase::Authenticated { transport, credentials } => Authentication {
                phase: Phase::Authenticated { transport, credentials },
            },
            Phase::Failed { error } => Authentication { phase: Phase::Failed { error } },
            Phase::Encoding { transport, request } => match event {
                AuthEvent::Encoded(None) => fail(
                    AuthError::Protocol(ProtocolError::MalformedRequest),
                ),
                AuthEvent::Encoded(Some(bytes)) => {
                    let mut transport = transport;
                    match transport.send(LOGIN_REQUEST, &bytes) {
                        Ok(wire) => Authentication { phase: Phase::Sending { transport, wire } },
                        Err(error) => fail(AuthError::Codec(error)),
                    }
                },
                AuthEvent::Closed => fail(AuthError::Protocol(ProtocolError::ConnectionClosed)),
                _ => fail(AuthError::Protocol(ProtocolError::OutOfTurn)),
            },
            Phase::Sending { transport, wire } => match event {
                AuthEvent::Written => Authentication { phase: Phase::Receiving { transport } },
                AuthEvent::Closed => fail(AuthError::Protocol(ProtocolError::ConnectionClosed)),
                _ => fail(AuthError::Protocol(ProtocolError::OutOfTurn)),
            },
            Phase::Receiving { transport } => match event {
                AuthEvent::Received(bytes) => {
                    let mut transport = transport;
                    match transport.receive(&bytes) {
                        Ok(None) => Authentication { phase: Phase::Receiving { transport } },
                        Ok(Some(frame)) => answer(transport, frame),
                        Err(error) => fail(AuthError::Codec(error)),
                    }
                },
                AuthEvent::Closed => {
                    let mut transport = transport;
                    match transport.close() {
                        Ok(None) => fail(AuthError::Protocol(ProtocolError::ConnectionClosed)),
                        Ok(Some(frame)) => answer(transport, frame),
                        Err(error) => fail(AuthError::Codec(error)),
                    }
                },
                _ => fail(AuthError::Protocol(ProtocolError::OutOfTurn)),
            },
            Phase::Decoding { transport, payload } => match event {
                AuthEvent::Decoded(Some(welcome)) => Authentication {
                    phase: Phase::Authenticated {
                        transport,
                        credentials: reusable_credentials(welcome),
                    },
                },
                AuthEvent::Decoded(None) => fail(
                    AuthError::Protocol(ProtocolError::MalformedWelcome),
                ),
                AuthEvent::Closed => fail(AuthError::Protocol(ProtocolError::ConnectionClosed)),
                _ => fail(AuthError::Protocol(ProtocolError::OutOfTurn)),
            },
        }
    }

    /// Why the authentication failed, if it has.
    pub fn error(&self) -> (error: Option<AuthError>)
        ensures
            error == match self@ {
                AuthenticationView::Failed { error } => Some(error),
                _ => None,
            },
    {
        match &self.phase {
            Phase::Failed { error } => Some(*error),
            _ => None,
        }
    }

    /// Ends the authentication. Of an accepted login it hands out the
    /// transport, for further use, with the reusable credentials; of a
    /// failed one the reason, and no transport. An authentication that has
    /// not ended is handed back as it is.
    pub fn finish(self) -> (out: Result<Result<(Transport, Credentials), AuthError>, Authentication>)
        ensures
            match self@ {
                AuthenticationView::Authenticated { transport, credentials } => out matches Ok(
                    Ok(granted),
                ) && granted.0@ == transport && granted.1@ == credentials,
                AuthenticationView::Failed { error } => out matches Ok(Err(reason)) && reason
                    == error,
                _ => out matches Err(pending) && pending@ == self@,
            },
    {
        match self.phase {
            Phase::Authenticated { transport, credentials } => Ok(Ok((transport, credentials))),
            Phase::Failed { error } => Ok(Err(error)),
            other => Err(Authentication { phase: other }),
        }
    }
}

/// The answer of a peer that frames `command` and `payload` under the cipher
/// that this side receives with, read from an empty buffer, is taken whole
/// and read as `answered` says.
pub proof fn lemma_answer(transport: TransportView, command: u8, payload: Seq<u8>, wire: Seq<u8>)
    requires
        transport.inbound.len() == 0,
        encodes(transport.codec.recv, command, payload, wire),
        payload.len() <= transport.codec.limit,
        !transport.codec.recv.exhausted(),
    ensures
        (AuthenticationView::Receiving { transport }).step(AuthEventView::Received(wire))
            == AuthenticationView::answered(
            transport.taken(wire, wire.len()),
            FrameView { command, payload },
        ),
{
    lemma_decode_inverts_encode(
        transport.codec.recv,
        transport.codec.limit,
        command,
        payload,
        wire,
    );
    assert(transport.inbound + wire =~= wire);
}

/// A stream that ends before a byte of the answer has arrived is a closed
/// connection.
pub proof fn lemma_closed_before_answer(transport: TransportView)
    requires
        transport.inbound.len() == 0,
    ensures
        (AuthenticationView::Receiving { transport }).step(AuthEventView::Closed)
            == AuthenticationView::failed(AuthError::Protocol(ProtocolError::ConnectionClosed)),
{
    assert(transport.inbound + Seq::<u8>::empty() =~= transport.inbound);
}

/// One login, from the encoded request to the peer's answer. The request
/// goes out as one frame under the sending nonce; the answer, framed by the
/// peer under the receiving nonce, is read by its command. Acceptance leaves
/// the transport with each of its two nonce counters advanced by one and an
/// empty buffer, and with the welcome's payload to decode; rejection and any
/// other command end the authentication, and no transport is left.
pub proof fn lemma_login_round_trip(
    transport: TransportView,
    request: LoginRequestView,
    encoded: Seq<u8>,
    command: u8,
    payload: Seq<u8>,
    wire: Seq<u8>,
)
    requires
        transport.inbound.len() == 0,
        encoded.len() <= transport.codec.limit,
        !transport.codec.send.exhausted(),
        encodes(transport.codec.recv, command, payload, wire),
        payload.len() <= transport.codec.limit,
        !transport.codec.recv.exhausted(),
    ensures
        ({
            let sending = (AuthenticationView::Encoding { transport, request }).step(
                AuthEventView::Encoded(Some(encoded)),
            );
            let receiving = sending.step(AuthEventView::Written);
            let answered = receiving.step(AuthEventView::Received(wire));
            &&& sending.action() == AuthActionView::Write(
                frame_bytes(transport.codec.send, LOGIN_REQUEST, encoded),
            )
            &&& receiving.action() == AuthActionView::Read
            &&& command == LOGIN_SUCCESS ==> {
                &&& answered matches AuthenticationView::Decoding { transport: after, payload: body }
                &&& body == payload
                &&& after.codec.send.counter == transport.codec.send.counter + 1
                &&& after.codec.recv.counter == transport.codec.recv.counter + 1
                &&& after.inbound.len() == 0
            }
            &&& command == LOGIN_FAILURE ==> answered == AuthenticationView::failed(
                AuthError::Authentication(AuthenticationError::Rejected),
            )
            &&& command != LOGIN_SUCCESS && command != LOGIN_FAILURE ==> answered
                == AuthenticationView::failed(
                AuthError::Protocol(ProtocolError::UnexpectedPacket(command)),
            )
        }),
{
    lemma_answer(transport.sent(), command, payload, wire);
}

/// An accepted login grants the credentials that the welcome holds: the
/// canonical user name, the reusable token and its kind.
pub proof fn lemma_welcome_grants(transport: TransportView, payload: Seq<u8>, welcome: WelcomeView)
    ensures
        (AuthenticationView::Decoding { transport, payload }).step(
            AuthEventView::Decoded(Some(welcome)),
        ) == (AuthenticationView::Authenticated {
            transport,
            credentials: CredentialsView {
                username: welcome.canonical_username,
                auth_type: welcome.reusable_auth_credentials_type,
                auth_data: welcome.reusable_auth_credentials,
            },
        }),
{
}

/// A login that the peer accepts, from beginning to end: the credentials are
/// presented in one request, the peer answers with the success code and a
/// welcome, and the authentication ends with the transport, each nonce
/// counter advanced by one, and the credentials that the welcome grants.
pub proof fn lemma_accepted_login(
    transport: TransportView,
    credentials: CredentialsView,
    device_id: Seq<char>,
    client: ClientInfoView,
    encoded: Seq<u8>,
    payload: Seq<u8>,
    wire: Seq<u8>,
    welcome: WelcomeView,
)
    requires
        transport.inbound.len() == 0,
        encoded.len() <= transport.codec.limit,
        !transport.codec.send.exhausted(),
        encodes(transport.codec.recv, LOGIN_SUCCESS, payload, wire),
        payload.len() <= transport.codec.limit,
        !transport.codec.recv.exhausted(),
    ensures
        ({
            let begun = AuthenticationView::begin(transport, credentials, device_id, client);
            let ended = begun.step(AuthEventView::Encoded(Some(encoded))).step(
                AuthEventView::Written,
            ).step(AuthEventView::Received(wire)).step(AuthEventView::Decoded(Some(welcome)));
            &&& begun.action() == AuthActionView::Encode(
                login_request_of(credentials, device_id, client),
            )
            &&& ended matches AuthenticationView::Authenticated { transport: after, credentials: granted }
            &&& granted == reusable(welcome)
            &&& after.codec.send.counter == transport.codec.send.counter + 1
            &&& after.codec.recv.counter == transport.codec.recv.counter + 1
            &&& after.codec.send.key == transport.codec.send.key
            &&& after.codec.recv.key == transport.codec.recv.key
            &&& after.inbound.len() == 0
        }),
{
    lemma_login_round_trip(
        transport,
        login_request_of(credentials, device_id, client),
        encoded,
        LOGIN_SUCCESS,
        payload,
        wire,
    );
}

/// An ended authentication takes no further step.
pub proof fn lemma_terminal_absorbs(state: AuthenticationView, event: AuthEventView)
    requires
        state.terminal(),
    ensures
        state.step(event) == state,
{
}

} // verus!
