use ap_connection::connection::{
    connect, ConnectAction, ConnectError, ConnectEvent, Connection, ConnectionState, Endpoint,
    IpAddress, NetworkError,
};
use ap_connection::exchange::{derive_keys, public_key, shared_secret};
use ap_connection::handshake::{
    Handshake, HandshakeAction, HandshakeError, HandshakeEvent, PREFIX_SIZE,
};
use ap_connection::codec::APCodec;

fn first() -> Endpoint {
    Endpoint { address: IpAddress::V4(0x7f00_0001), port: 4070 }
}

fn second() -> Endpoint {
    Endpoint { address: IpAddress::V6(1), port: 443 }
}

fn begin() -> Connection {
    Connection::with_handshake("ap.example.org:4070".to_string(), Handshake::new(vec![7; 95]))
}

fn dialed() -> (Connection, Vec<u8>) {
    let (connection, _) = begin().step(ConnectEvent::Resolved(vec![first(), second()]));
    let (connection, action) = connection.step(ConnectEvent::Dialed);
    assert_eq!(connection.state(), ConnectionState::Handshaking);
    match action {
        ConnectAction::Stream(HandshakeAction::Write(hello)) => (connection, hello),
        _ => panic!("expected the client hello"),
    }
}

#[test]
fn connect_first_asks_to_resolve_the_address() {
    let connection = connect("ap.example.org:4070".to_string());
    assert_eq!(connection.state(), ConnectionState::Resolving);
    assert_eq!(connection.error(), None);
    match connection.action() {
        ConnectAction::Resolve(address) => assert_eq!(address, "ap.example.org:4070"),
        _ => panic!("expected a resolution"),
    }
    assert!(connection.finish().is_err());
}

#[test]
fn connect_dials_the_first_endpoint() {
    let (connection, action) = begin().step(ConnectEvent::Resolved(vec![first(), second()]));
    assert_eq!(connection.state(), ConnectionState::Dialing);
    match action {
        ConnectAction::Dial(endpoint) => assert_eq!(endpoint, first()),
        _ => panic!("expected a dial"),
    }
    let (connection, action) = begin().step(ConnectEvent::Resolved(vec![second()]));
    assert_eq!(connection.state(), ConnectionState::Dialing);
    match action {
        ConnectAction::Dial(endpoint) => assert_eq!(endpoint, second()),
        _ => panic!("expected a dial"),
    }
}

#[test]
fn connect_fails_when_nothing_resolves() {
    let (connection, action) = begin().step(ConnectEvent::Resolved(Vec::new()));
    assert!(matches!(action, ConnectAction::Abort));
    assert_eq!(connection.state(), ConnectionState::Failed);
    assert_eq!(
        connection.error(),
        Some(ConnectError::Network(NetworkError::ResolutionFailed))
    );
    match connection.finish() {
        Ok(Err(error)) => {
            assert_eq!(error, ConnectError::Network(NetworkError::ResolutionFailed))
        }
        _ => panic!("expected the failure"),
    }
}

#[test]
fn connect_fails_when_the_stream_does_not_open() {
    let (connection, _) = begin().step(ConnectEvent::Resolved(vec![first()]));
    let (connection, action) = connection.step(ConnectEvent::Refused);
    assert!(matches!(action, ConnectAction::Abort));
    assert_eq!(connection.error(), Some(ConnectError::Network(NetworkError::ConnectFailed)));
}

#[test]
fn connect_runs_the_handshake_over_the_open_stream() {
    let (connection, hello) = dialed();
    assert_eq!(hello[PREFIX_SIZE + 1..].to_vec(), public_key(&vec![7; 95]));
    let (connection, action) = connection.step(ConnectEvent::Stream(HandshakeEvent::Written));
    assert!(matches!(action, ConnectAction::Stream(HandshakeAction::Read(4))));
    assert_eq!(connection.state(), ConnectionState::Handshaking);
}

#[test]
fn connect_yields_a_transport_once_the_handshake_is_established() {
    let server_secret = vec![9u8; 95];
    let (connection, hello) = dialed();
    let (connection, _) = connection.step(ConnectEvent::Stream(HandshakeEvent::Written));
    let server_key = public_key(&server_secret);
    let mut reply = vec![0, 0, 0, (PREFIX_SIZE + 1 + server_key.len()) as u8, 4];
    reply.extend(server_key);
    let (connection, _) =
        connection.step(ConnectEvent::Stream(HandshakeEvent::Received(reply[..4].to_vec())));
    let (connection, _) =
        connection.step(ConnectEvent::Stream(HandshakeEvent::Received(reply[4..].to_vec())));
    let shared = shared_secret(&server_secret, &hello[PREFIX_SIZE + 1..].to_vec());
    let mut transcript = hello.clone();
    transcript.extend_from_slice(&reply);
    let keys = derive_keys(&shared, &transcript);
    let (connection, _) = connection.step(ConnectEvent::Stream(HandshakeEvent::Written));
    let (connection, _) =
        connection.step(ConnectEvent::Stream(HandshakeEvent::Received(vec![0, 0, 0, 24])));
    assert_eq!(connection.state(), ConnectionState::Handshaking);
    let (connection, action) = connection
        .step(ConnectEvent::Stream(HandshakeEvent::Received(keys.server_tag.clone())));
    assert!(matches!(action, ConnectAction::Done));
    assert_eq!(connection.state(), ConnectionState::Connected);
    let mut transport = match connection.finish() {
        Ok(Ok(transport)) => transport,
        _ => panic!("expected a transport"),
    };
    assert_eq!(transport.version(), 4);
    assert_eq!((transport.send_nonce(), transport.recv_nonce()), (0, 0));
    let mut server = APCodec::new(keys.recv_key.clone(), keys.send_key.clone());
    let mut wire = transport.send(0xab, &vec![1, 2, 3]).unwrap();
    let frame = server.decode(&mut wire).unwrap().unwrap();
    assert_eq!((frame.command, frame.payload), (0xab, vec![1, 2, 3]));
}

#[test]
fn connect_passes_on_the_failure_of_the_handshake() {
    let (connection, _) = dialed();
    let (connection, action) = connection.step(ConnectEvent::Stream(HandshakeEvent::Failed));
    assert!(matches!(action, ConnectAction::Abort));
    assert_eq!(connection.error(), Some(ConnectError::Handshake(HandshakeError::IOError)));

    let (connection, _) = dialed();
    let (connection, _) = connection.step(ConnectEvent::Stream(HandshakeEvent::Written));
    let (connection, _) = connection.step(ConnectEvent::Stream(HandshakeEvent::Closed));
    assert_eq!(connection.error(), Some(ConnectError::Handshake(HandshakeError::Malformed)));
}

#[test]
fn connect_fails_the_step_under_way_on_an_event_out_of_turn() {
    let (connection, _) = begin().step(ConnectEvent::Dialed);
    assert_eq!(
        connection.error(),
        Some(ConnectError::Network(NetworkError::ResolutionFailed))
    );
    let (connection, _) = begin().step(ConnectEvent::Resolved(vec![first()]));
    let (connection, _) = connection.step(ConnectEvent::Resolved(vec![first()]));
    assert_eq!(connection.error(), Some(ConnectError::Network(NetworkError::ConnectFailed)));
    let (connection, _) = dialed();
    let (connection, _) = connection.step(ConnectEvent::Dialed);
    assert_eq!(connection.error(), Some(ConnectError::Handshake(HandshakeError::Malformed)));
}

#[test]
fn ended_connection_stays_as_it_is() {
    let (connection, _) = begin().step(ConnectEvent::Resolved(Vec::new()));
    let (connection, action) = connection.step(ConnectEvent::Dialed);
    assert!(matches!(action, ConnectAction::Abort));
    assert_eq!(
        connection.error(),
        Some(ConnectError::Network(NetworkError::ResolutionFailed))
    );
}
