use ap_connection::codec::APCodec;
use ap_connection::exchange::{derive_keys, public_key, shared_secret, Keys, SECRET_SIZE};
use ap_connection::handshake::{
    handshake, Handshake, HandshakeAction, HandshakeError, HandshakeEvent, HandshakeState,
    ACK_SIZE, PREFIX_SIZE, PROTOCOL_VERSION,
};
use ap_connection::transport::Transport;

fn client_secret() -> Vec<u8> {
    (1u8..=95).collect()
}

fn server_secret() -> Vec<u8> {
    (60u8..155).collect()
}

fn written(action: HandshakeAction) -> Vec<u8> {
    match action {
        HandshakeAction::Write(bytes) => bytes,
        other => panic!("expected a write, got {:?}", other),
    }
}

fn asked(action: HandshakeAction) -> usize {
    match action {
        HandshakeAction::Read(count) => count,
        other => panic!("expected a read, got {:?}", other),
    }
}

/// The server hello with this version and the server's public key.
fn server_hello(version: u8) -> Vec<u8> {
    let key = public_key(&server_secret());
    let mut hello = vec![0, 0, 0, (PREFIX_SIZE + 1 + key.len()) as u8, version];
    hello.extend(key);
    hello
}

/// What the server derives once it has seen the client hello.
fn server_keys(client_hello: &[u8], server_hello: &[u8]) -> Keys {
    let client_key = client_hello[PREFIX_SIZE + 1..].to_vec();
    let shared = shared_secret(&server_secret(), &client_key);
    let mut transcript = client_hello.to_vec();
    transcript.extend_from_slice(server_hello);
    derive_keys(&shared, &transcript)
}

/// Runs the client up to the point where the server's tag is awaited.
fn until_ack(version: u8) -> (Handshake, Keys) {
    let client = Handshake::new(client_secret());
    let hello = written(client.action());
    let (client, action) = client.step(HandshakeEvent::Written);
    assert_eq!(asked(action), PREFIX_SIZE);
    let reply = server_hello(version);
    let (client, action) = client.step(HandshakeEvent::Received(reply[..PREFIX_SIZE].to_vec()));
    assert_eq!(asked(action), reply.len() - PREFIX_SIZE);
    let (client, action) = client.step(HandshakeEvent::Received(reply[PREFIX_SIZE..].to_vec()));
    let keys = server_keys(&hello, &reply);
    let response = written(action);
    assert_eq!(response[..PREFIX_SIZE].to_vec(), vec![0, 0, 0, 24]);
    assert_eq!(response[PREFIX_SIZE..].to_vec(), keys.challenge);
    let (client, action) = client.step(HandshakeEvent::Written);
    assert_eq!(asked(action), PREFIX_SIZE);
    let (client, action) =
        client.step(HandshakeEvent::Received(vec![0, 0, 0, ACK_SIZE as u8]));
    assert_eq!(asked(action), 20);
    assert_eq!(client.state(), HandshakeState::AwaitingAck);
    (client, keys)
}

#[test]
fn client_hello_offers_version_and_public_key() {
    let client = Handshake::new(client_secret());
    assert_eq!(client.state(), HandshakeState::Init);
    assert_eq!(client.error(), None);
    let hello = written(client.action());
    let key = public_key(&client_secret());
    assert_eq!(hello.len(), PREFIX_SIZE + 1 + key.len());
    assert_eq!(hello[..PREFIX_SIZE].to_vec(), vec![0, 0, 0, hello.len() as u8]);
    assert_eq!(hello[PREFIX_SIZE], PROTOCOL_VERSION);
    assert_eq!(hello[PREFIX_SIZE + 1..].to_vec(), key);
}

#[test]
fn handshake_passes_through_every_state_in_order() {
    let client = Handshake::new(client_secret());
    assert_eq!(client.state(), HandshakeState::Init);
    let (client, _) = client.step(HandshakeEvent::Written);
    assert_eq!(client.state(), HandshakeState::SentClientHello);
    let reply = server_hello(3);
    let (client, _) = client.step(HandshakeEvent::Received(reply[..4].to_vec()));
    assert_eq!(client.state(), HandshakeState::AwaitingServerHello);
    let (client, _) = client.step(HandshakeEvent::Received(reply[4..].to_vec()));
    assert_eq!(client.state(), HandshakeState::ComputedSharedSecret);
    let (client, _) = client.step(HandshakeEvent::Written);
    assert_eq!(client.state(), HandshakeState::SentClientResponse);
    let (client, _) = client.step(HandshakeEvent::Received(vec![0, 0, 0, 24]));
    assert_eq!(client.state(), HandshakeState::AwaitingAck);
    assert!(matches!(client.finish(), Err(_)));
}

#[test]
fn handshake_is_established_by_the_right_tag() {
    let (client, keys) = until_ack(3);
    let (client, action) = client.step(HandshakeEvent::Received(keys.server_tag.clone()));
    assert!(matches!(action, HandshakeAction::Done));
    assert_eq!(client.state(), HandshakeState::Established);
    assert_eq!(client.error(), None);
    let result = match client.finish() {
        Ok(Ok(result)) => result,
        _ => panic!("expected the result"),
    };
    assert_eq!(result.version, 3);
    assert_eq!(result.ciphers.send.counter(), 0);
    assert_eq!(result.ciphers.recv.counter(), 0);

    // The ciphers are the ones that the server derived, crossed over.
    let mut transport = Transport::new(result);
    let mut server = APCodec::new(keys.recv_key.clone(), keys.send_key.clone());
    let mut wire = transport.send(0x01, &b"first frame".to_vec()).unwrap();
    let frame = server.decode(&mut wire).unwrap().unwrap();
    assert_eq!((frame.command, frame.payload), (0x01, b"first frame".to_vec()));
    let reply = server.encode(0x02, &b"reply".to_vec()).unwrap();
    let frame = transport.receive(&reply).unwrap().unwrap();
    assert_eq!((frame.command, frame.payload), (0x02, b"reply".to_vec()));
    assert_eq!(transport.version(), 3);
}

#[test]
fn handshake_rejects_a_wrong_tag() {
    let (client, keys) = until_ack(PROTOCOL_VERSION);
    let mut tag = keys.server_tag.clone();
    tag[19] ^= 1;
    let (client, action) = client.step(HandshakeEvent::Received(tag));
    assert!(matches!(action, HandshakeAction::Abort));
    assert_eq!(client.state(), HandshakeState::Failed);
    assert_eq!(client.error(), Some(HandshakeError::InvalidSignature));
    assert!(matches!(client.finish(), Ok(Err(HandshakeError::InvalidSignature))));
}

#[test]
fn handshake_rejects_the_challenge_as_tag() {
    let (client, keys) = until_ack(1);
    let (client, _) = client.step(HandshakeEvent::Received(keys.challenge.clone()));
    assert_eq!(client.error(), Some(HandshakeError::InvalidSignature));
}

#[test]
fn handshake_rejects_a_tag_of_the_wrong_length() {
    let (client, keys) = until_ack(1);
    let (client, _) = client.step(HandshakeEvent::Received(keys.server_tag[..19].to_vec()));
    assert_eq!(client.error(), Some(HandshakeError::Malformed));
}

#[test]
fn handshake_rejects_a_hello_length_out_of_range() {
    for prefix in [
        vec![0u8, 0, 0, 5],
        vec![0, 0, 0, 0],
        vec![0, 0, 0, 102],
        vec![0, 0, 1, 6],
        vec![0xff, 0xff, 0xff, 0xff],
        vec![0, 0, 6],
        vec![0, 0, 0, 6, 0],
        vec![],
    ] {
        let client = Handshake::new(client_secret());
        let (client, _) = client.step(HandshakeEvent::Written);
        let (client, action) = client.step(HandshakeEvent::Received(prefix));
        assert!(matches!(action, HandshakeAction::Abort));
        assert_eq!(client.error(), Some(HandshakeError::Malformed));
    }
    for (prefix, rest) in [(vec![0u8, 0, 0, 6], 2usize), (vec![0, 0, 0, 101], 97)] {
        let client = Handshake::new(client_secret());
        let (client, _) = client.step(HandshakeEvent::Written);
        let (client, action) = client.step(HandshakeEvent::Received(prefix));
        assert_eq!(client.state(), HandshakeState::AwaitingServerHello);
        assert_eq!(asked(action), rest);
    }
}

#[test]
fn handshake_rejects_a_version_out_of_range() {
    for version in [0u8, PROTOCOL_VERSION + 1, 0xff] {
        let client = Handshake::new(client_secret());
        let (client, _) = client.step(HandshakeEvent::Written);
        let reply = server_hello(version);
        let (client, _) = client.step(HandshakeEvent::Received(reply[..4].to_vec()));
        let (client, _) = client.step(HandshakeEvent::Received(reply[4..].to_vec()));
        assert_eq!(client.error(), Some(HandshakeError::Malformed));
    }
    for version in 1..=PROTOCOL_VERSION {
        let client = Handshake::new(client_secret());
        let (client, _) = client.step(HandshakeEvent::Written);
        let reply = server_hello(version);
        let (client, _) = client.step(HandshakeEvent::Received(reply[..4].to_vec()));
        let (client, _) = client.step(HandshakeEvent::Received(reply[4..].to_vec()));
        assert_eq!(client.state(), HandshakeState::ComputedSharedSecret);
    }
}

#[test]
fn handshake_rejects_a_body_of_another_length() {
    let client = Handshake::new(client_secret());
    let (client, _) = client.step(HandshakeEvent::Written);
    let reply = server_hello(2);
    let (client, _) = client.step(HandshakeEvent::Received(reply[..4].to_vec()));
    let (client, _) = client.step(HandshakeEvent::Received(reply[4..reply.len() - 1].to_vec()));
    assert_eq!(client.error(), Some(HandshakeError::Malformed));
}

#[test]
fn handshake_rejects_an_ack_length_other_than_its_own() {
    for prefix in [vec![0u8, 0, 0, 23], vec![0, 0, 0, 25], vec![0, 0, 0, 4], vec![24]] {
        let client = Handshake::new(client_secret());
        let (client, _) = client.step(HandshakeEvent::Written);
        let reply = server_hello(2);
        let (client, _) = client.step(HandshakeEvent::Received(reply[..4].to_vec()));
        let (client, _) = client.step(HandshakeEvent::Received(reply[4..].to_vec()));
        let (client, _) = client.step(HandshakeEvent::Written);
        let (client, _) = client.step(HandshakeEvent::Received(prefix));
        assert_eq!(client.error(), Some(HandshakeError::Malformed));
    }
}

#[test]
fn handshake_fails_with_io_error_when_the_stream_fails() {
    let client = Handshake::new(client_secret());
    let (client, action) = client.step(HandshakeEvent::Failed);
    assert!(matches!(action, HandshakeAction::Abort));
    assert_eq!(client.error(), Some(HandshakeError::IOError));

    let client = Handshake::new(client_secret());
    let (client, _) = client.step(HandshakeEvent::Written);
    let (client, _) = client.step(HandshakeEvent::Failed);
    assert_eq!(client.error(), Some(HandshakeError::IOError));

    let (client, _) = until_ack(2);
    let (client, _) = client.step(HandshakeEvent::Failed);
    assert_eq!(client.error(), Some(HandshakeError::IOError));
}

#[test]
fn handshake_takes_an_early_end_as_malformed() {
    let client = Handshake::new(client_secret());
    let (client, _) = client.step(HandshakeEvent::Written);
    let (client, _) = client.step(HandshakeEvent::Closed);
    assert_eq!(client.error(), Some(HandshakeError::Malformed));

    let (client, _) = until_ack(2);
    let (client, _) = client.step(HandshakeEvent::Closed);
    assert_eq!(client.error(), Some(HandshakeError::Malformed));
}

#[test]
fn handshake_takes_an_event_out_of_turn_as_malformed() {
    let client = Handshake::new(client_secret());
    let (client, _) = client.step(HandshakeEvent::Received(vec![0, 0, 0, 6]));
    assert_eq!(client.error(), Some(HandshakeError::Malformed));

    let client = Handshake::new(client_secret());
    let (client, _) = client.step(HandshakeEvent::Written);
    let (client, _) = client.step(HandshakeEvent::Written);
    assert_eq!(client.error(), Some(HandshakeError::Malformed));
}

#[test]
fn ended_handshake_stays_as_it_is() {
    let (client, keys) = until_ack(2);
    let (client, _) = client.step(HandshakeEvent::Received(keys.server_tag.clone()));
    let (client, action) = client.step(HandshakeEvent::Failed);
    assert!(matches!(action, HandshakeAction::Done));
    let (client, _) = client.step(HandshakeEvent::Received(vec![1, 2, 3]));
    assert_eq!(client.state(), HandshakeState::Established);

    let failed = Handshake::new(client_secret());
    let (failed, _) = failed.step(HandshakeEvent::Closed);
    let (failed, action) = failed.step(HandshakeEvent::Failed);
    assert!(matches!(action, HandshakeAction::Abort));
    assert_eq!(failed.error(), Some(HandshakeError::Malformed));
}

#[test]
fn fresh_handshakes_offer_different_keys() {
    let first = written(handshake().action());
    let second = written(handshake().action());
    assert_eq!(first[PREFIX_SIZE], PROTOCOL_VERSION);
    assert!(first.len() <= PREFIX_SIZE + 1 + SECRET_SIZE + 1);
    assert_ne!(first, second);
}
