use ap_connection::authentication::{
    authenticate, login_request, reusable_credentials, AuthAction, AuthError, AuthEvent,
    Authentication, AuthenticationError, AuthenticationState, AuthenticationType, ClientInfo,
    Credentials, ProtocolError, Welcome, LOGIN_FAILURE, LOGIN_REQUEST, LOGIN_SUCCESS,
};
use ap_connection::codec::{APCodec, CodecError};
use ap_connection::transport::Transport;

fn near_key() -> Vec<u8> {
    vec![0x11; 32]
}

fn far_key() -> Vec<u8> {
    vec![0x22; 32]
}

fn transport() -> Transport {
    Transport::with_codec(APCodec::new(near_key(), far_key()), 4)
}

/// The codec of the scripted peer.
fn peer() -> APCodec {
    APCodec::new(far_key(), near_key())
}

fn credentials() -> Credentials {
    Credentials {
        username: "alice".to_string(),
        auth_type: AuthenticationType::UserPass,
        auth_data: b"correct horse".to_vec(),
    }
}

fn client() -> ClientInfo {
    ClientInfo {
        version_string: "client 1.0".to_string(),
        system_information: "client_abc_123".to_string(),
    }
}

fn welcome() -> Welcome {
    Welcome {
        canonical_username: "Alice".to_string(),
        reusable_auth_credentials_type: AuthenticationType::StoredCredentials,
        reusable_auth_credentials: vec![9, 8, 7, 6],
    }
}

fn begin() -> Authentication {
    authenticate(transport(), credentials(), "device-1".to_string(), client())
}

/// Runs the exchange up to the point where the answer is awaited, and checks
/// on the way that the peer reads the request as one login frame.
fn until_answer(peer: &mut APCodec) -> Authentication {
    let auth = begin();
    let (auth, action) = auth.step(AuthEvent::Encoded(Some(b"encoded request".to_vec())));
    let mut wire = match action {
        AuthAction::Write(wire) => wire,
        _ => panic!("expected a write"),
    };
    let frame = peer.decode(&mut wire).unwrap().unwrap();
    assert_eq!((frame.command, frame.payload), (LOGIN_REQUEST, b"encoded request".to_vec()));
    assert!(wire.is_empty());
    let (auth, action) = auth.step(AuthEvent::Written);
    assert!(matches!(action, AuthAction::Read));
    assert_eq!(auth.state(), AuthenticationState::Receiving);
    auth
}

fn failure(auth: Authentication) -> AuthError {
    assert_eq!(auth.state(), AuthenticationState::Failed);
    let error = auth.error().unwrap();
    match auth.finish() {
        Ok(Err(reason)) => assert_eq!(reason, error),
        _ => panic!("a failed authentication hands out its reason only"),
    }
    error
}

#[test]
fn command_codes_are_the_protocol_constants() {
    assert_eq!(LOGIN_REQUEST, 0xab);
    assert_eq!(LOGIN_SUCCESS, 0xac);
    assert_eq!(LOGIN_FAILURE, 0xad);
}

#[test]
fn login_request_carries_credentials_device_and_client() {
    let request = login_request(credentials(), "device-1".to_string(), client());
    assert_eq!(request.username, "alice");
    assert_eq!(request.auth_type, AuthenticationType::UserPass);
    assert_eq!(request.auth_data, b"correct horse".to_vec());
    assert_eq!(request.device_id, "device-1");
    assert_eq!(request.system_information, "client_abc_123");
    assert_eq!(request.version_string, "client 1.0");
}

#[test]
fn reusable_credentials_come_from_the_welcome() {
    let granted = reusable_credentials(welcome());
    assert_eq!(granted.username, "Alice");
    assert_eq!(granted.auth_type, AuthenticationType::StoredCredentials);
    assert_eq!(granted.auth_data, vec![9, 8, 7, 6]);
}

#[test]
fn authentication_first_asks_for_the_encoded_request() {
    let auth = begin();
    assert_eq!(auth.state(), AuthenticationState::Encoding);
    assert_eq!(auth.error(), None);
    match auth.action() {
        AuthAction::Encode(request) => {
            assert_eq!(request.username, "alice");
            assert_eq!(request.auth_type, AuthenticationType::UserPass);
            assert_eq!(request.auth_data, b"correct horse".to_vec());
            assert_eq!(request.device_id, "device-1");
            assert_eq!(request.system_information, "client_abc_123");
            assert_eq!(request.version_string, "client 1.0");
        }
        _ => panic!("expected the request to encode"),
    }
    assert!(auth.finish().is_err());
}

#[test]
fn authenticate_returns_credentials_of_the_welcome() {
    let mut peer = peer();
    let auth = until_answer(&mut peer);
    let reply = peer.encode(LOGIN_SUCCESS, &b"encoded welcome".to_vec()).unwrap();
    let (auth, action) = auth.step(AuthEvent::Received(reply));
    assert_eq!(auth.state(), AuthenticationState::Decoding);
    match action {
        AuthAction::Decode(payload) => assert_eq!(payload, b"encoded welcome".to_vec()),
        _ => panic!("expected the welcome to decode"),
    }
    let (auth, action) = auth.step(AuthEvent::Decoded(Some(welcome())));
    assert!(matches!(action, AuthAction::Done));
    assert_eq!(auth.state(), AuthenticationState::Authenticated);
    assert_eq!(auth.error(), None);
    match auth.finish() {
        Ok(Ok((transport, granted))) => {
            assert_eq!(granted.username, "Alice");
            assert_eq!(granted.auth_type, AuthenticationType::StoredCredentials);
            assert_eq!(granted.auth_data, vec![9, 8, 7, 6]);
            assert_eq!(transport.send_nonce(), 1);
            assert_eq!(transport.recv_nonce(), 1);
            assert_eq!(transport.buffered(), 0);
        }
        _ => panic!("expected the transport and the reusable credentials"),
    }
}

#[test]
fn authenticated_transport_goes_on_with_the_next_nonces() {
    let mut peer = peer();
    let auth = until_answer(&mut peer);
    let reply = peer.encode(LOGIN_SUCCESS, &Vec::new()).unwrap();
    let (auth, _) = auth.step(AuthEvent::Received(reply));
    let (auth, _) = auth.step(AuthEvent::Decoded(Some(welcome())));
    let (mut transport, _) = match auth.finish() {
        Ok(Ok(granted)) => granted,
        _ => panic!("expected success"),
    };
    let mut wire = transport.send(0x50, &vec![1, 2, 3]).unwrap();
    let frame = peer.decode(&mut wire).unwrap().unwrap();
    assert_eq!((frame.command, frame.payload), (0x50, vec![1, 2, 3]));
    let reply = peer.encode(0x51, &vec![4]).unwrap();
    let frame = transport.receive(&reply).unwrap().unwrap();
    assert_eq!((frame.command, frame.payload), (0x51, vec![4]));
    assert_eq!((transport.send_nonce(), transport.recv_nonce()), (2, 2));
}

#[test]
fn authenticate_reports_rejection() {
    let mut peer = peer();
    let auth = until_answer(&mut peer);
    let reply = peer.encode(LOGIN_FAILURE, &b"bad password".to_vec()).unwrap();
    let (auth, action) = auth.step(AuthEvent::Received(reply));
    assert!(matches!(action, AuthAction::Abort));
    assert_eq!(failure(auth), AuthError::Authentication(AuthenticationError::Rejected));
}

#[test]
fn authenticate_reports_an_unexpected_packet() {
    for command in [0x00u8, 0x04, LOGIN_REQUEST, 0xae, 0xff] {
        let mut peer = peer();
        let auth = until_answer(&mut peer);
        let reply = peer.encode(command, &b"something else".to_vec()).unwrap();
        let (auth, action) = auth.step(AuthEvent::Received(reply));
        assert!(matches!(action, AuthAction::Abort));
        assert_eq!(
            failure(auth),
            AuthError::Protocol(ProtocolError::UnexpectedPacket(command))
        );
    }
}

#[test]
fn authenticate_reports_a_closed_connection() {
    let mut peer = peer();
    let auth = until_answer(&mut peer);
    let (auth, action) = auth.step(AuthEvent::Closed);
    assert!(matches!(action, AuthAction::Abort));
    assert_eq!(failure(auth), AuthError::Protocol(ProtocolError::ConnectionClosed));
}

#[test]
fn authenticate_reports_a_connection_closed_before_the_request_went_out() {
    let (auth, _) = begin().step(AuthEvent::Closed);
    assert_eq!(failure(auth), AuthError::Protocol(ProtocolError::ConnectionClosed));
    let (auth, _) = begin().step(AuthEvent::Encoded(Some(vec![1])));
    let (auth, _) = auth.step(AuthEvent::Closed);
    assert_eq!(failure(auth), AuthError::Protocol(ProtocolError::ConnectionClosed));
}

#[test]
fn authenticate_reports_a_truncated_answer() {
    let mut peer = peer();
    let auth = until_answer(&mut peer);
    let reply = peer.encode(LOGIN_SUCCESS, &b"encoded welcome".to_vec()).unwrap();
    let (auth, action) = auth.step(AuthEvent::Received(reply[..5].to_vec()));
    assert!(matches!(action, AuthAction::Read));
    assert_eq!(auth.state(), AuthenticationState::Receiving);
    let (auth, _) = auth.step(AuthEvent::Closed);
    assert_eq!(failure(auth), AuthError::Codec(CodecError::Truncated));
}

#[test]
fn authenticate_waits_for_the_whole_answer() {
    let mut peer = peer();
    let mut auth = until_answer(&mut peer);
    let reply = peer.encode(LOGIN_SUCCESS, &b"encoded welcome".to_vec()).unwrap();
    for byte in &reply[..reply.len() - 1] {
        let (next, action) = auth.step(AuthEvent::Received(vec![*byte]));
        assert!(matches!(action, AuthAction::Read));
        assert_eq!(next.state(), AuthenticationState::Receiving);
        auth = next;
    }
    let (auth, action) = auth.step(AuthEvent::Received(vec![reply[reply.len() - 1]]));
    match action {
        AuthAction::Decode(payload) => assert_eq!(payload, b"encoded welcome".to_vec()),
        _ => panic!("expected the welcome to decode"),
    }
    assert_eq!(auth.state(), AuthenticationState::Decoding);
}

#[test]
fn authenticate_reports_a_corrupted_answer() {
    let mut peer = peer();
    let auth = until_answer(&mut peer);
    let mut reply = peer.encode(LOGIN_SUCCESS, &b"encoded welcome".to_vec()).unwrap();
    reply[4] ^= 0x10;
    let (auth, _) = auth.step(AuthEvent::Received(reply));
    assert_eq!(failure(auth), AuthError::Codec(CodecError::DecryptionFailed));
}

#[test]
fn authenticate_reports_an_answer_over_the_limit() {
    let limited = Transport::with_codec(APCodec::with_limit(near_key(), far_key(), 32), 4);
    let auth = authenticate(limited, credentials(), "device-1".to_string(), client());
    let (auth, _) = auth.step(AuthEvent::Encoded(Some(vec![0; 32])));
    let (auth, _) = auth.step(AuthEvent::Written);
    let (auth, _) = auth.step(AuthEvent::Received(vec![0x00, 0x21]));
    assert_eq!(failure(auth), AuthError::Codec(CodecError::OversizedFrame));
}

#[test]
fn authenticate_reports_a_request_over_the_limit() {
    let limited = Transport::with_codec(APCodec::with_limit(near_key(), far_key(), 32), 4);
    let auth = authenticate(limited, credentials(), "device-1".to_string(), client());
    let (auth, action) = auth.step(AuthEvent::Encoded(Some(vec![0; 33])));
    assert!(matches!(action, AuthAction::Abort));
    assert_eq!(failure(auth), AuthError::Codec(CodecError::OversizedFrame));
}

#[test]
fn authenticate_reports_a_welcome_that_is_none() {
    let mut peer = peer();
    let auth = until_answer(&mut peer);
    let reply = peer.encode(LOGIN_SUCCESS, &b"garbage".to_vec()).unwrap();
    let (auth, _) = auth.step(AuthEvent::Received(reply));
    let (auth, action) = auth.step(AuthEvent::Decoded(None));
    assert!(matches!(action, AuthAction::Abort));
    assert_eq!(failure(auth), AuthError::Protocol(ProtocolError::MalformedWelcome));
}

#[test]
fn authenticate_reports_an_event_out_of_turn() {
    let (auth, _) = begin().step(AuthEvent::Written);
    assert_eq!(failure(auth), AuthError::Protocol(ProtocolError::OutOfTurn));

    let (auth, _) = begin().step(AuthEvent::Encoded(Some(vec![1, 2, 3])));
    let (auth, _) = auth.step(AuthEvent::Received(vec![1]));
    assert_eq!(failure(auth), AuthError::Protocol(ProtocolError::OutOfTurn));

    let mut peer = peer();
    let auth = until_answer(&mut peer);
    let (auth, _) = auth.step(AuthEvent::Decoded(Some(welcome())));
    assert_eq!(failure(auth), AuthError::Protocol(ProtocolError::OutOfTurn));
}

#[test]
fn ended_authentication_stays_as_it_is() {
    let mut peer = peer();
    let auth = until_answer(&mut peer);
    let reply = peer.encode(LOGIN_FAILURE, &Vec::new()).unwrap();
    let (auth, _) = auth.step(AuthEvent::Received(reply));
    let (auth, action) = auth.step(AuthEvent::Closed);
    assert!(matches!(action, AuthAction::Abort));
    assert_eq!(failure(auth), AuthError::Authentication(AuthenticationError::Rejected));
}

#[test]
fn authenticate_reports_a_request_that_does_not_encode() {
    let (auth, action) = begin().step(AuthEvent::Encoded(None));
    assert!(matches!(action, AuthAction::Abort));
    assert_eq!(failure(auth), AuthError::Protocol(ProtocolError::MalformedRequest));
}
