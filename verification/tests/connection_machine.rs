use socks5_front::machine::select_auth_method;
use socks5_front::machine::ConnectionFailure;
use socks5_front::machine::Event;
use socks5_front::machine::Phase;
use socks5_front::machine::Socks5Connection;
use socks5_front::machine::Socks5ConnectionError;
use socks5_front::msg::Address;
use socks5_front::msg::Command;
use socks5_front::msg::HandshakePasswordRequest;
use socks5_front::msg::HandshakeRequest;
use socks5_front::msg::Reply;
use socks5_front::msg::Request;
use socks5_front::msg::Socks5AuthMethod;

fn connect_example_request() -> Request {
    Request::new(
        Command::Connect,
        Address::Domain(b"example.com".to_vec(), 80),
    )
}

#[test]
fn no_credentials_selects_no_auth() {
    let auth = select_auth_method(None, None);
    assert!(matches!(auth, Socks5AuthMethod::NoAuth));
    let auth = select_auth_method(Some(b"user".to_vec()), None);
    assert!(matches!(auth, Socks5AuthMethod::NoAuth));
    let auth = select_auth_method(None, Some(b"pass".to_vec()));
    assert!(matches!(auth, Socks5AuthMethod::NoAuth));
}

#[test]
fn both_credentials_select_password() {
    let auth = select_auth_method(Some(b"user".to_vec()), Some(b"pass".to_vec()));
    match &auth {
        Socks5AuthMethod::Password { username, password } => {
            assert_eq!(username, &b"user".to_vec());
            assert_eq!(password, &b"pass".to_vec());
        }
        _ => panic!("expected the password method"),
    }
}

#[test]
fn offer_with_no_auth_succeeds_with_method_zero() {
    let mut conn = Socks5Connection::new(select_auth_method(None, None));
    let out = conn.step(Event::Handshake(HandshakeRequest::new(vec![0x00])));
    assert_eq!(out.write, Some(vec![5, 0]));
    assert!(out.submit.is_none());
    assert!(!out.forward);
    assert!(out.error.is_none());
    assert_eq!(conn.phase, Phase::AwaitRequest);
}

#[test]
fn password_only_offer_against_no_auth_is_unacceptable() {
    let mut conn = Socks5Connection::new(select_auth_method(None, None));
    let out = conn.step(Event::Handshake(HandshakeRequest::new(vec![0x02])));
    assert_eq!(out.write, Some(vec![5, 255]));
    assert_eq!(conn.phase, Phase::Closed);
    // No request is read afterwards: the closed machine does nothing.
    let out = conn.step(Event::SocksRequest(connect_example_request()));
    assert!(out.write.is_none());
    assert!(out.submit.is_none());
    assert!(!out.forward);
    assert_eq!(conn.phase, Phase::Closed);
}

#[test]
fn duplicate_offers_still_match() {
    let mut conn = Socks5Connection::new(select_auth_method(None, None));
    let out = conn.step(Event::Handshake(HandshakeRequest::new(vec![2, 0, 0, 7])));
    assert_eq!(out.write, Some(vec![5, 0]));
    assert_eq!(conn.phase, Phase::AwaitRequest);
}

#[test]
fn connect_with_manager_success_writes_succeeded_then_forwards() {
    let mut conn = Socks5Connection::new(select_auth_method(None, None));
    let out = conn.step(Event::Handshake(HandshakeRequest::new(vec![0x00])));
    assert_eq!(out.write, Some(vec![5, 0]));

    let out = conn.step(Event::SocksRequest(connect_example_request()));
    assert!(out.write.is_none());
    let submitted = out.submit.expect("the request is handed to the manager");
    assert_eq!(submitted.command, Command::Connect);
    match &submitted.address {
        Address::Domain(name, port) => {
            assert_eq!(name, &b"example.com".to_vec());
            assert_eq!(*port, 80);
        }
        _ => panic!("expected the domain address"),
    }
    assert_eq!(conn.phase, Phase::AwaitManager);

    let out = conn.step(Event::ManagerAccepted);
    assert_eq!(out.write, Some(vec![5, 0, 0, 1, 0, 0, 0, 0, 0, 0]));
    assert!(out.forward);
    assert!(out.error.is_none());
    assert_eq!(conn.phase, Phase::Forwarding);
}

#[test]
fn manager_failure_maps_to_host_unreachable_and_closes() {
    let mut conn = Socks5Connection::new(select_auth_method(None, None));
    conn.step(Event::Handshake(HandshakeRequest::new(vec![0x00])));
    conn.step(Event::SocksRequest(connect_example_request()));

    let out = conn.step(Event::ManagerRejected(ConnectionFailure::Tunnel(
        Reply::HostUnreachable,
    )));
    assert_eq!(out.write, Some(vec![5, 4, 0, 1, 0, 0, 0, 0, 0, 0]));
    assert!(!out.forward);
    assert!(out.error.is_none());
    assert_eq!(conn.phase, Phase::Closed);

    // Nothing is forwarded or written afterwards.
    let out = conn.step(Event::ManagerAccepted);
    assert!(out.write.is_none());
    assert!(!out.forward);
}

#[test]
fn unclassified_manager_failure_maps_to_general_failure() {
    let mut conn = Socks5Connection::new(select_auth_method(None, None));
    conn.step(Event::Handshake(HandshakeRequest::new(vec![0x00])));
    conn.step(Event::SocksRequest(connect_example_request()));
    let out = conn.step(Event::ManagerRejected(ConnectionFailure::Other));
    assert_eq!(out.write, Some(vec![5, 1, 0, 1, 0, 0, 0, 0, 0, 0]));
    assert!(!out.forward);
    assert_eq!(conn.phase, Phase::Closed);
}

#[test]
fn unavailable_manager_writes_general_failure_and_reports_it() {
    let mut conn = Socks5Connection::new(select_auth_method(None, None));
    conn.step(Event::Handshake(HandshakeRequest::new(vec![0x00])));
    conn.step(Event::SocksRequest(connect_example_request()));
    let out = conn.step(Event::ManagerUnavailable);
    assert_eq!(out.write, Some(vec![5, 1, 0, 1, 0, 0, 0, 0, 0, 0]));
    assert_eq!(out.error, Some(Socks5ConnectionError::ConnectionManager));
    assert!(!out.forward);
    assert_eq!(conn.phase, Phase::Closed);
}

#[test]
fn password_negotiation_succeeds_on_exact_match_only() {
    let auth = select_auth_method(Some(b"user".to_vec()), Some(b"pass".to_vec()));
    let mut conn = Socks5Connection::new(auth);
    let out = conn.step(Event::Handshake(HandshakeRequest::new(vec![0x00, 0x02])));
    assert_eq!(out.write, Some(vec![5, 2]));
    assert_eq!(conn.phase, Phase::AwaitPassword);

    let out = conn.step(Event::PasswordAuth(HandshakePasswordRequest::new(
        b"user".to_vec(),
        b"pass".to_vec(),
    )));
    assert_eq!(out.write, Some(vec![1, 0]));
    assert_eq!(conn.phase, Phase::AwaitRequest);

    // The authenticated connection goes on to submit the request.
    let out = conn.step(Event::SocksRequest(connect_example_request()));
    assert!(out.submit.is_some());
}

#[test]
fn wrong_password_fails_and_no_request_is_read() {
    let auth = select_auth_method(Some(b"user".to_vec()), Some(b"pass".to_vec()));
    let mut conn = Socks5Connection::new(auth);
    conn.step(Event::Handshake(HandshakeRequest::new(vec![0x02])));

    let out = conn.step(Event::PasswordAuth(HandshakePasswordRequest::new(
        b"user".to_vec(),
        b"PASS".to_vec(),
    )));
    assert_eq!(out.write, Some(vec![1, 1]));
    assert_eq!(conn.phase, Phase::Closed);

    let out = conn.step(Event::SocksRequest(connect_example_request()));
    assert!(out.submit.is_none());
    assert_eq!(conn.phase, Phase::Closed);
}

#[test]
fn password_server_rejects_offer_without_password_method() {
    let auth = select_auth_method(Some(b"user".to_vec()), Some(b"pass".to_vec()));
    let mut conn = Socks5Connection::new(auth);
    let out = conn.step(Event::Handshake(HandshakeRequest::new(vec![0x00, 0x01])));
    assert_eq!(out.write, Some(vec![5, 255]));
    assert_eq!(conn.phase, Phase::Closed);
}

#[test]
fn reserved_methods_fail_closed_without_an_answer() {
    for auth in [Socks5AuthMethod::GssApi, Socks5AuthMethod::Unacceptable] {
        let mut conn = Socks5Connection::new(auth);
        let out = conn.step(Event::Handshake(HandshakeRequest::new(vec![0, 1, 2, 255])));
        assert!(out.write.is_none());
        assert!(out.submit.is_none());
        assert_eq!(conn.phase, Phase::Closed);
    }
}
