use socks5_front::codec::decode_handshake_request;
use socks5_front::codec::decode_password_request;
use socks5_front::codec::decode_request;
use socks5_front::codec::decode_response;
use socks5_front::codec::encode_handshake_request;
use socks5_front::codec::encode_password_request;
use socks5_front::codec::encode_request;
use socks5_front::codec::encode_response;
use socks5_front::codec::Decoded;
use socks5_front::msg::Address;
use socks5_front::msg::Command;
use socks5_front::msg::HandshakePasswordRequest;
use socks5_front::msg::HandshakeRequest;
use socks5_front::msg::Reply;
use socks5_front::msg::Request;
use socks5_front::msg::Response;

fn assert_same_address(a: &Address, b: &Address) {
    match (a, b) {
        (Address::Domain(n1, p1), Address::Domain(n2, p2)) => {
            assert_eq!(n1, n2);
            assert_eq!(p1, p2);
        }
        (Address::Ipv4(o1, p1), Address::Ipv4(o2, p2)) => {
            assert_eq!(o1, o2);
            assert_eq!(p1, p2);
        }
        (Address::Ipv6(o1, p1), Address::Ipv6(o2, p2)) => {
            assert_eq!(o1, o2);
            assert_eq!(p1, p2);
        }
        _ => panic!("address variants differ"),
    }
}

#[test]
fn request_domain_exact_bytes_and_round_trip() {
    let req = Request::new(
        Command::Connect,
        Address::Domain(b"example.com".to_vec(), 80),
    );
    let bytes = encode_request(&req);
    assert_eq!(
        bytes,
        vec![
            5, 1, 0, 3, 11, 101, 120, 97, 109, 112, 108, 101, 46, 99, 111, 109, 0, 80
        ]
    );
    match decode_request(&bytes) {
        Decoded::Done(m, n) => {
            assert_eq!(n, bytes.len());
            assert_eq!(m.command, Command::Connect);
            assert_same_address(&m.address, &req.address);
        }
        _ => panic!("expected a complete request"),
    }
}

#[test]
fn request_ipv4_round_trip() {
    let req = Request::new(Command::Bind, Address::Ipv4(vec![127, 0, 0, 1], 443));
    let bytes = encode_request(&req);
    assert_eq!(bytes, vec![5, 2, 0, 1, 127, 0, 0, 1, 1, 187]);
    match decode_request(&bytes) {
        Decoded::Done(m, n) => {
            assert_eq!(n, bytes.len());
            assert_eq!(m.command, Command::Bind);
            assert_same_address(&m.address, &req.address);
        }
        _ => panic!("expected a complete request"),
    }
}

#[test]
fn request_ipv6_round_trip() {
    let octets: Vec<u8> = (1..=16).collect();
    let req = Request::new(Command::UdpAssociate, Address::Ipv6(octets.clone(), 65535));
    let bytes = encode_request(&req);
    assert_eq!(bytes[0..4], [5, 3, 0, 4]);
    assert_eq!(&bytes[4..20], octets.as_slice());
    assert_eq!(bytes[20..22], [255, 255]);
    match decode_request(&bytes) {
        Decoded::Done(m, n) => {
            assert_eq!(n, bytes.len());
            assert_eq!(m.command, Command::UdpAssociate);
            assert_same_address(&m.address, &req.address);
        }
        _ => panic!("expected a complete request"),
    }
}

#[test]
fn response_round_trip_every_reply_and_every_address_kind() {
    let replies = vec![
        Reply::Succeeded,
        Reply::GeneralFailure,
        Reply::ConnectionNotAllowed,
        Reply::NetworkUnreachable,
        Reply::HostUnreachable,
        Reply::ConnectionRefused,
        Reply::TtlExpired,
        Reply::CommandNotSupported,
        Reply::AddressTypeNotSupported,
    ];
    for (i, reply) in replies.into_iter().enumerate() {
        let addresses = vec![
            Address::Domain(b"host".to_vec(), 1),
            Address::Ipv4(vec![10, 0, 0, 1], 8080),
            Address::Ipv6(vec![0; 16], 53),
        ];
        for address in addresses {
            let res = Response::new(reply, address);
            let bytes = encode_response(&res);
            assert_eq!(bytes[1], i as u8);
            match decode_response(&bytes) {
                Decoded::Done(m, n) => {
                    assert_eq!(n, bytes.len());
                    assert_eq!(m.reply, reply);
                    assert_same_address(&m.address, &res.address);
                }
                _ => panic!("expected a complete response"),
            }
        }
    }
}

#[test]
fn handshake_request_exact_bytes_and_round_trip() {
    let m = HandshakeRequest::new(vec![0, 2]);
    let bytes = encode_handshake_request(&m);
    assert_eq!(bytes, vec![5, 2, 0, 2]);
    match decode_handshake_request(&bytes) {
        Decoded::Done(m2, n) => {
            assert_eq!(n, 4);
            assert_eq!(m2.methods, vec![0, 2]);
        }
        _ => panic!("expected a complete handshake request"),
    }
}

#[test]
fn handshake_request_empty_offer_round_trip() {
    let m = HandshakeRequest::new(Vec::new());
    let bytes = encode_handshake_request(&m);
    assert_eq!(bytes, vec![5, 0]);
    match decode_handshake_request(&bytes) {
        Decoded::Done(m2, n) => {
            assert_eq!(n, 2);
            assert!(m2.methods.is_empty());
        }
        _ => panic!("expected a complete handshake request"),
    }
}

#[test]
fn password_request_exact_bytes_and_round_trip() {
    let m = HandshakePasswordRequest::new(b"user".to_vec(), b"pw".to_vec());
    let bytes = encode_password_request(&m);
    assert_eq!(bytes, vec![1, 4, 117, 115, 101, 114, 2, 112, 119]);
    match decode_password_request(&bytes) {
        Decoded::Done(m2, n) => {
            assert_eq!(n, bytes.len());
            assert_eq!(m2.username, b"user".to_vec());
            assert_eq!(m2.password, b"pw".to_vec());
        }
        _ => panic!("expected a complete password request"),
    }
}

#[test]
fn password_request_empty_credentials_round_trip() {
    let m = HandshakePasswordRequest::new(Vec::new(), Vec::new());
    let bytes = encode_password_request(&m);
    assert_eq!(bytes, vec![1, 0, 0]);
    match decode_password_request(&bytes) {
        Decoded::Done(m2, n) => {
            assert_eq!(n, 3);
            assert!(m2.username.is_empty());
            assert!(m2.password.is_empty());
        }
        _ => panic!("expected a complete password request"),
    }
}

#[test]
fn decode_request_rejects_wrong_version() {
    let bytes = vec![4, 1, 0, 1, 127, 0, 0, 1, 0, 80];
    assert!(matches!(decode_request(&bytes), Decoded::Malformed));
}

#[test]
fn decode_request_rejects_unknown_command() {
    let bytes = vec![5, 9, 0, 1, 127, 0, 0, 1, 0, 80];
    assert!(matches!(decode_request(&bytes), Decoded::Malformed));
}

#[test]
fn decode_request_rejects_nonzero_reserved_byte() {
    let bytes = vec![5, 1, 7, 1, 127, 0, 0, 1, 0, 80];
    assert!(matches!(decode_request(&bytes), Decoded::Malformed));
}

#[test]
fn decode_request_rejects_unknown_address_type() {
    let bytes = vec![5, 1, 0, 2, 127, 0, 0, 1, 0, 80];
    assert!(matches!(decode_request(&bytes), Decoded::Malformed));
}

#[test]
fn decode_response_rejects_reply_code_past_the_last() {
    let bytes = vec![5, 9, 0, 1, 0, 0, 0, 0, 0, 0];
    assert!(matches!(decode_response(&bytes), Decoded::Malformed));
}

#[test]
fn decode_request_wants_more_bytes_when_truncated() {
    assert!(matches!(decode_request(&Vec::new()), Decoded::NeedMoreData));
    let full = vec![5, 1, 0, 3, 11, 101, 120, 97, 109, 112, 108, 101, 46, 99, 111, 109, 0, 80];
    for cut in [1usize, 3, 4, 5, 10, 17] {
        let part = full[..cut].to_vec();
        assert!(
            matches!(decode_request(&part), Decoded::NeedMoreData),
            "cut at {cut}"
        );
    }
}

#[test]
fn decode_request_leaves_trailing_bytes_alone() {
    let mut bytes = vec![5, 1, 0, 1, 127, 0, 0, 1, 0, 80];
    let message_len = bytes.len();
    bytes.extend_from_slice(b"payload");
    match decode_request(&bytes) {
        Decoded::Done(m, n) => {
            assert_eq!(n, message_len);
            assert_eq!(m.command, Command::Connect);
        }
        _ => panic!("expected a complete request"),
    }
}

#[test]
fn decode_handshake_request_wants_more_then_rejects() {
    assert!(matches!(
        decode_handshake_request(&vec![5]),
        Decoded::NeedMoreData
    ));
    assert!(matches!(
        decode_handshake_request(&vec![5, 2, 0]),
        Decoded::NeedMoreData
    ));
    assert!(matches!(
        decode_handshake_request(&vec![4, 1, 0]),
        Decoded::Malformed
    ));
}

#[test]
fn decode_password_request_wants_more_then_rejects() {
    assert!(matches!(
        decode_password_request(&vec![1, 4, 117]),
        Decoded::NeedMoreData
    ));
    assert!(matches!(
        decode_password_request(&vec![1, 1, 117, 1]),
        Decoded::NeedMoreData
    ));
    assert!(matches!(
        decode_password_request(&vec![5, 0, 0]),
        Decoded::Malformed
    ));
}

#[test]
fn domain_name_of_maximum_length_round_trips() {
    let name = vec![b'a'; 255];
    let req = Request::new(Command::Connect, Address::Domain(name.clone(), 1));
    let bytes = encode_request(&req);
    assert_eq!(bytes.len(), 3 + 1 + 1 + 255 + 2);
    assert_eq!(bytes[4], 255);
    match decode_request(&bytes) {
        Decoded::Done(m, n) => {
            assert_eq!(n, bytes.len());
            assert_same_address(&m.address, &Address::Domain(name, 1));
        }
        _ => panic!("expected a complete request"),
    }
}
