//! Wire codec: byte-exact encodings of the six SOCKS5 messages, with
//! decoders for the messages a server reads and for the response.
//!
//! Every encoder is specified against a spec-level encoding function, and
//! every decoder both (a) only accepts byte strings that are encodings and
//! (b) decodes the encoding of any well-formed message back to that
//! message, so encoding then decoding is lossless.

use vstd::prelude::*;

use crate::msg::Address;
use crate::msg::Command;
use crate::msg::HandshakePasswordRequest;
use crate::msg::HandshakePasswordResponse;
use crate::msg::HandshakeRequest;
use crate::msg::HandshakeResponse;
use crate::msg::Reply;
use crate::msg::Request;
use crate::msg::Response;
use crate::msg::address_wf;
use crate::msg::handshake_request_wf;
use crate::msg::is_wildcard_address;
use crate::msg::password_request_wf;
use crate::msg::request_wf;
use crate::msg::response_wf;
use crate::msg::same_address;
use crate::msg::same_request;
use crate::msg::same_response;
use crate::msg::ATYP_DOMAIN;
use crate::msg::ATYP_IPV4;
use crate::msg::ATYP_IPV6;
use crate::msg::SOCKS_VERSION;
use crate::msg::SUBNEGOTIATION_VERSION;

verus! {

/// The two big-endian bytes of a port.
pub open spec fn spec_port_bytes(port: u16) -> Seq<u8> {
    seq![(port / 256) as u8, (port % 256) as u8]
}

/// The wire encoding of an address: type code, payload, then port.
pub open spec fn spec_encode_address(a: Address) -> Seq<u8> {
    match a {
        Address::Domain(name, port) => seq![ATYP_DOMAIN, name@.len() as u8] + name@
            + spec_port_bytes(port),
        Address::Ipv4(octets, port) => seq![ATYP_IPV4] + octets@ + spec_port_bytes(port),
        Address::Ipv6(octets, port) => seq![ATYP_IPV6] + octets@ + spec_port_bytes(port),
    }
}

/// `VER NMETHODS METHODS[..]`.
pub open spec fn spec_encode_handshake_request(m: HandshakeRequest) -> Seq<u8> {
    seq![SOCKS_VERSION, m.methods@.len() as u8] + m.methods@
}

/// `VER METHOD`.
pub open spec fn spec_encode_handshake_response(m: HandshakeResponse) -> Seq<u8> {
    seq![SOCKS_VERSION, m.method]
}

/// `VER ULEN UNAME[..] PLEN PASSWD[..]`.
pub open spec fn spec_encode_password_request(m: HandshakePasswordRequest) -> Seq<u8> {
    seq![SUBNEGOTIATION_VERSION, m.username@.len() as u8] + m.username@
        + seq![m.password@.len() as u8] + m.password@
}

/// `VER STATUS`.
pub open spec fn spec_encode_password_response(m: HandshakePasswordResponse) -> Seq<u8> {
    seq![SUBNEGOTIATION_VERSION, m.status]
}

/// `VER CMD RSV ATYP ADDR PORT`.
pub open spec fn spec_encode_request(r: Request) -> Seq<u8> {
    seq![SOCKS_VERSION, r.command.spec_as_u8(), 0u8] + spec_encode_address(r.address)
}

/// `VER REP RSV ATYP BND.ADDR BND.PORT`.
pub open spec fn spec_encode_response(r: Response) -> Seq<u8> {
    seq![SOCKS_VERSION, r.reply.spec_as_u8(), 0u8] + spec_encode_address(r.address)
}

/// The ten bytes of a response that carries the wildcard address `0.0.0.0:0`.
pub open spec fn spec_wildcard_response_bytes(reply: Reply) -> Seq<u8> {
    seq![SOCKS_VERSION, reply.spec_as_u8(), 0u8, ATYP_IPV4, 0u8, 0u8, 0u8, 0u8, 0u8, 0u8]
}

/// A response with the wildcard address encodes to the fixed ten-byte form.
pub proof fn lemma_wildcard_response_bytes(r: Response)
    requires
        is_wildcard_address(r.address),
    ensures
        spec_encode_response(r) == spec_wildcard_response_bytes(r.reply),
{
    assert(spec_encode_response(r) =~= spec_wildcard_response_bytes(r.reply));
}

/// Appends all of `bytes` to `out`.
pub fn push_bytes(out: &mut Vec<u8>, bytes: &Vec<u8>)
    ensures
        final(out)@ == old(out)@ + bytes@,
{
    let n = bytes.len();
    let mut i: usize = 0;
    while i < n
        invariant
            n == bytes@.len(),
            i <= n,
            out@ == old(out)@ + bytes@.subrange(0, i as int),
        decreases n - i,
    {
        let b = bytes[i];
        out.push(b);
        proof {
            assert(out@ =~= old(out)@ + bytes@.subrange(0, i + 1));
        }
        i = i + 1;
    }
    proof {
        assert(bytes@.subrange(0, n as int) =~= bytes@);
    }
}

/// Appends the two big-endian bytes of `port` to `out`.
pub fn push_port(out: &mut Vec<u8>, port: u16)
    ensures
        final(out)@ == old(out)@ + spec_port_bytes(port),
{
    out.push((port / 256) as u8);
    out.push((port % 256) as u8);
    proof {
        assert(out@ =~= old(out)@ + spec_port_bytes(port));
    }
}

/// Appends the wire encoding of `a` to `out`.
pub fn encode_address_into(out: &mut Vec<u8>, a: &Address)
    requires
        address_wf(*a),
    ensures
        final(out)@ == old(out)@ + spec_encode_address(*a),
{
    match a {
        Address::Domain(name, port) => {
            out.push(ATYP_DOMAIN);
            out.push(name.len() as u8);
            push_bytes(out, name);
            push_port(out, *port);
            proof {
                assert(out@ =~= old(out)@ + spec_encode_address(*a));
            }
        },
        Address::Ipv4(octets, port) => {
            out.push(ATYP_IPV4);
            push_bytes(out, octets);
            push_port(out, *port);
            proof {
                assert(out@ =~= old(out)@ + spec_encode_address(*a));
            }
        },
        Address::Ipv6(octets, port) => {
            out.push(ATYP_IPV6);
            push_bytes(out, octets);
            push_port(out, *port);
            proof {
                assert(out@ =~= old(out)@ + spec_encode_address(*a));
            }
        },
    }
}

/// Encodes a handshake request.
pub fn encode_handshake_request(m: &HandshakeRequest) -> (out: Vec<u8>)
    requires
        handshake_request_wf(*m),
    ensures
        out@ == spec_encode_handshake_request(*m),
{
    let mut out: Vec<u8> = Vec::new();
    out.push(SOCKS_VERSION);
    out.push(m.methods.len() as u8);
    push_bytes(&mut out, &m.methods);
    proof {
        assert(out@ =~= spec_encode_handshake_request(*m));
    }
    out
}

/// Encodes a handshake response.
pub fn encode_handshake_response(m: &HandshakeResponse) -> (out: Vec<u8>)
    ensures
        out@ == spec_encode_handshake_response(*m),
{
    let mut out: Vec<u8> = Vec::new();
    out.push(SOCKS_VERSION);
    out.push(m.method);
    proof {
        assert(out@ =~= spec_encode_handshake_response(*m));
    }
    out
}

/// Encodes a password sub-negotiation request.
pub fn encode_password_request(m: &HandshakePasswordRequest) -> (out: Vec<u8>)
    requires
        password_request_wf(*m),
    ensures
        out@ == spec_encode_password_request(*m),
{
    let mut out: Vec<u8> = Vec::new();
    out.push(SUBNEGOTIATION_VERSION);
    out.push(m.username.len() as u8);
    push_bytes(&mut out, &m.username);
    out.push(m.password.len() as u8);
    push_bytes(&mut out, &m.password);
    proof {
        assert(out@ =~= spec_encode_password_request(*m));
    }
    out
}

/// Encodes a password sub-negotiation response.
pub fn encode_password_response(m: &HandshakePasswordResponse) -> (out: Vec<u8>)
    ensures
        out@ == spec_encode_password_response(*m),
{
    let mut out: Vec<u8> = Vec::new();
    out.push(SUBNEGOTIATION_VERSION);
    out.push(m.status);
    proof {
        assert(out@ =~= spec_encode_password_response(*m));
    }
    out
}

/// Encodes a request.
pub fn encode_request(r: &Request) -> (out: Vec<u8>)
    requires
        request_wf(*r),
    ensures
        out@ == spec_encode_request(*r),
{
    let mut out: Vec<u8> = Vec::new();
    out.push(SOCKS_VERSION);
    out.push(r.command.as_u8());
    out.push(0);
    encode_address_into(&mut out, &r.address);
    proof {
        assert(out@ =~= spec_encode_request(*r));
    }
    out
}

/// Encodes a response.
pub fn encode_response(r: &Response) -> (out: Vec<u8>)
    requires
        response_wf(*r),
    ensures
        out@ == spec_encode_response(*r),
{
    let mut out: Vec<u8> = Vec::new();
    out.push(SOCKS_VERSION);
    out.push(r.reply.as_u8());
    out.push(0);
    encode_address_into(&mut out, &r.address);
    proof {
        assert(out@ =~= spec_encode_response(*r));
    }
    out
}

/// The outcome of decoding the front of a byte buffer.
#[derive(Clone, Debug)]
pub enum Decoded<T> {
    /// A complete message and the number of bytes it occupied.
    Done(T, usize),
    /// The buffer holds only a proper prefix of a message.
    NeedMoreData,
    /// The buffer cannot be the encoding of any well-formed message.
    Malformed,
}

/// `p` is the first `p.len()` bytes of `s`.
pub open spec fn is_prefix_of(p: Seq<u8>, s: Seq<u8>) -> bool {
    p.len() <= s.len() && p == s.subrange(0, p.len() as int)
}

/// Every byte string is a prefix of itself. Together with the decoders'
/// contracts this says that encoding a well-formed message and decoding the
/// result is lossless: the same message comes back, all bytes consumed.
pub proof fn lemma_prefix_of_itself(s: Seq<u8>)
    ensures
        is_prefix_of(s, s),
{
    assert(s.subrange(0, s.len() as int) =~= s);
}

/// The bytes of a prefix are the first bytes of the longer string.
proof fn lemma_prefix_bytes(p: Seq<u8>, s: Seq<u8>)
    requires
        is_prefix_of(p, s),
    ensures
        forall|i: int| 0 <= i < p.len() ==> p[i] == s[i],
{
    assert forall|i: int| 0 <= i < p.len() implies p[i] == s[i] by {
        assert(p[i] == s.subrange(0, p.len() as int)[i]);
    }
}

/// Division and remainder by 256 invert the two-byte composition.
proof fn lemma_byte_compose(hi: int, lo: int)
    requires
        0 <= hi <= 255,
        0 <= lo <= 255,
    ensures
        (hi * 256 + lo) / 256 == hi,
        (hi * 256 + lo) % 256 == lo,
{
    assert((hi * 256 + lo) / 256 == hi && (hi * 256 + lo) % 256 == lo) by (nonlinear_arith)
        requires
            0 <= hi <= 255,
            0 <= lo <= 255,
    ;
}

/// A port is recovered from its two big-endian bytes.
proof fn lemma_port_bytes_inverse(p: u16, b0: u8, b1: u8)
    requires
        spec_port_bytes(p) == seq![b0, b1],
    ensures
        p == (b0 as u16) * 256 + (b1 as u16),
{
    assert(spec_port_bytes(p)[0] == b0);
    assert(spec_port_bytes(p)[1] == b1);
    assert(p / 256 <= 255);
    assert(p as int == (p as int / 256) * 256 + (p as int % 256)) by (nonlinear_arith);
}

/// Distinct commands have distinct wire codes.
proof fn lemma_command_code_injective(a: Command, b: Command)
    requires
        a.spec_as_u8() == b.spec_as_u8(),
    ensures
        a == b,
{
}

/// Distinct replies have distinct wire codes.
proof fn lemma_reply_code_injective(a: Reply, b: Reply)
    requires
        a.spec_as_u8() == b.spec_as_u8(),
    ensures
        a == b,
{
}

/// Copies `count` bytes of `buf` starting at `from`.
pub fn copy_range(buf: &Vec<u8>, from: usize, count: usize) -> (out: Vec<u8>)
    requires
        from + count <= buf@.len(),
    ensures
        out@ == buf@.subrange(from as int, from as int + count as int),
{
    let len = buf.len();
    let mut out: Vec<u8> = Vec::new();
    let mut i: usize = 0;
    while i < count
        invariant
            len == buf@.len(),
            from + count <= buf@.len(),
            i <= count,
            out@ == buf@.subrange(from as int, from as int + i as int),
        decreases count - i,
    {
        let b = buf[from + i];
        out.push(b);
        proof {
            assert(out@ =~= buf@.subrange(from as int, from as int + i as int + 1));
        }
        i = i + 1;
    }
    out
}

/// Reads the big-endian port stored at `at`.
pub fn read_port(buf: &Vec<u8>, at: usize) -> (r: u16)
    requires
        at + 2 <= buf@.len(),
    ensures
        spec_port_bytes(r) == seq![buf@[at as int], buf@[at as int + 1]],
{
    let len = buf.len();
    assert(at + 2 <= len);
    let hi = buf[at];
    let lo = buf[at + 1];
    let r: u16 = (hi as u16) * 256 + (lo as u16);
    proof {
        lemma_byte_compose(hi as int, lo as int);
        assert(spec_port_bytes(r) =~= seq![hi, lo]);
    }
    r
}

/// The encoding of a well-formed address is at least four bytes, and its
/// first byte is the address type code.
proof fn lemma_address_encoding_shape(a: Address)
    requires
        address_wf(a),
    ensures
        4 <= spec_encode_address(a).len(),
        a matches Address::Domain(name, _) ==> spec_encode_address(a).len() == 4 + name@.len()
            && spec_encode_address(a)[0] == ATYP_DOMAIN
            && spec_encode_address(a)[1] == name@.len() as u8,
        a is Ipv4 ==> spec_encode_address(a).len() == 7 && spec_encode_address(a)[0] == ATYP_IPV4,
        a is Ipv6 ==> spec_encode_address(a).len() == 19 && spec_encode_address(a)[0] == ATYP_IPV6,
{
}

/// Decodes the address that starts at `buf[start]`.
///
/// Accepts exactly the encodings: a `Done` result is an encoding of the
/// returned address, and whenever the rest of the buffer begins with the
/// encoding of a well-formed address, that address (and nothing else) is
/// returned, whatever follows it.
pub fn decode_address_at(buf: &Vec<u8>, start: usize) -> (r: Decoded<Address>)
    requires
        start <= buf@.len(),
    ensures
        r matches Decoded::Done(a, n) ==> address_wf(a) && start + n <= buf@.len()
            && buf@.subrange(start as int, start as int + n as int) == spec_encode_address(a),
        forall|a: Address|
            address_wf(a) && is_prefix_of(
                #[trigger] spec_encode_address(a),
                buf@.subrange(start as int, buf@.len() as int),
            ) ==> (r matches Decoded::Done(a2, n) && same_address(a2, a) && n
                == spec_encode_address(a).len()),
{
    let len = buf.len();
    let ghost rest = buf@.subrange(start as int, len as int);
    if start >= len {
        proof {
            assert forall|a: Address|
                address_wf(a) && is_prefix_of(#[trigger] spec_encode_address(a), rest)
                implies false by {
                lemma_address_encoding_shape(a);
            }
        }
        return Decoded::NeedMoreData;
    }
    let atyp = buf[start];
    proof {
        assert(rest[0] == atyp);
        assert forall|a: Address|
            address_wf(a) && is_prefix_of(#[trigger] spec_encode_address(a), rest)
            implies spec_encode_address(a)[0] == atyp by {
            lemma_address_encoding_shape(a);
            lemma_prefix_bytes(spec_encode_address(a), rest);
        }
    }
    if atyp == ATYP_IPV4 {
        if len - start < 7 {
            proof {
                assert forall|a: Address|
                    address_wf(a) && is_prefix_of(#[trigger] spec_encode_address(a), rest)
                    implies false by {
                    lemma_address_encoding_shape(a);
                    assert(a is Ipv4);
                    assert(spec_encode_address(a).len() == 7);
                }
            }
            return Decoded::NeedMoreData;
        }
        let octets = copy_range(buf, start + 1, 4);
        let port = read_port(buf, start + 5);
        let a2 = Address::Ipv4(octets, port);
        proof {
            assert(buf@.subrange(start as int, start as int + 7) =~= spec_encode_address(a2));
            assert forall|a: Address|
                address_wf(a) && is_prefix_of(#[trigger] spec_encode_address(a), rest)
                implies same_address(a2, a) && spec_encode_address(a).len() == 7 by {
                lemma_address_encoding_shape(a);
                assert(a is Ipv4);
                lemma_prefix_bytes(spec_encode_address(a), rest);
                let (o, p) = match a {
                    Address::Ipv4(o, p) => (o, p),
                    _ => arbitrary(),
                };
                assert forall|i: int| 0 <= i < 4 implies o@[i] == octets@[i] by {
                    assert(spec_encode_address(a)[1 + i] == o@[i]);
                    assert(rest[1 + i] == buf@[start as int + 1 + i]);
                }
                assert(o@ =~= octets@);
                assert(spec_encode_address(a)[5] == spec_port_bytes(p)[0]);
                assert(spec_encode_address(a)[6] == spec_port_bytes(p)[1]);
                assert(rest[5] == buf@[start as int + 5] && rest[6] == buf@[start as int + 6]);
                assert(spec_port_bytes(p) =~= seq![
                    buf@[start as int + 5],
                    buf@[start as int + 6],
                ]);
                lemma_port_bytes_inverse(p, buf[start as int + 5], buf[start as int + 6]);
                lemma_port_bytes_inverse(port, buf[start as int + 5], buf[start as int + 6]);
            }
        }
        return Decoded::Done(a2, 7);
    }
    if atyp == ATYP_DOMAIN {
        if len - start < 2 {
            proof {
                assert forall|a: Address|
                    address_wf(a) && is_prefix_of(#[trigger] spec_encode_address(a), rest)
                    implies false by {
                    lemma_address_encoding_shape(a);
                    assert(a is Domain);
                    assert(spec_encode_address(a).len() >= 4);
                }
            }
            return Decoded::NeedMoreData;
        }
        let dlen = buf[start + 1] as usize;
        proof {
            assert(rest[1] == dlen as u8);
            assert forall|a: Address|
                address_wf(a) && is_prefix_of(#[trigger] spec_encode_address(a), rest) implies (a
                matches Address::Domain(name, _) && name@.len() == dlen) by {
                lemma_address_encoding_shape(a);
                lemma_prefix_bytes(spec_encode_address(a), rest);
                let name = a->Domain_0;
                assert(spec_encode_address(a)[1] == name@.len() as u8);
                assert(name@.len() as u8 == rest[1]);
            }
        }
        if len - start < 4 + dlen {
            proof {
                assert forall|a: Address|
                    address_wf(a) && is_prefix_of(#[trigger] spec_encode_address(a), rest)
                    implies false by {
                    lemma_address_encoding_shape(a);
                    assert(spec_encode_address(a).len() == 4 + dlen);
                }
            }
            return Decoded::NeedMoreData;
        }
        let name = copy_range(buf, start + 2, dlen);
        let port = read_port(buf, start + 2 + dlen);
        let a2 = Address::Domain(name, port);
        proof {
            assert(buf@.subrange(start as int, start as int + 4 + dlen as int)
                =~= spec_encode_address(a2));
            assert forall|a: Address|
                address_wf(a) && is_prefix_of(#[trigger] spec_encode_address(a), rest)
                implies same_address(a2, a) && spec_encode_address(a).len() == 4 + dlen by {
                lemma_address_encoding_shape(a);
                lemma_prefix_bytes(spec_encode_address(a), rest);
                let (o, p) = match a {
                    Address::Domain(o, p) => (o, p),
                    _ => arbitrary(),
                };
                assert forall|i: int| 0 <= i < dlen implies o@[i] == name@[i] by {
                    assert(spec_encode_address(a)[2 + i] == o@[i]);
                    assert(rest[2 + i] == buf@[start as int + 2 + i]);
                }
                assert(o@ =~= name@);
                assert(spec_encode_address(a)[2 + dlen as int] == spec_port_bytes(p)[0]);
                assert(spec_encode_address(a)[3 + dlen as int] == spec_port_bytes(p)[1]);
                assert(rest[2 + dlen as int] == buf@[start as int + 2 + dlen as int]);
                assert(rest[3 + dlen as int] == buf@[start as int + 3 + dlen as int]);
                assert(spec_port_bytes(p) =~= seq![
                    buf@[start as int + 2 + dlen as int],
                    buf@[start as int + 3 + dlen as int],
                ]);
                lemma_port_bytes_inverse(
                    p,
                    buf[start as int + 2 + dlen as int],
                    buf[start as int + 3 + dlen as int],
                );
                lemma_port_bytes_inverse(
                    port,
                    buf[start as int + 2 + dlen as int],
                    buf[start as int + 3 + dlen as int],
                );
            }
        }
        return Decoded::Done(a2, 4 + dlen);
    }
    if atyp == ATYP_IPV6 {
        if len - start < 19 {
            proof {
                assert forall|a: Address|
                    address_wf(a) && is_prefix_of(#[trigger] spec_encode_address(a), rest)
                    implies false by {
                    lemma_address_encoding_shape(a);
                    assert(a is Ipv6);
                    assert(spec_encode_address(a).len() == 19);
                }
            }
            return Decoded::NeedMoreData;
        }
        let octets = copy_range(buf, start + 1, 16);
        let port = read_port(buf, start + 17);
        let a2 = Address::Ipv6(octets, port);
        proof {
            assert(buf@.subrange(start as int, start as int + 19) =~= spec_encode_address(a2));
            assert forall|a: Address|
                address_wf(a) && is_prefix_of(#[trigger] spec_encode_address(a), rest)
                implies same_address(a2, a) && spec_encode_address(a).len() == 19 by {
                lemma_address_encoding_shape(a);
                assert(a is Ipv6);
                lemma_prefix_bytes(spec_encode_address(a), rest);
                let (o, p) = match a {
                    Address::Ipv6(o, p) => (o, p),
                    _ => arbitrary(),
                };
                assert forall|i: int| 0 <= i < 16 implies o@[i] == octets@[i] by {
                    assert(spec_encode_address(a)[1 + i] == o@[i]);
                    assert(rest[1 + i] == buf@[start as int + 1 + i]);
                }
                assert(o@ =~= octets@);
                assert(spec_encode_address(a)[17] == spec_port_bytes(p)[0]);
                assert(spec_encode_address(a)[18] == spec_port_bytes(p)[1]);
                assert(rest[17] == buf@[start as int + 17] && rest[18] == buf@[start as int + 18]);
                assert(spec_port_bytes(p) =~= seq![
                    buf@[start as int + 17],
                    buf@[start as int + 18],
                ]);
                lemma_port_bytes_inverse(p, buf[start as int + 17], buf[start as int + 18]);
                lemma_port_bytes_inverse(port, buf[start as int + 17], buf[start as int + 18]);
            }
        }
        return Decoded::Done(a2, 19);
    }
    proof {
        assert forall|a: Address|
            address_wf(a) && is_prefix_of(#[trigger] spec_encode_address(a), rest) implies false by {
            lemma_address_encoding_shape(a);
        }
    }
    Decoded::Malformed
}

/// Decodes the handshake request at the front of `buf`.
///
/// Whenever `buf` begins with the encoding of a well-formed handshake
/// request, a request with the same method list comes back and exactly the
/// encoding is consumed.
pub fn decode_handshake_request(buf: &Vec<u8>) -> (r: Decoded<HandshakeRequest>)
    ensures
        r matches Decoded::Done(m, n) ==> handshake_request_wf(m) && n <= buf@.len()
            && buf@.subrange(0, n as int) == spec_encode_handshake_request(m),
        forall|m: HandshakeRequest|
            handshake_request_wf(m) && is_prefix_of(
                #[trigger] spec_encode_handshake_request(m),
                buf@,
            ) ==> (r matches Decoded::Done(m2, n) && m2.methods@ == m.methods@ && n
                == spec_encode_handshake_request(m).len()),
{
    let len = buf.len();
    if len < 2 {
        return Decoded::NeedMoreData;
    }
    if buf[0] != SOCKS_VERSION {
        proof {
            assert forall|m: HandshakeRequest|
                handshake_request_wf(m) && is_prefix_of(
                    #[trigger] spec_encode_handshake_request(m),
                    buf@,
                ) implies false by {
                lemma_prefix_bytes(spec_encode_handshake_request(m), buf@);
                assert(spec_encode_handshake_request(m)[0] == SOCKS_VERSION);
            }
        }
        return Decoded::Malformed;
    }
    let count = buf[1] as usize;
    if len < 2 + count {
        proof {
            assert forall|m: HandshakeRequest|
                handshake_request_wf(m) && is_prefix_of(
                    #[trigger] spec_encode_handshake_request(m),
                    buf@,
                ) implies false by {
                lemma_prefix_bytes(spec_encode_handshake_request(m), buf@);
                assert(spec_encode_handshake_request(m)[1] == m.methods@.len() as u8);
                assert(spec_encode_handshake_request(m).len() == 2 + m.methods@.len());
            }
        }
        return Decoded::NeedMoreData;
    }
    let methods = copy_range(buf, 2, count);
    let m2 = HandshakeRequest { methods };
    proof {
        assert(buf@.subrange(0, 2 + count as int) =~= spec_encode_handshake_request(m2));
        assert forall|m: HandshakeRequest|
            handshake_request_wf(m) && is_prefix_of(
                #[trigger] spec_encode_handshake_request(m),
                buf@,
            ) implies m2.methods@ == m.methods@ && 2 + count
            == spec_encode_handshake_request(m).len() by {
            lemma_prefix_bytes(spec_encode_handshake_request(m), buf@);
            assert(spec_encode_handshake_request(m)[1] == m.methods@.len() as u8);
            assert(m.methods@.len() == count);
            assert forall|i: int| 0 <= i < count implies m.methods@[i] == m2.methods@[i] by {
                assert(spec_encode_handshake_request(m)[2 + i] == m.methods@[i]);
                assert(m2.methods@[i] == buf@[2 + i]);
            }
            assert(m.methods@ =~= m2.methods@);
        }
    }
    Decoded::Done(m2, 2 + count)
}

/// Decodes the password sub-negotiation request at the front of `buf`.
///
/// Whenever `buf` begins with the encoding of a well-formed password
/// request, the same username and password bytes come back and exactly the
/// encoding is consumed.
pub fn decode_password_request(buf: &Vec<u8>) -> (r: Decoded<HandshakePasswordRequest>)
    ensures
        r matches Decoded::Done(m, n) ==> password_request_wf(m) && n <= buf@.len()
            && buf@.subrange(0, n as int) == spec_encode_password_request(m),
        forall|m: HandshakePasswordRequest|
            password_request_wf(m) && is_prefix_of(
                #[trigger] spec_encode_password_request(m),
                buf@,
            ) ==> (r matches Decoded::Done(m2, n) && m2.username@ == m.username@ && m2.password@
                == m.password@ && n == spec_encode_password_request(m).len()),
{
    let len = buf.len();
    if len < 2 {
        return Decoded::NeedMoreData;
    }
    if buf[0] != SUBNEGOTIATION_VERSION {
        proof {
            assert forall|m: HandshakePasswordRequest|
                password_request_wf(m) && is_prefix_of(
                    #[trigger] spec_encode_password_request(m),
                    buf@,
                ) implies false by {
                lemma_prefix_bytes(spec_encode_password_request(m), buf@);
                assert(spec_encode_password_request(m)[0] == SUBNEGOTIATION_VERSION);
            }
        }
        return Decoded::Malformed;
    }
    let ulen = buf[1] as usize;
    proof {
        assert forall|m: HandshakePasswordRequest|
            password_request_wf(m) && is_prefix_of(
                #[trigger] spec_encode_password_request(m),
                buf@,
            ) implies m.username@.len() == ulen && spec_encode_password_request(m).len() == 3 + ulen
            + m.password@.len() by {
            lemma_prefix_bytes(spec_encode_password_request(m), buf@);
            assert(spec_encode_password_request(m)[1] == m.username@.len() as u8);
        }
    }
    if len < 3 + ulen {
        return Decoded::NeedMoreData;
    }
    let username = copy_range(buf, 2, ulen);
    let plen = buf[2 + ulen] as usize;
    proof {
        assert forall|m: HandshakePasswordRequest|
            password_request_wf(m) && is_prefix_of(
                #[trigger] spec_encode_password_request(m),
                buf@,
            ) implies m.password@.len() == plen by {
            lemma_prefix_bytes(spec_encode_password_request(m), buf@);
            assert(spec_encode_password_request(m)[2 + ulen] == m.password@.len() as u8);
        }
    }
    if len - 3 - ulen < plen {
        return Decoded::NeedMoreData;
    }
    let password = copy_range(buf, 3 + ulen, plen);
    let m2 = HandshakePasswordRequest { username, password };
    let n2 = 3 + ulen + plen;
    proof {
        assert(buf@.subrange(0, n2 as int) =~= spec_encode_password_request(m2));
        assert forall|m: HandshakePasswordRequest|
            password_request_wf(m) && is_prefix_of(
                #[trigger] spec_encode_password_request(m),
                buf@,
            ) implies m2.username@ == m.username@ && m2.password@ == m.password@ && n2
            == spec_encode_password_request(m).len() by {
            lemma_prefix_bytes(spec_encode_password_request(m), buf@);
            assert forall|i: int| 0 <= i < ulen implies m.username@[i] == m2.username@[i] by {
                assert(spec_encode_password_request(m)[2 + i] == m.username@[i]);
                assert(m2.username@[i] == buf@[2 + i]);
            }
            assert(m.username@ =~= m2.username@);
            assert forall|i: int| 0 <= i < plen implies m.password@[i] == m2.password@[i] by {
                assert(spec_encode_password_request(m)[3 + ulen + i] == m.password@[i]);
                assert(m2.password@[i] == buf@[3 + ulen + i]);
            }
            assert(m.password@ =~= m2.password@);
        }
    }
    Decoded::Done(m2, n2)
}

/// Decodes the request at the front of `buf`.
///
/// Whenever `buf` begins with the encoding of a well-formed request, the
/// same command and address come back and exactly the encoding is consumed;
/// in particular encoding then decoding any request is lossless.
pub fn decode_request(buf: &Vec<u8>) -> (r: Decoded<Request>)
    ensures
        r matches Decoded::Done(m, n) ==> request_wf(m) && n <= buf@.len() && buf@.subrange(
            0,
            n as int,
        ) == spec_encode_request(m),
        forall|m: Request|
            request_wf(m) && is_prefix_of(#[trigger] spec_encode_request(m), buf@) ==> (r
                matches Decoded::Done(m2, n) && same_request(m2, m) && n == spec_encode_request(
                m,
            ).len()),
{
    let len = buf.len();
    if len < 3 {
        proof {
            assert forall|m: Request|
                request_wf(m) && is_prefix_of(#[trigger] spec_encode_request(m), buf@)
                implies false by {
                lemma_address_encoding_shape(m.address);
            }
        }
        return Decoded::NeedMoreData;
    }
    proof {
        assert forall|m: Request|
            request_wf(m) && is_prefix_of(#[trigger] spec_encode_request(m), buf@) implies buf@[0]
            == SOCKS_VERSION && buf@[1] == m.command.spec_as_u8() && buf@[2] == 0 && is_prefix_of(
            spec_encode_address(m.address),
            buf@.subrange(3, buf@.len() as int),
        ) by {
            lemma_address_encoding_shape(m.address);
            lemma_prefix_bytes(spec_encode_request(m), buf@);
            let ea = spec_encode_address(m.address);
            assert forall|i: int|
                0 <= i < ea.len() implies ea[i] == buf@.subrange(3, buf@.len() as int).subrange(
                0,
                ea.len() as int,
            )[i] by {
                assert(spec_encode_request(m)[3 + i] == ea[i]);
                assert(spec_encode_request(m)[3 + i] == buf@[3 + i]);
            }
            assert(ea =~= buf@.subrange(3, buf@.len() as int).subrange(0, ea.len() as int));
        }
    }
    if buf[0] != SOCKS_VERSION {
        return Decoded::Malformed;
    }
    let cmd = match Command::from_u8(buf[1]) {
        Some(c) => c,
        None => {
            return Decoded::Malformed;
        },
    };
    if buf[2] != 0 {
        return Decoded::Malformed;
    }
    match decode_address_at(buf, 3) {
        Decoded::Done(addr, n) => {
            let m2 = Request { command: cmd, address: addr };
            proof {
                assert(buf@.subrange(0, 3 + n as int) =~= spec_encode_request(m2));
                assert forall|m: Request|
                    request_wf(m) && is_prefix_of(#[trigger] spec_encode_request(m), buf@)
                    implies same_request(m2, m) && 3 + n == spec_encode_request(m).len() by {
                    lemma_command_code_injective(cmd, m.command);
                }
            }
            Decoded::Done(m2, 3 + n)
        },
        Decoded::NeedMoreData => Decoded::NeedMoreData,
        Decoded::Malformed => Decoded::Malformed,
    }
}

/// Decodes the response at the front of `buf`.
///
/// Whenever `buf` begins with the encoding of a well-formed response, the
/// same reply code and address come back and exactly the encoding is
/// consumed; in particular encoding then decoding any response is lossless.
pub fn decode_response(buf: &Vec<u8>) -> (r: Decoded<Response>)
    ensures
        r matches Decoded::Done(m, n) ==> response_wf(m) && n <= buf@.len() && buf@.subrange(
            0,
            n as int,
        ) == spec_encode_response(m),
        forall|m: Response|
            response_wf(m) && is_prefix_of(#[trigger] spec_encode_response(m), buf@) ==> (r
                matches Decoded::Done(m2, n) && same_response(m2, m) && n == spec_encode_response(
                m,
            ).len()),
{
    let len = buf.len();
    if len < 3 {
        proof {
            assert forall|m: Response|
                response_wf(m) && is_prefix_of(#[trigger] spec_encode_response(m), buf@)
                implies false by {
                lemma_address_encoding_shape(m.address);
            }
        }
        return Decoded::NeedMoreData;
    }
    proof {
        assert forall|m: Response|
            response_wf(m) && is_prefix_of(#[trigger] spec_encode_response(m), buf@)
            implies buf@[0] == SOCKS_VERSION && buf@[1] == m.reply.spec_as_u8() && buf@[2] == 0
            && is_prefix_of(
            spec_encode_address(m.address),
            buf@.subrange(3, buf@.len() as int),
        ) by {
            lemma_address_encoding_shape(m.address);
            lemma_prefix_bytes(spec_encode_response(m), buf@);
            let ea = spec_encode_address(m.address);
            assert forall|i: int|
                0 <= i < ea.len() implies ea[i] == buf@.subrange(3, buf@.len() as int).subrange(
                0,
                ea.len() as int,
            )[i] by {
                assert(spec_encode_response(m)[3 + i] == ea[i]);
                assert(spec_encode_response(m)[3 + i] == buf@[3 + i]);
            }
            assert(ea =~= buf@.subrange(3, buf@.len() as int).subrange(0, ea.len() as int));
        }
    }
    if buf[0] != SOCKS_VERSION {
        return Decoded::Malformed;
    }
    let rep = match Reply::from_u8(buf[1]) {
        Some(c) => c,
        None => {
            return Decoded::Malformed;
        },
    };
    if buf[2] != 0 {
        return Decoded::Malformed;
    }
    match decode_address_at(buf, 3) {
        Decoded::Done(addr, n) => {
            let m2 = Response { reply: rep, address: addr };
            proof {
                assert(buf@.subrange(0, 3 + n as int) =~= spec_encode_response(m2));
                assert forall|m: Response|
                    response_wf(m) && is_prefix_of(#[trigger] spec_encode_response(m), buf@)
                    implies same_response(m2, m) && 3 + n == spec_encode_response(m).len() by {
                    lemma_reply_code_injective(rep, m.reply);
                }
            }
            Decoded::Done(m2, 3 + n)
        },
        Decoded::NeedMoreData => Decoded::NeedMoreData,
        Decoded::Malformed => Decoded::Malformed,
    }
}

} // verus!
