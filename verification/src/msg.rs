//! SOCKS5 message types: commands, reply codes, authentication methods,
//! addresses and the six wire messages exchanged on one proxied connection.

use vstd::prelude::*;

verus! {

/// Protocol version byte carried by every SOCKS5 message.
pub const SOCKS_VERSION: u8 = 5;

/// Version byte of the username/password sub-negotiation messages.
pub const SUBNEGOTIATION_VERSION: u8 = 1;

/// Method identifier meaning "no authentication required".
pub const METHOD_NONE: u8 = 0;
/// Method identifier of GSSAPI authentication; recognized but never selected.
pub const METHOD_GSSAPI: u8 = 1;
/// Method identifier of username/password authentication.
pub const METHOD_PASSWORD: u8 = 2;
/// Sentinel answered to a client when no offered method is acceptable.
pub const METHOD_UNACCEPTABLE: u8 = 255;

/// Status byte of a successful password sub-negotiation.
pub const PASSWORD_STATUS_SUCCESS: u8 = 0;
/// Status byte of a failed password sub-negotiation.
pub const PASSWORD_STATUS_FAILED: u8 = 1;

/// Address type code of an IPv4 address.
pub const ATYP_IPV4: u8 = 1;
/// Address type code of a domain name.
pub const ATYP_DOMAIN: u8 = 3;
/// Address type code of an IPv6 address.
pub const ATYP_IPV6: u8 = 4;

/// The command of a SOCKS5 request.
#[derive(Clone, Copy, PartialEq, Eq, Structural, Debug)]
pub enum Command {
    Connect,
    Bind,
    UdpAssociate,
}

impl Command {
    /// The wire code of this command.
    pub open spec fn spec_as_u8(self) -> u8 {
        match self {
            Command::Connect => 1,
            Command::Bind => 2,
            Command::UdpAssociate => 3,
        }
    }

    pub fn as_u8(self) -> (r: u8)
        ensures
            r == self.spec_as_u8(),
    {
        match self {
            Command::Connect => 1,
            Command::Bind => 2,
            Command::UdpAssociate => 3,
        }
    }

    /// Decodes a command byte; every byte outside the three commands is rejected.
    pub fn from_u8(code: u8) -> (r: Option<Command>)
        ensures
            r matches Some(c) ==> c.spec_as_u8() == code,
            r is None <==> !(code == 1 || code == 2 || code == 3),
    {
        if code == 1 {
            Some(Command::Connect)
        } else if code == 2 {
            Some(Command::Bind)
        } else if code == 3 {
            Some(Command::UdpAssociate)
        } else {
            None
        }
    }
}

/// The reply code of a SOCKS5 response.
#[derive(Clone, Copy, PartialEq, Eq, Structural, Debug)]
pub enum Reply {
    Succeeded,
    GeneralFailure,
    ConnectionNotAllowed,
    NetworkUnreachable,
    HostUnreachable,
    ConnectionRefused,
    TtlExpired,
    CommandNotSupported,
    AddressTypeNotSupported,
}

impl Reply {
    /// The wire code of this reply.
    pub open spec fn spec_as_u8(self) -> u8 {
        match self {
            Reply::Succeeded => 0,
            Reply::GeneralFailure => 1,
            Reply::ConnectionNotAllowed => 2,
            Reply::NetworkUnreachable => 3,
            Reply::HostUnreachable => 4,
            Reply::ConnectionRefused => 5,
            Reply::TtlExpired => 6,
            Reply::CommandNotSupported => 7,
            Reply::AddressTypeNotSupported => 8,
        }
    }

    pub fn as_u8(self) -> (r: u8)
        ensures
            r == self.spec_as_u8(),
    {
        match self {
            Reply::Succeeded => 0,
            Reply::GeneralFailure => 1,
            Reply::ConnectionNotAllowed => 2,
            Reply::NetworkUnreachable => 3,
            Reply::HostUnreachable => 4,
            Reply::ConnectionRefused => 5,
            Reply::TtlExpired => 6,
            Reply::CommandNotSupported => 7,
            Reply::AddressTypeNotSupported => 8,
        }
    }

    /// Decodes a reply byte; every byte above 8 is rejected.
    pub fn from_u8(code: u8) -> (r: Option<Reply>)
        ensures
            r matches Some(c) ==> c.spec_as_u8() == code,
            r is None <==> code > 8,
    {
        if code == 0 {
            Some(Reply::Succeeded)
        } else if code == 1 {
            Some(Reply::GeneralFailure)
        } else if code == 2 {
            Some(Reply::ConnectionNotAllowed)
        } else if code == 3 {
            Some(Reply::NetworkUnreachable)
        } else if code == 4 {
            Some(Reply::HostUnreachable)
        } else if code == 5 {
            Some(Reply::ConnectionRefused)
        } else if code == 6 {
            Some(Reply::TtlExpired)
        } else if code == 7 {
            Some(Reply::CommandNotSupported)
        } else if code == 8 {
            Some(Reply::AddressTypeNotSupported)
        } else {
            None
        }
    }
}

/// The authentication method a server is configured with, or the two
/// sentinels that only ever appear on the wire.
#[derive(Clone, Debug)]
pub enum Socks5AuthMethod {
    NoAuth,
    GssApi,
    Password { username: Vec<u8>, password: Vec<u8> },
    Unacceptable,
}

impl Socks5AuthMethod {
    /// The method identifier sent on the wire for this method.
    pub open spec fn spec_as_u8(self) -> u8 {
        match self {
            Socks5AuthMethod::NoAuth => METHOD_NONE,
            Socks5AuthMethod::GssApi => METHOD_GSSAPI,
            Socks5AuthMethod::Password { .. } => METHOD_PASSWORD,
            Socks5AuthMethod::Unacceptable => METHOD_UNACCEPTABLE,
        }
    }

    pub fn as_u8(&self) -> (r: u8)
        ensures
            r == self.spec_as_u8(),
    {
        match self {
            Socks5AuthMethod::NoAuth => METHOD_NONE,
            Socks5AuthMethod::GssApi => METHOD_GSSAPI,
            Socks5AuthMethod::Password { .. } => METHOD_PASSWORD,
            Socks5AuthMethod::Unacceptable => METHOD_UNACCEPTABLE,
        }
    }

    /// A server configuration only ever selects `NoAuth` or `Password`;
    /// `GssApi` and `Unacceptable` are non-selectable sentinels.
    pub open spec fn selectable(self) -> bool {
        self is NoAuth || self is Password
    }
}

/// A destination address: a domain name, an IPv4 address or an IPv6
/// address, each with a port.
#[derive(Clone, Debug)]
pub enum Address {
    /// Domain name bytes and port.
    Domain(Vec<u8>, u16),
    /// The four IPv4 octets and port.
    Ipv4(Vec<u8>, u16),
    /// The sixteen IPv6 octets and port.
    Ipv6(Vec<u8>, u16),
}

/// Well-formedness of an address: a domain name fits its one-byte length
/// prefix, and the octet strings have their fixed lengths.
pub open spec fn address_wf(a: Address) -> bool {
    match a {
        Address::Domain(name, _) => name@.len() <= 255,
        Address::Ipv4(octets, _) => octets@.len() == 4,
        Address::Ipv6(octets, _) => octets@.len() == 16,
    }
}

/// Two addresses carry the same variant, the same bytes and the same port.
pub open spec fn same_address(a: Address, b: Address) -> bool {
    match (a, b) {
        (Address::Domain(n1, p1), Address::Domain(n2, p2)) => n1@ == n2@ && p1 == p2,
        (Address::Ipv4(o1, p1), Address::Ipv4(o2, p2)) => o1@ == o2@ && p1 == p2,
        (Address::Ipv6(o1, p1), Address::Ipv6(o2, p2)) => o1@ == o2@ && p1 == p2,
        _ => false,
    }
}

/// The wildcard bound address `0.0.0.0:0` that every response carries.
pub open spec fn is_wildcard_address(a: Address) -> bool {
    a matches Address::Ipv4(octets, port) && octets@ == seq![0u8, 0u8, 0u8, 0u8] && port == 0
}

/// Builds the wildcard bound address `0.0.0.0:0`.
pub fn wildcard_address() -> (a: Address)
    ensures
        is_wildcard_address(a),
        address_wf(a),
{
    let mut octets: Vec<u8> = Vec::new();
    octets.push(0);
    octets.push(0);
    octets.push(0);
    octets.push(0);
    proof {
        assert(octets@ =~= seq![0u8, 0u8, 0u8, 0u8]);
    }
    Address::Ipv4(octets, 0)
}

/// The client's opening message: the set of offered method identifiers.
#[derive(Clone, Debug)]
pub struct HandshakeRequest {
    pub methods: Vec<u8>,
}

impl HandshakeRequest {
    pub fn new(methods: Vec<u8>) -> (r: Self)
        ensures
            r.methods@ == methods@,
    {
        Self { methods }
    }
}

/// A handshake request fits its one-byte method count.
pub open spec fn handshake_request_wf(m: HandshakeRequest) -> bool {
    m.methods@.len() <= 255
}

/// The server's answer to a handshake: the single chosen method identifier.
#[derive(Clone, Copy, PartialEq, Eq, Structural, Debug)]
pub struct HandshakeResponse {
    pub method: u8,
}

impl HandshakeResponse {
    pub fn new(method: u8) -> (r: Self)
        ensures
            r.method == method,
    {
        Self { method }
    }
}

/// The client's password sub-negotiation message.
#[derive(Clone, Debug)]
pub struct HandshakePasswordRequest {
    pub username: Vec<u8>,
    pub password: Vec<u8>,
}

/// Username and password each fit their one-byte length prefix.
pub open spec fn password_request_wf(m: HandshakePasswordRequest) -> bool {
    m.username@.len() <= 255 && m.password@.len() <= 255
}

/// Compares two byte strings for exact equality.
pub fn bytes_eq(a: &Vec<u8>, b: &Vec<u8>) -> (r: bool)
    ensures
        r <==> a@ == b@,
{
    if a.len() != b.len() {
        assert(a@ != b@) by {
            assert(a@.len() != b@.len());
        }
        return false;
    }
    let n = a.len();
    let mut i: usize = 0;
    while i < n
        invariant
            n == a@.len() == b@.len(),
            i <= n,
            forall|j: int| 0 <= j < i ==> a@[j] == b@[j],
        decreases n - i,
    {
        if a[i] != b[i] {
            return false;
        }
        i = i + 1;
    }
    proof {
        assert(a@ =~= b@);
    }
    true
}

impl HandshakePasswordRequest {
    pub fn new(username: Vec<u8>, password: Vec<u8>) -> (r: Self)
        ensures
            r.username@ == username@,
            r.password@ == password@,
    {
        Self { username, password }
    }

    /// True iff both username and password are byte-exact matches to the
    /// credentials configured in `method`.
    pub open spec fn spec_authenticated(self, method: Socks5AuthMethod) -> bool {
        method matches Socks5AuthMethod::Password { username, password }
            && self.username@ == username@ && self.password@ == password@
    }

    /// Password sub-negotiation authenticates iff username and password are
    /// byte-exact matches to the configured credentials; any method other
    /// than `Password` authenticates nobody.
    pub fn authenticated(&self, method: &Socks5AuthMethod) -> (r: bool)
        ensures
            r <==> self.spec_authenticated(*method),
    {
        match method {
            Socks5AuthMethod::Password { username, password } => {
                bytes_eq(&self.username, username) && bytes_eq(&self.password, password)
            },
            _ => false,
        }
    }
}

/// The server's answer to a password sub-negotiation.
#[derive(Clone, Copy, PartialEq, Eq, Structural, Debug)]
pub struct HandshakePasswordResponse {
    pub status: u8,
}

impl HandshakePasswordResponse {
    pub fn new(status: u8) -> (r: Self)
        ensures
            r.status == status,
    {
        Self { status }
    }
}

/// The single request a client sends after authentication.
#[derive(Clone, Debug)]
pub struct Request {
    pub command: Command,
    pub address: Address,
}

impl Request {
    pub fn new(command: Command, address: Address) -> (r: Self)
        ensures
            r.command == command,
            r.address == address,
    {
        Self { command, address }
    }
}

/// Well-formedness of a request.
pub open spec fn request_wf(r: Request) -> bool {
    address_wf(r.address)
}

/// Two requests carry the same command and the same address.
pub open spec fn same_request(a: Request, b: Request) -> bool {
    a.command == b.command && same_address(a.address, b.address)
}

/// The single response the server writes back for a request.
#[derive(Clone, Debug)]
pub struct Response {
    pub reply: Reply,
    pub address: Address,
}

impl Response {
    pub fn new(reply: Reply, address: Address) -> (r: Self)
        ensures
            r.reply == reply,
            r.address == address,
    {
        Self { reply, address }
    }
}

/// Well-formedness of a response.
pub open spec fn response_wf(r: Response) -> bool {
    address_wf(r.address)
}

/// Two responses carry the same reply code and the same address.
pub open spec fn same_response(a: Response, b: Response) -> bool {
    a.reply == b.reply && same_address(a.address, b.address)
}

} // verus!
