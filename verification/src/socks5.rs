//! SOCKS5 admission (RFC 1928): the handshake that admits a local TCP
//! connection and names the target of its tunnel stream.
//!
//! Only CONNECT is supported, without authentication, to IPv4 and domain
//! targets. The handshake decides what to read, what to answer and when to
//! open the stream; whoever owns the socket reads and writes.

use vstd::prelude::*;
use vstd::slice::{slice_subrange, slice_to_vec};
use vstd::string::StringExecFns;
use vstd::utf8::{decode_utf8, valid_utf8};
use crate::message::{get_u16, put_u16, string_from_utf8};
use crate::text::{decimal, decimal_string};
use crate::wire::{be16, read_be16};

verus! {

/// SOCKS version.
pub const SOCKS_VERSION: u8 = 0x05;

/// Authentication method: none.
pub const AUTH_NO_AUTH: u8 = 0x00;

/// Authentication method: none acceptable.
pub const AUTH_NONE_ACCEPTABLE: u8 = 0xFF;

/// Command: CONNECT.
pub const CMD_CONNECT: u8 = 0x01;

/// Address types.
pub const ATYP_IPV4: u8 = 0x01;

pub const ATYP_DOMAIN: u8 = 0x03;

pub const ATYP_IPV6: u8 = 0x04;

/// Reply codes.
pub const REP_SUCCESS: u8 = 0x00;

pub const REP_GENERAL_FAILURE: u8 = 0x01;

pub const REP_HOST_UNREACHABLE: u8 = 0x04;

pub const REP_CMD_NOT_SUPPORTED: u8 = 0x07;

pub const REP_ATYP_NOT_SUPPORTED: u8 = 0x08;

/// Why a handshake ended without a stream.
#[derive(Debug, Clone, Copy, PartialEq, Eq, Structural)]
pub enum Socks5Error {
    /// The greeting names another version than 5.
    InvalidVersion(u8),
    /// The client does not offer to go without authentication.
    NoSupportedAuth,
    /// The request names another version than 5.
    InvalidRequestVersion,
    /// The request is for another command than CONNECT.
    CommandNotSupported,
    /// The target is an IPv6 address.
    Ipv6NotSupported,
    /// The target's address type is unknown.
    UnknownAddressType(u8),
    /// The target's domain name is not valid UTF-8.
    InvalidUtf8,
    /// The input is not as long as the handshake asked for.
    WrongLength,
    /// The handshake is over, or waits for the stream and not for input.
    UnexpectedInput,
}

/// Where a handshake stands.
#[derive(Debug, Clone, Copy, PartialEq, Eq, Structural)]
pub enum Phase {
    /// Waiting for version and method count.
    Greeting,
    /// Waiting for the methods that the client offers.
    Methods { count: u8 },
    /// Waiting for the request's header.
    Request,
    /// Waiting for an IPv4 address and a port.
    Ipv4Target,
    /// Waiting for the length of a domain name.
    DomainLength,
    /// Waiting for a domain name and a port.
    DomainTarget { length: u8 },
    /// Waiting for the tunnel stream to be opened.
    Opening,
    /// Admitted: the connection is ready for the relay.
    Relaying,
    /// Ended without a stream.
    Closed,
}

/// How many bytes a handshake waits for.
pub open spec fn expected(phase: Phase) -> int {
    match phase {
        Phase::Greeting => 2,
        Phase::Methods { count } => count as int,
        Phase::Request => 4,
        Phase::Ipv4Target => 6,
        Phase::DomainLength => 1,
        Phase::DomainTarget { length } => length + 2,
        Phase::Opening => 0,
        Phase::Relaying => 0,
        Phase::Closed => 0,
    }
}

/// What a handshake asks of whoever owns the socket, as a mathematical
/// value.
pub enum Admission {
    Read,
    Write(Seq<u8>),
    Open { host: Seq<char>, port: u16 },
    Close { reply: Seq<u8>, error: Socks5Error },
}

/// What a handshake asks of whoever owns the socket.
#[derive(Debug)]
pub enum Socks5Action {
    /// Read as many bytes as the handshake now expects and hand them on.
    Read,
    /// Write these bytes, then read on as for `Read`.
    Write(Vec<u8>),
    /// Open a tunnel stream to the target, then report with `opened`.
    Open { host: String, port: u16 },
    /// Write the reply, if it is not empty, and close the connection.
    Close { reply: Vec<u8>, error: Socks5Error },
}

impl View for Socks5Action {
    type V = Admission;

    open spec fn view(&self) -> Admission {
        match *self {
            Socks5Action::Read => Admission::Read,
            Socks5Action::Write(bytes) => Admission::Write(bytes@),
            Socks5Action::Open { host, port } => Admission::Open { host: host@, port },
            Socks5Action::Close { reply, error } => Admission::Close { reply: reply@, error },
        }
    }
}

/// The dotted form of an IPv4 address.
pub open spec fn dotted(a: u8, b: u8, c: u8, d: u8) -> Seq<char> {
    decimal(a as nat) + "."@ + decimal(b as nat) + "."@ + decimal(c as nat) + "."@ + decimal(
        d as nat,
    )
}

/// The reply to a request: version, reply code, a reserved zero, the bound
/// address as an IPv4 address, and the bound port in big-endian order.
pub open spec fn reply_bytes(rep: u8, bind_addr: Seq<u8>, bind_port: u16) -> Seq<u8> {
    seq![SOCKS_VERSION, rep, 0x00u8, ATYP_IPV4] + bind_addr + be16(bind_port)
}

/// The reply that binds nothing: the relay holds the real binding.
pub open spec fn unbound_reply(rep: u8) -> Seq<u8> {
    reply_bytes(rep, seq![0u8, 0u8, 0u8, 0u8], 0)
}

/// The end of a handshake without a stream.
pub open spec fn refuse(reply: Seq<u8>, error: Socks5Error) -> (Phase, Admission) {
    (Phase::Closed, Admission::Close { reply, error })
}

/// What the request's header asks for.
pub open spec fn request_step(header: Seq<u8>) -> (Phase, Admission) {
    if header[0] != SOCKS_VERSION {
        refuse(Seq::empty(), Socks5Error::InvalidRequestVersion)
    } else if header[1] != CMD_CONNECT {
        refuse(unbound_reply(REP_CMD_NOT_SUPPORTED), Socks5Error::CommandNotSupported)
    } else if header[3] == ATYP_IPV4 {
        (Phase::Ipv4Target, Admission::Read)
    } else if header[3] == ATYP_DOMAIN {
        (Phase::DomainLength, Admission::Read)
    } else if header[3] == ATYP_IPV6 {
        refuse(unbound_reply(REP_ATYP_NOT_SUPPORTED), Socks5Error::Ipv6NotSupported)
    } else {
        refuse(unbound_reply(REP_ATYP_NOT_SUPPORTED), Socks5Error::UnknownAddressType(header[3]))
    }
}

/// One step of the handshake: where it stands after `input`, and what it
/// asks for.
pub open spec fn admit_step(phase: Phase, input: Seq<u8>) -> (Phase, Admission) {
    match phase {
        Phase::Opening => refuse(Seq::empty(), Socks5Error::UnexpectedInput),
        Phase::Relaying => refuse(Seq::empty(), Socks5Error::UnexpectedInput),
        Phase::Closed => refuse(Seq::empty(), Socks5Error::UnexpectedInput),
        _ => if input.len() != expected(phase) {
            refuse(Seq::empty(), Socks5Error::WrongLength)
        } else {
            match phase {
                Phase::Greeting => if input[0] != SOCKS_VERSION {
                    refuse(Seq::empty(), Socks5Error::InvalidVersion(input[0]))
                } else {
                    (Phase::Methods { count: input[1] }, Admission::Read)
                },
                Phase::Methods { .. } => if input.contains(AUTH_NO_AUTH) {
                    (Phase::Request, Admission::Write(seq![SOCKS_VERSION, AUTH_NO_AUTH]))
                } else {
                    refuse(seq![SOCKS_VERSION, AUTH_NONE_ACCEPTABLE], Socks5Error::NoSupportedAuth)
                },
                Phase::Request => request_step(input),
                Phase::Ipv4Target => (
                    Phase::Opening,
                    Admission::Open {
                        host: dotted(input[0], input[1], input[2], input[3]),
                        port: read_be16(input.subrange(4, 6)),
                    },
                ),
                Phase::DomainLength => (
                    Phase::DomainTarget { length: input[0] },
                    Admission::Read,
                ),
                Phase::DomainTarget { length } => if !valid_utf8(input.subrange(0, length as int)) {
                    refuse(Seq::empty(), Socks5Error::InvalidUtf8)
                } else {
                    (
                        Phase::Opening,
                        Admission::Open {
                            host: decode_utf8(input.subrange(0, length as int)),
                            port: read_be16(input.subrange(length as int, length + 2)),
                        },
                    )
                },
                _ => refuse(Seq::empty(), Socks5Error::UnexpectedInput),
            }
        },
    }
}

/// The dotted form of an IPv4 address.
pub fn ipv4_host(a: u8, b: u8, c: u8, d: u8) -> (host: String)
    ensures
        host@ == dotted(a, b, c, d),
{
    let mut host = decimal_string(a as u64);
    host.append(".");
    host.append(decimal_string(b as u64).as_str());
    host.append(".");
    host.append(decimal_string(c as u64).as_str());
    host.append(".");
    host.append(decimal_string(d as u64).as_str());
    host
}

/// The reply to a request.
pub fn send_reply(rep: u8, bind_addr: &[u8; 4], bind_port: u16) -> (reply: Vec<u8>)
    ensures
        reply@ == reply_bytes(rep, bind_addr@, bind_port),
{
    let mut reply: Vec<u8> = Vec::with_capacity(10);
    reply.push(SOCKS_VERSION);
    reply.push(rep);
    reply.push(0x00);
    reply.push(ATYP_IPV4);
    reply.push(bind_addr[0]);
    reply.push(bind_addr[1]);
    reply.push(bind_addr[2]);
    reply.push(bind_addr[3]);
    assert(reply@ =~= seq![SOCKS_VERSION, rep, 0x00u8, ATYP_IPV4] + bind_addr@);
    put_u16(&mut reply, bind_port);
    reply
}

/// The reply that binds nothing.
fn unbound(rep: u8) -> (reply: Vec<u8>)
    ensures
        reply@ == unbound_reply(rep),
{
    let zero: [u8; 4] = [0, 0, 0, 0];
    assert(zero@ =~= seq![0u8, 0u8, 0u8, 0u8]);
    send_reply(rep, &zero, 0)
}

/// Whether `methods` holds `wanted`.
fn offers(methods: &[u8], wanted: u8) -> (r: bool)
    ensures
        r == methods@.contains(wanted),
{
    let mut i: usize = 0;
    while i < methods.len()
        invariant
            i <= methods@.len(),
            forall|j: int| 0 <= j < i ==> methods@[j] != wanted,
        decreases methods@.len() - i,
    {
        if methods[i] == wanted {
            return true;
        }
        i += 1;
    }
    false
}

/// The end of a handshake without a stream.
fn refuse_with(reply: Vec<u8>, error: Socks5Error) -> (r: (Phase, Socks5Action))
    ensures
        (r.0, r.1@) == refuse(reply@, error),
{
    (Phase::Closed, Socks5Action::Close { reply, error })
}

/// What the request's header asks for.
fn request(header: &[u8]) -> (r: (Phase, Socks5Action))
    requires
        header@.len() == 4,
    ensures
        (r.0, r.1@) == request_step(header@),
{
    if header[0] != SOCKS_VERSION {
        return refuse_with(Vec::new(), Socks5Error::InvalidRequestVersion);
    }
    if header[1] != CMD_CONNECT {
        return refuse_with(unbound(REP_CMD_NOT_SUPPORTED), Socks5Error::CommandNotSupported);
    }
    let atyp = header[3];
    if atyp == ATYP_IPV4 {
        (Phase::Ipv4Target, Socks5Action::Read)
    } else if atyp == ATYP_DOMAIN {
        (Phase::DomainLength, Socks5Action::Read)
    } else if atyp == ATYP_IPV6 {
        refuse_with(unbound(REP_ATYP_NOT_SUPPORTED), Socks5Error::Ipv6NotSupported)
    } else {
        refuse_with(unbound(REP_ATYP_NOT_SUPPORTED), Socks5Error::UnknownAddressType(atyp))
    }
}

/// One step of the handshake of a connection that stands at `phase`, on the
/// bytes that were read: where it stands then, and what it asks for.
pub fn handle_socks5_connection(phase: Phase, input: &[u8]) -> (r: (Phase, Socks5Action))
    ensures
        (r.0, r.1@) == admit_step(phase, input@),
{
    match phase {
        Phase::Greeting => {
            if input.len() != 2 {
                return refuse_with(Vec::new(), Socks5Error::WrongLength);
            }
            if input[0] != SOCKS_VERSION {
                return refuse_with(Vec::new(), Socks5Error::InvalidVersion(input[0]));
            }
            (Phase::Methods { count: input[1] }, Socks5Action::Read)
        },
        Phase::Methods { count } => {
            if input.len() != count as usize {
                return refuse_with(Vec::new(), Socks5Error::WrongLength);
            }
            if !offers(input, AUTH_NO_AUTH) {
                let mut reply: Vec<u8> = Vec::new();
                reply.push(SOCKS_VERSION);
                reply.push(AUTH_NONE_ACCEPTABLE);
                assert(reply@ =~= seq![SOCKS_VERSION, AUTH_NONE_ACCEPTABLE]);
                return refuse_with(reply, Socks5Error::NoSupportedAuth);
            }
            let mut choice: Vec<u8> = Vec::new();
            choice.push(SOCKS_VERSION);
            choice.push(AUTH_NO_AUTH);
            assert(choice@ =~= seq![SOCKS_VERSION, AUTH_NO_AUTH]);
            (Phase::Request, Socks5Action::Write(choice))
        },
        Phase::Request => {
            if input.len() != 4 {
                return refuse_with(Vec::new(), Socks5Error::WrongLength);
            }
            request(input)
        },
        Phase::Ipv4Target => {
            if input.len() != 6 {
                return refuse_with(Vec::new(), Socks5Error::WrongLength);
            }
            let host = ipv4_host(input[0], input[1], input[2], input[3]);
            let port = get_u16(input, 4);
            (Phase::Opening, Socks5Action::Open { host, port })
        },
        Phase::DomainLength => {
            if input.len() != 1 {
                return refuse_with(Vec::new(), Socks5Error::WrongLength);
            }
            (Phase::DomainTarget { length: input[0] }, Socks5Action::Read)
        },
        Phase::DomainTarget { length } => {
            let length = length as usize;
            if input.len() != length + 2 {
                return refuse_with(Vec::new(), Socks5Error::WrongLength);
            }
            let port = get_u16(input, length);
            let domain = slice_to_vec(slice_subrange(input, 0, length));
            match string_from_utf8(domain) {
                Some(host) => (Phase::Opening, Socks5Action::Open { host, port }),
                None => refuse_with(Vec::new(), Socks5Error::InvalidUtf8),
            }
        },
        Phase::Opening => refuse_with(Vec::new(), Socks5Error::UnexpectedInput),
        Phase::Relaying => refuse_with(Vec::new(), Socks5Error::UnexpectedInput),
        Phase::Closed => refuse_with(Vec::new(), Socks5Error::UnexpectedInput),
    }
}

/// The handshake of one local connection.
#[derive(Debug)]
pub struct Socks5Server {
    phase: Phase,
}

impl View for Socks5Server {
    type V = Phase;

    closed spec fn view(&self) -> Phase {
        self.phase
    }
}

impl Socks5Server {
    /// A handshake that waits for the client's greeting.
    pub fn new() -> (s: Self)
        ensures
            s@ == Phase::Greeting,
    {
        Socks5Server { phase: Phase::Greeting }
    }

    /// Where the handshake stands.
    pub fn phase(&self) -> (p: Phase)
        ensures
            p == self@,
    {
        self.phase
    }

    /// How many bytes the handshake waits for.
    pub fn expects(&self) -> (n: usize)
        ensures
            n == expected(self@),
    {
        match self.phase {
            Phase::Greeting => 2,
            Phase::Methods { count } => count as usize,
            Phase::Request => 4,
            Phase::Ipv4Target => 6,
            Phase::DomainLength => 1,
            Phase::DomainTarget { length } => length as usize + 2,
            Phase::Opening => 0,
            Phase::Relaying => 0,
            Phase::Closed => 0,
        }
    }

    /// One step of the handshake on the bytes that were read.
    pub fn run(&mut self, input: &[u8]) -> (action: Socks5Action)
        ensures
            final(self)@ == admit_step(old(self)@, input@).0,
            action@ == admit_step(old(self)@, input@).1,
    {
        let (phase, action) = handle_socks5_connection(self.phase, input);
        self.phase = phase;
        action
    }

    /// The tunnel stream that the handshake asked for was opened, or could
    /// not be. Returns the reply to write: success, and the connection is
    /// ready for the relay; or host unreachable, and the handshake is over.
    /// A handshake that did not ask for a stream answers with a general
    /// failure and is over.
    pub fn opened(&mut self, ok: bool) -> (reply: Vec<u8>)
        ensures
            old(self)@ == Phase::Opening && ok ==> final(self)@ == Phase::Relaying && reply@
                == unbound_reply(REP_SUCCESS),
            old(self)@ == Phase::Opening && !ok ==> final(self)@ == Phase::Closed && reply@
                == unbound_reply(REP_HOST_UNREACHABLE),
            old(self)@ != Phase::Opening ==> final(self)@ == Phase::Closed && reply@
                == unbound_reply(REP_GENERAL_FAILURE),
    {
        match self.phase {
            Phase::Opening => {
                if ok {
                    self.phase = Phase::Relaying;
                    unbound(REP_SUCCESS)
                } else {
                    self.phase = Phase::Closed;
                    unbound(REP_HOST_UNREACHABLE)
                }
            },
            _ => {
                self.phase = Phase::Closed;
                unbound(REP_GENERAL_FAILURE)
            },
        }
    }
}

} // verus!
