//! SOCKS5: protocol constants, reply codes, errors, the server side of the
//! handshake and the address codec.

use vstd::prelude::*;
use crate::text::decimal;
use crate::text::push_char;
use crate::text::push_decimal;

pub mod address;
pub mod handshake;
pub mod text_address;


verus! {

pub const SOCKS5_VERSION: u8 = 0x05;

pub const SOCKS5_AUTH_METHOD_NONE: u8 = 0x00;
pub const SOCKS5_AUTH_METHOD_GSSAPI: u8 = 0x01;
pub const SOCKS5_AUTH_METHOD_PASSWORD: u8 = 0x02;
pub const SOCKS5_AUTH_METHOD_NOT_ACCEPTABLE: u8 = 0xff;

pub const SOCKS5_CMD_TCP_CONNECT: u8 = 0x01;
pub const SOCKS5_CMD_TCP_BIND: u8 = 0x02;
pub const SOCKS5_CMD_UDP_ASSOCIATE: u8 = 0x03;

pub const SOCKS5_ADDR_TYPE_IPV4: u8 = 0x01;
pub const SOCKS5_ADDR_TYPE_DOMAIN_NAME: u8 = 0x03;
pub const SOCKS5_ADDR_TYPE_IPV6: u8 = 0x04;

pub const SOCKS5_REPLY_SUCCEEDED: u8 = 0x00;
pub const SOCKS5_REPLY_GENERAL_FAILURE: u8 = 0x01;
pub const SOCKS5_REPLY_CONNECTION_NOT_ALLOWED: u8 = 0x02;
pub const SOCKS5_REPLY_NETWORK_UNREACHABLE: u8 = 0x03;
pub const SOCKS5_REPLY_HOST_UNREACHABLE: u8 = 0x04;
pub const SOCKS5_REPLY_CONNECTION_REFUSED: u8 = 0x05;
pub const SOCKS5_REPLY_TTL_EXPIRED: u8 = 0x06;
pub const SOCKS5_REPLY_COMMAND_NOT_SUPPORTED: u8 = 0x07;
pub const SOCKS5_REPLY_ADDRESS_TYPE_NOT_SUPPORTED: u8 = 0x08;

/// SOCKS5 reply code.
#[derive(Clone, Copy, Debug, PartialEq, Eq, Structural)]
pub enum Reply {
    Succeeded,
    GeneralFailure,
    ConnectionNotAllowed,
    NetworkUnreachable,
    HostUnreachable,
    ConnectionRefused,
    TtlExpired,
    CommandNotSupported,
    AddressTypeNotSupported,
    OtherReply(u8),
}

impl Reply {
    /// The wire code of a reply.
    pub open spec fn spec_code(self) -> u8 {
        match self {
            Reply::Succeeded => SOCKS5_REPLY_SUCCEEDED,
            Reply::GeneralFailure => SOCKS5_REPLY_GENERAL_FAILURE,
            Reply::ConnectionNotAllowed => SOCKS5_REPLY_CONNECTION_NOT_ALLOWED,
            Reply::NetworkUnreachable => SOCKS5_REPLY_NETWORK_UNREACHABLE,
            Reply::HostUnreachable => SOCKS5_REPLY_HOST_UNREACHABLE,
            Reply::ConnectionRefused => SOCKS5_REPLY_CONNECTION_REFUSED,
            Reply::TtlExpired => SOCKS5_REPLY_TTL_EXPIRED,
            Reply::CommandNotSupported => SOCKS5_REPLY_COMMAND_NOT_SUPPORTED,
            Reply::AddressTypeNotSupported => SOCKS5_REPLY_ADDRESS_TYPE_NOT_SUPPORTED,
            Reply::OtherReply(c) => c,
        }
    }

    /// The reply that a wire code stands for: a named reply for the codes
    /// 0 to 8, `OtherReply` for every other code.
    pub open spec fn spec_from_code(code: u8) -> Reply {
        if code == SOCKS5_REPLY_SUCCEEDED {
            Reply::Succeeded
        } else if code == SOCKS5_REPLY_GENERAL_FAILURE {
            Reply::GeneralFailure
        } else if code == SOCKS5_REPLY_CONNECTION_NOT_ALLOWED {
            Reply::ConnectionNotAllowed
        } else if code == SOCKS5_REPLY_NETWORK_UNREACHABLE {
            Reply::NetworkUnreachable
        } else if code == SOCKS5_REPLY_HOST_UNREACHABLE {
            Reply::HostUnreachable
        } else if code == SOCKS5_REPLY_CONNECTION_REFUSED {
            Reply::ConnectionRefused
        } else if code == SOCKS5_REPLY_TTL_EXPIRED {
            Reply::TtlExpired
        } else if code == SOCKS5_REPLY_COMMAND_NOT_SUPPORTED {
            Reply::CommandNotSupported
        } else if code == SOCKS5_REPLY_ADDRESS_TYPE_NOT_SUPPORTED {
            Reply::AddressTypeNotSupported
        } else {
            Reply::OtherReply(code)
        }
    }

    /// A reply is canonical unless it is an `OtherReply` carrying one of the
    /// codes that have a name of their own.
    pub open spec fn is_canonical(self) -> bool {
        self matches Reply::OtherReply(c) ==> c > SOCKS5_REPLY_ADDRESS_TYPE_NOT_SUPPORTED
    }

    pub fn as_u8(self) -> (code: u8)
        ensures
            code == self.spec_code(),
    {
        match self {
            Reply::Succeeded => SOCKS5_REPLY_SUCCEEDED,
            Reply::GeneralFailure => SOCKS5_REPLY_GENERAL_FAILURE,
            Reply::ConnectionNotAllowed => SOCKS5_REPLY_CONNECTION_NOT_ALLOWED,
            Reply::NetworkUnreachable => SOCKS5_REPLY_NETWORK_UNREACHABLE,
            Reply::HostUnreachable => SOCKS5_REPLY_HOST_UNREACHABLE,
            Reply::ConnectionRefused => SOCKS5_REPLY_CONNECTION_REFUSED,
            Reply::TtlExpired => SOCKS5_REPLY_TTL_EXPIRED,
            Reply::CommandNotSupported => SOCKS5_REPLY_COMMAND_NOT_SUPPORTED,
            Reply::AddressTypeNotSupported => SOCKS5_REPLY_ADDRESS_TYPE_NOT_SUPPORTED,
            Reply::OtherReply(c) => c,
        }
    }

    pub fn from_u8(code: u8) -> (r: Reply)
        ensures
            r == Reply::spec_from_code(code),
    {
        match code {
            SOCKS5_REPLY_SUCCEEDED => Reply::Succeeded,
            SOCKS5_REPLY_GENERAL_FAILURE => Reply::GeneralFailure,
            SOCKS5_REPLY_CONNECTION_NOT_ALLOWED => Reply::ConnectionNotAllowed,
            SOCKS5_REPLY_NETWORK_UNREACHABLE => Reply::NetworkUnreachable,
            SOCKS5_REPLY_HOST_UNREACHABLE => Reply::HostUnreachable,
            SOCKS5_REPLY_CONNECTION_REFUSED => Reply::ConnectionRefused,
            SOCKS5_REPLY_TTL_EXPIRED => Reply::TtlExpired,
            SOCKS5_REPLY_COMMAND_NOT_SUPPORTED => Reply::CommandNotSupported,
            SOCKS5_REPLY_ADDRESS_TYPE_NOT_SUPPORTED => Reply::AddressTypeNotSupported,
            _ => Reply::OtherReply(code),
        }
    }
}

/// How a reply is shown to people.
pub open spec fn reply_text(r: Reply) -> Seq<char> {
    match r {
        Reply::Succeeded => "Succeeded"@,
        Reply::AddressTypeNotSupported => "Address type not supported"@,
        Reply::CommandNotSupported => "Command not supported"@,
        Reply::ConnectionNotAllowed => "Connection not allowed"@,
        Reply::ConnectionRefused => "Connection refused"@,
        Reply::GeneralFailure => "General failure"@,
        Reply::HostUnreachable => "Host unreachable"@,
        Reply::NetworkUnreachable => "Network unreachable"@,
        Reply::OtherReply(u) => "Other reply ("@ + decimal(u as nat).push(')'),
        Reply::TtlExpired => "TTL expired"@,
    }
}

impl Reply {
    /// The reply as text, e.g. `Connection refused` or `Other reply (9)`.
    pub fn to_string(&self) -> (s: String)
        ensures
            s@ == reply_text(*self),
    {
        match self {
            Reply::Succeeded => "Succeeded".to_owned(),
            Reply::AddressTypeNotSupported => "Address type not supported".to_owned(),
            Reply::CommandNotSupported => "Command not supported".to_owned(),
            Reply::ConnectionNotAllowed => "Connection not allowed".to_owned(),
            Reply::ConnectionRefused => "Connection refused".to_owned(),
            Reply::GeneralFailure => "General failure".to_owned(),
            Reply::HostUnreachable => "Host unreachable".to_owned(),
            Reply::NetworkUnreachable => "Network unreachable".to_owned(),
            Reply::OtherReply(u) => {
                let mut s = "Other reply (".to_owned();
                push_decimal(&mut s, *u as u64);
                push_char(&mut s, ')');
                assert(s@ =~= "Other reply ("@ + decimal(*u as nat).push(')'));
                s
            },
            Reply::TtlExpired => "TTL expired".to_owned(),
        }
    }
}

/// Reading a wire code back as a reply and writing it out again gives the
/// same code, for every code.
pub proof fn lemma_reply_code_roundtrip(code: u8)
    ensures
        Reply::spec_from_code(code).spec_code() == code,
        Reply::spec_from_code(code).is_canonical(),
{
}

/// Writing a canonical reply as its wire code and reading the code back
/// gives the same reply.
pub proof fn lemma_reply_roundtrip(r: Reply)
    requires
        r.is_canonical(),
    ensures
        Reply::spec_from_code(r.spec_code()) == r,
{
}

/// Each named reply has its RFC 1928 code, and every other code reads back
/// as an `OtherReply` carrying it.
pub proof fn lemma_reply_code_table()
    ensures
        Reply::Succeeded.spec_code() == 0,
        Reply::GeneralFailure.spec_code() == 1,
        Reply::ConnectionNotAllowed.spec_code() == 2,
        Reply::NetworkUnreachable.spec_code() == 3,
        Reply::HostUnreachable.spec_code() == 4,
        Reply::ConnectionRefused.spec_code() == 5,
        Reply::TtlExpired.spec_code() == 6,
        Reply::CommandNotSupported.spec_code() == 7,
        Reply::AddressTypeNotSupported.spec_code() == 8,
        forall|c: u8| #[trigger] Reply::OtherReply(c).spec_code() == c,
        Reply::spec_from_code(0) == Reply::Succeeded,
        Reply::spec_from_code(1) == Reply::GeneralFailure,
        Reply::spec_from_code(2) == Reply::ConnectionNotAllowed,
        Reply::spec_from_code(3) == Reply::NetworkUnreachable,
        Reply::spec_from_code(4) == Reply::HostUnreachable,
        Reply::spec_from_code(5) == Reply::ConnectionRefused,
        Reply::spec_from_code(6) == Reply::TtlExpired,
        Reply::spec_from_code(7) == Reply::CommandNotSupported,
        Reply::spec_from_code(8) == Reply::AddressTypeNotSupported,
        forall|c: u8| c > 8 ==> #[trigger] Reply::spec_from_code(c) == Reply::OtherReply(c),
{
}

/// SOCKS5 protocol error: a reply code with a message.
#[derive(Clone, Debug)]
pub struct Error {
    pub reply: Reply,
    pub message: String,
}

impl Error {
    pub fn new(reply: Reply, message: &str) -> (e: Error)
        ensures
            e.reply == reply,
            e.message@ == message@,
    {
        Error { reply, message: message.to_owned() }
    }

    /// The error as text: its message.
    pub fn to_string(&self) -> (s: String)
        ensures
            s@ == self.message@,
    {
        self.message.clone()
    }
}

} // verus!
