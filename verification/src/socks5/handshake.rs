//! The server side of the SOCKS5 handshake: the greeting check, the
//! request header parser and the fixed replies.

use vstd::prelude::*;
use vstd::utf8::*;
use vstd::slice::slice_subrange;
use crate::wire::be_u16;
use crate::wire::read_i16_be;
use crate::text::utf8_str;
use crate::text::utf8_valid_up_to;
use crate::text::utf8_error_len;
use vstd::string::StringExecFns;
use crate::text::push_char;
use crate::text::push_decimal;
use crate::text::decimal;
use super::SOCKS5_ADDR_TYPE_IPV4;
use super::SOCKS5_ADDR_TYPE_DOMAIN_NAME;

verus! {

/// Why a handshake was refused.
#[derive(Clone, Copy, Debug, PartialEq, Eq, Structural)]
pub enum Socks5Error {
    /// The greeting is not a SOCKS5 greeting offering at most one method.
    InvalidHello,
    /// The request's command is not CONNECT.
    InvalidMethod,
    /// The request's address type is neither IPv4 nor a domain name.
    UnsupportedAddressType,
    /// The requested host name is not valid UTF-8: its first `valid_up_to`
    /// bytes are, and then comes an invalid sequence of `error_len` bytes
    /// (`None`: the name ends inside a sequence).
    InvalidHostName { valid_up_to: usize, error_len: Option<usize> },
}

/// How `std::str::Utf8Error` shows itself.
pub open spec fn utf8_error_text(valid_up_to: usize, error_len: Option<usize>) -> Seq<char> {
    match error_len {
        Some(n) => "invalid utf-8 sequence of "@ + decimal(n as nat) + " bytes from index "@ + decimal(
            valid_up_to as nat,
        ),
        None => "incomplete utf-8 byte sequence from index "@ + decimal(valid_up_to as nat),
    }
}

impl Socks5Error {
    pub fn to_string(&self) -> (s: String)
        ensures
            s@ == (match self {
                Socks5Error::InvalidHello => "not valid socks5 hello!"@,
                Socks5Error::InvalidMethod => "no valid method for socks5"@,
                Socks5Error::UnsupportedAddressType => "not support addr type "@,
                Socks5Error::InvalidHostName { valid_up_to, error_len } => utf8_error_text(
                    *valid_up_to,
                    *error_len,
                ),
            }),
    {
        match self {
            Socks5Error::InvalidHello => "not valid socks5 hello!".to_owned(),
            Socks5Error::InvalidMethod => "no valid method for socks5".to_owned(),
            Socks5Error::UnsupportedAddressType => "not support addr type ".to_owned(),
            Socks5Error::InvalidHostName { valid_up_to, error_len } => {
                let mut s = match error_len {
                    Some(n) => {
                        let mut s = "invalid utf-8 sequence of ".to_owned();
                        push_decimal(&mut s, *n as u64);
                        s.append(" bytes from index ");
                        s
                    },
                    None => "incomplete utf-8 byte sequence from index ".to_owned(),
                };
                push_decimal(&mut s, *valid_up_to as u64);
                s
            },
        }
    }
}

/// The target that a client asked the server to connect to.
#[derive(Clone, Debug)]
pub struct Socks5 {
    pub addr: String,
    pub port: i16,
    pub use_host: bool,
}

/// `.a.b.c.d`: each octet in decimal, each preceded by a dot.
pub open spec fn dotted(octets: Seq<u8>) -> Seq<char>
    decreases octets.len(),
{
    if octets.len() == 0 {
        Seq::empty()
    } else {
        dotted(octets.drop_last()).push('.') + decimal(octets.last() as nat)
    }
}

/// The greeting `VER | NMETHODS | ...` is accepted: at least three bytes,
/// version 5, and at most one method offered.
pub open spec fn valid_hello(hello: Seq<u8>) -> bool {
    &&& hello.len() >= 3
    &&& hello[0] == 5
    &&& hello[1] <= 1
}

/// Length of the host name in a domain-name header.
pub open spec fn host_len(data: Seq<u8>) -> int {
    data[1] as int
}

/// The host name bytes of a domain-name header.
pub open spec fn host_bytes(data: Seq<u8>) -> Seq<u8> {
    data.subrange(2, 2 + host_len(data))
}

/// The parser reads only bytes that the header holds: the address type, for
/// IPv4 the four octets and the port, for a domain name the length, the name
/// and, once the name is valid UTF-8, the port.
pub open spec fn header_readable(data: Seq<u8>) -> bool {
    &&& data.len() >= 1
    &&& data[0] == SOCKS5_ADDR_TYPE_IPV4 ==> data.len() >= 7
    &&& data[0] == SOCKS5_ADDR_TYPE_DOMAIN_NAME ==> {
        &&& data.len() >= 2
        &&& 2 + host_len(data) <= data.len()
        &&& valid_utf8(host_bytes(data)) ==> 4 + host_len(data) <= data.len()
    }
}

/// What parsing a readable header `data` into `before` gives.
pub open spec fn parsed_header(before: Socks5, data: Seq<u8>, after: Socks5, res: Result<(), Socks5Error>) -> bool {
    if data[0] == SOCKS5_ADDR_TYPE_IPV4 {
        &&& res is Ok
        &&& after.addr@ == dotted(data.subrange(1, 5))
        &&& after.port == be_u16(data[5], data[6]) as i16
        &&& after.use_host == before.use_host
    } else if data[0] == SOCKS5_ADDR_TYPE_DOMAIN_NAME {
        if valid_utf8(host_bytes(data)) {
            &&& res is Ok
            &&& after.addr@ == decode_utf8(host_bytes(data))
            &&& after.port == be_u16(data[2 + host_len(data)], data[3 + host_len(data)]) as i16
            &&& after.use_host
        } else {
            &&& res matches Err(Socks5Error::InvalidHostName { valid_up_to, error_len }) && utf8_valid_up_to(
                host_bytes(data),
                valid_up_to as int,
            ) && error_len == utf8_error_len(host_bytes(data))
            &&& after == before
        }
    } else {
        &&& res == Err::<(), Socks5Error>(Socks5Error::UnsupportedAddressType)
        &&& after == before
    }
}

/// What handling a request whose header is `data` gives: the parsed
/// target, or why it was refused.
pub open spec fn parsed_request(data: Seq<u8>, res: Result<Socks5, Socks5Error>) -> bool {
    if data[0] == SOCKS5_ADDR_TYPE_IPV4 {
        &&& res matches Ok(s) && s.addr@ == dotted(data.subrange(1, 5)) && s.port == be_u16(
            data[5],
            data[6],
        ) as i16 && !s.use_host
    } else if data[0] == SOCKS5_ADDR_TYPE_DOMAIN_NAME {
        if valid_utf8(host_bytes(data)) {
            &&& res matches Ok(s) && s.addr@ == decode_utf8(host_bytes(data)) && s.port == be_u16(
                data[2 + host_len(data)],
                data[3 + host_len(data)],
            ) as i16 && s.use_host
        } else {
            res matches Err(Socks5Error::InvalidHostName { valid_up_to, error_len }) && utf8_valid_up_to(
                host_bytes(data),
                valid_up_to as int,
            ) && error_len == utf8_error_len(host_bytes(data))
        }
    } else {
        res == Err::<Socks5, Socks5Error>(Socks5Error::UnsupportedAddressType)
    }
}

proof fn lemma_port_word(hi: u8, lo: u8)
    ensures
        (be_u16(hi, lo) as i16) as int == (if (hi as int * 256 + lo as int) < 32768 {
            hi as int * 256 + lo as int
        } else {
            hi as int * 256 + lo as int - 65536
        }),
{
    let w: u16 = be_u16(hi, lo);
    assert(w as int == hi as int * 256 + lo as int);
    assert((w as i16) as int == (if (w) < 32768 { w as int } else { w as int - 65536 })) by (bit_vector);
}

/// What a readable request header gives, in terms of its bytes: for IPv4
/// (type byte 1) the dotted octets and the port, for a domain name (type
/// byte 3, then the name's length) the UTF-8 name and the port; the port is
/// always the big-endian word of the two bytes after the address, taken as
/// a signed 16-bit number. Any other type byte is refused, and so is a name
/// that is not UTF-8.
pub proof fn lemma_request_target(data: Seq<u8>, res: Result<Socks5, Socks5Error>)
    requires
        header_readable(data),
        parsed_request(data, res),
    ensures
        data[0] == 1 ==> (res matches Ok(s) && !s.use_host && s.addr@ == seq!['.'] + decimal(
            data[1] as nat,
        ) + seq!['.'] + decimal(data[2] as nat) + seq!['.'] + decimal(data[3] as nat) + seq!['.']
            + decimal(data[4] as nat) && s.port as int == (if (data[5] as int * 256 + data[6] as int) < 32768 {
            data[5] as int * 256 + data[6] as int
        } else {
            data[5] as int * 256 + data[6] as int - 65536
        })),
        data[0] == 3 && valid_utf8(data.subrange(2, 2 + data[1] as int)) ==> (res matches Ok(s)
            && s.use_host && s.addr@ == decode_utf8(data.subrange(2, 2 + data[1] as int))
            && s.port as int == (if (data[2 + data[1] as int] as int * 256 + data[3 + data[1] as int] as int) < 32768 {
            data[2 + data[1] as int] as int * 256 + data[3 + data[1] as int] as int
        } else {
            data[2 + data[1] as int] as int * 256 + data[3 + data[1] as int] as int - 65536
        })),
        data[0] == 3 && !valid_utf8(data.subrange(2, 2 + data[1] as int)) ==> (res matches Err(
            Socks5Error::InvalidHostName { .. },
        )),
        data[0] != 1 && data[0] != 3 ==> res == Err::<Socks5, Socks5Error>(
            Socks5Error::UnsupportedAddressType,
        ),
{
    if data[0] == 1 {
        lemma_port_word(data[5], data[6]);
        lemma_dotted_four(data.subrange(1, 5));
    } else if data[0] == 3 && valid_utf8(host_bytes(data)) {
        lemma_port_word(data[2 + host_len(data)], data[3 + host_len(data)]);
    }
}

/// Parsing a readable header into a target changes it as the header's bytes
/// say (see `lemma_request_target`) and leaves it unchanged when the header
/// is refused.
pub proof fn lemma_header_target(before: Socks5, data: Seq<u8>, after: Socks5, res: Result<(), Socks5Error>)
    requires
        header_readable(data),
        parsed_header(before, data, after, res),
    ensures
        data[0] == 1 ==> (res is Ok && after.use_host == before.use_host && after.addr@ == seq!['.']
            + decimal(data[1] as nat) + seq!['.'] + decimal(data[2] as nat) + seq!['.'] + decimal(
            data[3] as nat,
        ) + seq!['.'] + decimal(data[4] as nat) && after.port as int == (if (data[5] as int * 256
            + data[6] as int) < 32768 {
            data[5] as int * 256 + data[6] as int
        } else {
            data[5] as int * 256 + data[6] as int - 65536
        })),
        data[0] == 3 && valid_utf8(data.subrange(2, 2 + data[1] as int)) ==> (res is Ok
            && after.use_host && after.addr@ == decode_utf8(data.subrange(2, 2 + data[1] as int))
            && after.port as int == (if (data[2 + data[1] as int] as int * 256 + data[3
            + data[1] as int] as int) < 32768 {
            data[2 + data[1] as int] as int * 256 + data[3 + data[1] as int] as int
        } else {
            data[2 + data[1] as int] as int * 256 + data[3 + data[1] as int] as int - 65536
        })),
        res is Err ==> after == before,
        data[0] != 1 && data[0] != 3 ==> res is Err,
{
    if data[0] == 1 {
        lemma_port_word(data[5], data[6]);
        lemma_dotted_four(data.subrange(1, 5));
    } else if data[0] == 3 && valid_utf8(host_bytes(data)) {
        lemma_port_word(data[2 + host_len(data)], data[3 + host_len(data)]);
    }
}

proof fn lemma_dotted_four(o: Seq<u8>)
    requires
        o.len() == 4,
    ensures
        dotted(o) == seq!['.'] + decimal(o[0] as nat) + seq!['.'] + decimal(o[1] as nat) + seq!['.']
            + decimal(o[2] as nat) + seq!['.'] + decimal(o[3] as nat),
{
    let o3 = o.drop_last();
    let o2 = o3.drop_last();
    let o1 = o2.drop_last();
    assert(o1.drop_last() =~= Seq::<u8>::empty());
    assert(o1.last() == o[0]);
    assert(o2.last() == o[1]);
    assert(o3.last() == o[2]);
    assert(dotted(Seq::<u8>::empty()) == Seq::<char>::empty());
    assert(dotted(o1) == dotted(o1.drop_last()).push('.') + decimal(o1.last() as nat));
    assert(dotted(o1) =~= seq!['.'] + decimal(o[0] as nat));
    assert(dotted(o2) =~= seq!['.'] + decimal(o[0] as nat) + seq!['.'] + decimal(o[1] as nat));
    assert(dotted(o3) =~= seq!['.'] + decimal(o[0] as nat) + seq!['.'] + decimal(o[1] as nat)
        + seq!['.'] + decimal(o[2] as nat));
    assert(dotted(o) =~= seq!['.'] + decimal(o[0] as nat) + seq!['.'] + decimal(o[1] as nat)
        + seq!['.'] + decimal(o[2] as nat) + seq!['.'] + decimal(o[3] as nat));
}

/// The reply to an accepted greeting: version 5, no authentication.
pub fn hello_reply() -> (r: Vec<u8>)
    ensures
        r@ == seq![5u8, 0u8],
{
    let r = vec![5u8, 0u8];
    assert(r@ =~= seq![5u8, 0u8]);
    r
}

/// The reply to an accepted request: version 5, succeeded, an IPv4 bound
/// address 0.0.0.0 and bound port 0x1010.
pub fn request_reply() -> (r: Vec<u8>)
    ensures
        r@ == seq![5u8, 0u8, 0u8, 1u8, 0u8, 0u8, 0u8, 0u8, 0x10u8, 0x10u8],
{
    let r = vec![5u8, 0u8, 0u8, 1u8, 0u8, 0u8, 0u8, 0u8, 0x10u8, 0x10u8];
    assert(r@ =~= seq![5u8, 0u8, 0u8, 1u8, 0u8, 0u8, 0u8, 0u8, 0x10u8, 0x10u8]);
    r
}

impl Socks5 {
    /// Checks the client's greeting (the bytes of its first message).
    pub fn check_hello(hello: &[u8]) -> (res: Result<(), Socks5Error>)
        ensures
            res is Ok <==> valid_hello(hello@),
            res is Err ==> res == Err::<(), Socks5Error>(Socks5Error::InvalidHello),
    {
        if hello.len() < 3 || hello[0] != 5 || hello[1] > 1 {
            Err(Socks5Error::InvalidHello)
        } else {
            Ok(())
        }
    }

    /// Whether `parse_header` can read `data` without reading past its end.
    pub fn header_is_readable(data: &[u8]) -> (r: bool)
        ensures
            r == header_readable(data@),
    {
        if data.len() < 1 {
            return false;
        }
        if data[0] == SOCKS5_ADDR_TYPE_IPV4 {
            data.len() >= 7
        } else if data[0] == SOCKS5_ADDR_TYPE_DOMAIN_NAME {
            if data.len() < 2 {
                return false;
            }
            let len = data[1] as usize;
            if len + 2 > data.len() {
                return false;
            }
            match utf8_str(slice_subrange(data, 2, len + 2)) {
                Ok(_) => len + 4 <= data.len(),
                Err(_) => true,
            }
        } else {
            true
        }
    }

    /// Reads the address of a request header (`ATYP | DST.ADDR | DST.PORT`)
    /// into `self`.
    pub fn parse_header(&mut self, data: &[u8]) -> (res: Result<(), Socks5Error>)
        requires
            header_readable(data@),
        ensures
            parsed_header(*old(self), data@, *final(self), res),
    {
        if data[0] == SOCKS5_ADDR_TYPE_IPV4 {
            let mut host = String::new();
            let mut i: usize = 1;
            while i < 5
                invariant
                    1 <= i <= 5,
                    data@.len() >= 7,
                    host@ == dotted(data@.subrange(1, i as int)),
                decreases 5 - i,
            {
                push_char(&mut host, '.');
                push_decimal(&mut host, data[i] as u64);
                assert(data@.subrange(1, i + 1).drop_last() =~= data@.subrange(1, i as int));
                i = i + 1;
            }
            let port = read_i16_be(slice_subrange(data, 5, 7));
            self.addr = host;
            self.port = port;
            Ok(())
        } else if data[0] == SOCKS5_ADDR_TYPE_DOMAIN_NAME {
            let len = data[1] as usize;
            match utf8_str(slice_subrange(data, 2, len + 2)) {
                Ok(host) => {
                    let port = read_i16_be(slice_subrange(data, len + 2, len + 4));
                    self.addr = host.to_owned();
                    self.port = port;
                    self.use_host = true;
                    Ok(())
                },
                Err((valid_up_to, error_len)) => Err(
                    Socks5Error::InvalidHostName { valid_up_to, error_len },
                ),
            }
        } else {
            Err(Socks5Error::UnsupportedAddressType)
        }
    }

    /// Handles the client's request: `buf` holds the last message read, of
    /// which the first `n` bytes were received (`VER | CMD | RSV | header`).
    /// Only CONNECT is served.
    pub fn from_request(buf: &[u8], n: usize) -> (res: Result<Socks5, Socks5Error>)
        requires
            n <= buf@.len(),
            buf@.len() >= 2,
            buf@[1] == 1 ==> 3 <= n && header_readable(buf@.subrange(3, n as int)),
        ensures
            buf@[1] != 1 ==> res == Err::<Socks5, Socks5Error>(Socks5Error::InvalidMethod),
            buf@[1] == 1 ==> parsed_request(buf@.subrange(3, n as int), res),
    {
        let method = buf[1];
        if method != 1 {
            return Err(Socks5Error::InvalidMethod);
        }
        let data = slice_subrange(buf, 3, n);
        let mut handle = Socks5 { addr: String::new(), port: 0, use_host: false };
        match handle.parse_header(data) {
            Ok(()) => Ok(handle),
            Err(e) => Err(e),
        }
    }
}

} // verus!
