//! SOCKS5 addresses: the wire format `ATYP | address | port`, its decoder and
//! its encoder, and the laws that tie them together.

use vstd::prelude::*;
use vstd::utf8::*;
use vstd::slice::slice_subrange;
use bytes::BytesMut;
use crate::wire::bytes_mut_contents;
use crate::wire::max_buffer_len;
use crate::wire::be_bytes;
use crate::wire::be_u16;
use crate::wire::put_u8;
use crate::wire::put_u16;
use crate::wire::put_slice;
use crate::wire::empty_buffer;
use crate::text::utf8_str;
pub use crate::net::SocketAddress;
use super::Reply;
use super::Error;
use super::SOCKS5_ADDR_TYPE_IPV4;
use super::SOCKS5_ADDR_TYPE_IPV6;
use super::SOCKS5_ADDR_TYPE_DOMAIN_NAME;

verus! {

/// Address of a SOCKS5 request target.
#[derive(Clone, Debug, PartialEq, Eq, Hash)]
pub enum Address {
    /// Socket address (IP Address)
    SocketAddress(SocketAddress),
    /// Domain name address
    DomainNameAddress(String, u16),
}

/// Mathematical model of an `Address`.
pub enum AddressModel {
    Socket(SocketAddress),
    Domain(Seq<char>, u16),
}

impl View for Address {
    type V = AddressModel;

    open spec fn view(&self) -> AddressModel {
        match self {
            Address::SocketAddress(s) => AddressModel::Socket(*s),
            Address::DomainNameAddress(name, port) => AddressModel::Domain(name@, *port),
        }
    }
}

/// Big-endian bytes of a sequence of 16-bit words.
pub open spec fn words_bytes(ws: Seq<u16>) -> Seq<u8> {
    Seq::new(
        2 * ws.len(),
        |i: int|
            if i % 2 == 0 {
                (ws[i / 2] / 256) as u8
            } else {
                (ws[i / 2] % 256) as u8
            },
    )
}

impl SocketAddress {
    pub open spec fn spec_encode(self) -> Seq<u8> {
        match self {
            SocketAddress::V4 { ip, port } => seq![SOCKS5_ADDR_TYPE_IPV4] + ip@ + be_bytes(port),
            SocketAddress::V6 { segments, port, .. } => seq![SOCKS5_ADDR_TYPE_IPV6]
                + words_bytes(segments@) + be_bytes(port),
        }
    }
}

impl AddressModel {
    /// The address can be written: a domain name takes at most 255 bytes.
    pub open spec fn encodable(self) -> bool {
        self matches AddressModel::Domain(name, _) ==> encode_utf8(name).len() <= 255
    }

    /// The wire format carries no IPv6 flow label or scope: only addresses
    /// without them come back unchanged from a write and a read.
    pub open spec fn canonical(self) -> bool {
        self matches AddressModel::Socket(SocketAddress::V6 { flowinfo, scope_id, .. }) ==> flowinfo
            == 0 && scope_id == 0
    }

    /// The bytes that the address is written as.
    pub open spec fn spec_encode(self) -> Seq<u8> {
        match self {
            AddressModel::Socket(s) => s.spec_encode(),
            AddressModel::Domain(name, port) => seq![
                SOCKS5_ADDR_TYPE_DOMAIN_NAME,
                encode_utf8(name).len() as u8,
            ] + encode_utf8(name) + be_bytes(port),
        }
    }
}

/// How far the bytes read so far go towards an address.
pub enum DecodeStatus {
    /// At least this many bytes in all are needed.
    Incomplete(nat),
    /// An address is encoded in this many leading bytes.
    Complete(nat),
    /// The address type byte is none of IPv4, IPv6, domain name.
    Unsupported,
    /// The domain name is not valid UTF-8.
    InvalidName,
}

pub open spec fn decode_status(b: Seq<u8>) -> DecodeStatus {
    if b.len() == 0 {
        DecodeStatus::Incomplete(1)
    } else if b[0] == SOCKS5_ADDR_TYPE_IPV4 {
        if b.len() < 7 {
            DecodeStatus::Incomplete(7)
        } else {
            DecodeStatus::Complete(7)
        }
    } else if b[0] == SOCKS5_ADDR_TYPE_IPV6 {
        if b.len() < 19 {
            DecodeStatus::Incomplete(19)
        } else {
            DecodeStatus::Complete(19)
        }
    } else if b[0] == SOCKS5_ADDR_TYPE_DOMAIN_NAME {
        if b.len() < 2 {
            DecodeStatus::Incomplete(2)
        } else if b.len() < b[1] + 4 {
            DecodeStatus::Incomplete((b[1] + 4) as nat)
        } else if valid_utf8(b.subrange(2, 2 + b[1])) {
            DecodeStatus::Complete((b[1] + 4) as nat)
        } else {
            DecodeStatus::InvalidName
        }
    } else {
        DecodeStatus::Unsupported
    }
}

/// `m` is the address that the leading bytes of `b` encode.
pub open spec fn decoded_as(b: Seq<u8>, m: AddressModel) -> bool {
    match m {
        AddressModel::Socket(SocketAddress::V4 { ip, port }) => {
            &&& b.len() >= 7
            &&& b[0] == SOCKS5_ADDR_TYPE_IPV4
            &&& ip@ == b.subrange(1, 5)
            &&& port == be_u16(b[5], b[6])
        },
        AddressModel::Socket(SocketAddress::V6 { segments, port, flowinfo, scope_id }) => {
            &&& b.len() >= 19
            &&& b[0] == SOCKS5_ADDR_TYPE_IPV6
            &&& words_bytes(segments@) == b.subrange(1, 17)
            &&& port == be_u16(b[17], b[18])
            &&& flowinfo == 0
            &&& scope_id == 0
        },
        AddressModel::Domain(name, port) => {
            &&& b.len() >= 2
            &&& b[0] == SOCKS5_ADDR_TYPE_DOMAIN_NAME
            &&& b.len() >= b[1] + 4
            &&& valid_utf8(b.subrange(2, 2 + b[1]))
            &&& name == decode_utf8(b.subrange(2, 2 + b[1]))
            &&& port == be_u16(b[2 + b[1]], b[3 + b[1]])
        },
    }
}

/// Outcome of decoding an address from the bytes read so far.
#[derive(Debug)]
pub enum AddressParse {
    /// The address and the number of bytes it took.
    Complete(Address, usize),
    /// More bytes are needed: at least this many in all.
    Incomplete(usize),
    /// The bytes cannot start an address.
    Rejected(Error),
}

pub proof fn lemma_be_u16_bytes(hi: u8, lo: u8)
    ensures
        be_u16(hi, lo) / 256 == hi,
        be_u16(hi, lo) % 256 == lo,
        be_bytes(be_u16(hi, lo)) == seq![hi, lo],
{
    assert(be_bytes(be_u16(hi, lo)) =~= seq![hi, lo]);
}

pub proof fn lemma_bytes_be_u16(w: u16)
    ensures
        be_u16(be_bytes(w)[0], be_bytes(w)[1]) == w,
{
}

/// The big-endian word stored at `buf[i]`, `buf[i + 1]`.
fn word_at(buf: &[u8], i: usize) -> (w: u16)
    requires
        i + 1 < buf@.len(),
    ensures
        w == be_u16(buf@[i as int], buf@[i + 1]),
{
    (buf[i] as u16) * 256 + (buf[i + 1] as u16)
}

impl Address {
    /// Decodes an address from the bytes received so far.
    ///
    /// A reader starts with no bytes and, as long as the outcome is
    /// `Incomplete(n)`, reads until it holds `n` bytes and decodes again.
    pub fn decode(buf: &[u8]) -> (res: AddressParse)
        ensures
            match res {
                AddressParse::Complete(a, n) => {
                    &&& decode_status(buf@) == DecodeStatus::Complete(n as nat)
                    &&& decoded_as(buf@, a@)
                },
                AddressParse::Incomplete(n) => decode_status(buf@) == DecodeStatus::Incomplete(
                    n as nat,
                ),
                AddressParse::Rejected(e) => {
                    ||| {
                        &&& decode_status(buf@) == DecodeStatus::Unsupported
                        &&& e.reply == Reply::AddressTypeNotSupported
                        &&& e.message@ == "Not supported address type"@
                    }
                    ||| {
                        &&& decode_status(buf@) == DecodeStatus::InvalidName
                        &&& e.reply == Reply::GeneralFailure
                        &&& e.message@ == "Invalid address encoding"@
                    }
                },
            },
    {
        if buf.len() == 0 {
            return AddressParse::Incomplete(1);
        }
        let addr_type = buf[0];
        if addr_type == SOCKS5_ADDR_TYPE_IPV4 {
            if buf.len() < 7 {
                return AddressParse::Incomplete(7);
            }
            let ip: [u8; 4] = [buf[1], buf[2], buf[3], buf[4]];
            let port = word_at(buf, 5);
            assert(ip@ =~= buf@.subrange(1, 5));
            AddressParse::Complete(Address::SocketAddress(SocketAddress::V4 { ip, port }), 7)
        } else if addr_type == SOCKS5_ADDR_TYPE_IPV6 {
            if buf.len() < 19 {
                return AddressParse::Incomplete(19);
            }
            let segments: [u16; 8] = [
                word_at(buf, 1),
                word_at(buf, 3),
                word_at(buf, 5),
                word_at(buf, 7),
                word_at(buf, 9),
                word_at(buf, 11),
                word_at(buf, 13),
                word_at(buf, 15),
            ];
            let port = word_at(buf, 17);
            proof {
                assert forall|k: int| 0 <= k < 8 implies segments@[k] == be_u16(
                    buf@[1 + 2 * k],
                    buf@[2 + 2 * k],
                ) by {
                    if k == 0 {
                    } else if k == 1 {
                    } else if k == 2 {
                    } else if k == 3 {
                    } else if k == 4 {
                    } else if k == 5 {
                    } else if k == 6 {
                    } else {
                    }
                }
                assert forall|i: int| 0 <= i < 16 implies #[trigger] words_bytes(segments@)[i]
                    == buf@.subrange(1, 17)[i] by {
                    let k = i / 2;
                    lemma_be_u16_bytes(buf@[1 + 2 * k], buf@[2 + 2 * k]);
                }
                assert(words_bytes(segments@) =~= buf@.subrange(1, 17));
            }
            AddressParse::Complete(
                Address::SocketAddress(
                    SocketAddress::V6 { segments, port, flowinfo: 0, scope_id: 0 },
                ),
                19,
            )
        } else if addr_type == SOCKS5_ADDR_TYPE_DOMAIN_NAME {
            if buf.len() < 2 {
                return AddressParse::Incomplete(2);
            }
            let length = buf[1] as usize;
            if buf.len() < length + 4 {
                return AddressParse::Incomplete(length + 4);
            }
            let raw_name = slice_subrange(buf, 2, length + 2);
            match utf8_str(raw_name) {
                Ok(name) => {
                    let port = word_at(buf, length + 2);
                    AddressParse::Complete(
                        Address::DomainNameAddress(name.to_owned(), port),
                        length + 4,
                    )
                },
                Err(_) => AddressParse::Rejected(
                    Error::new(Reply::GeneralFailure, "Invalid address encoding"),
                ),
            }
        } else {
            AddressParse::Rejected(
                Error::new(Reply::AddressTypeNotSupported, "Not supported address type"),
            )
        }
    }
}


fn write_ipv4_address(ip: &[u8; 4], port: u16, buf: &mut BytesMut)
    requires
        bytes_mut_contents(*old(buf)).len() + 7 <= max_buffer_len(),
    ensures
        bytes_mut_contents(*final(buf)) == bytes_mut_contents(*old(buf))
            + (SocketAddress::V4 { ip: *ip, port }).spec_encode(),
{
    let ghost start = bytes_mut_contents(*buf);
    put_u8(buf, SOCKS5_ADDR_TYPE_IPV4);
    let octets: &[u8] = ip.as_slice();
    put_slice(buf, octets);
    put_u16(buf, port);
    assert(bytes_mut_contents(*buf) =~= start + SocketAddress::V4 { ip: *ip, port }.spec_encode());
}

fn write_ipv6_address(segments: &[u16; 8], port: u16, buf: &mut BytesMut)
    requires
        bytes_mut_contents(*old(buf)).len() + 19 <= max_buffer_len(),
    ensures
        bytes_mut_contents(*final(buf)) == bytes_mut_contents(*old(buf)) + (seq![
            SOCKS5_ADDR_TYPE_IPV6,
        ] + words_bytes(segments@) + be_bytes(port)),
{
    let ghost start = bytes_mut_contents(*buf);
    put_u8(buf, SOCKS5_ADDR_TYPE_IPV6);
    let mut i: usize = 0;
    while i < 8
        invariant
            0 <= i <= 8,
            bytes_mut_contents(*buf) == start + seq![SOCKS5_ADDR_TYPE_IPV6] + words_bytes(
                segments@.subrange(0, i as int),
            ),
            start.len() + 19 <= max_buffer_len(),
        decreases 8 - i,
    {
        let seg = segments[i];
        put_u16(buf, seg);
        proof {
            let ws = segments@.subrange(0, i + 1);
            assert(ws.subrange(0, i as int) =~= segments@.subrange(0, i as int));
            assert(words_bytes(ws) =~= words_bytes(segments@.subrange(0, i as int)) + be_bytes(
                seg,
            ));
        }
        i = i + 1;
    }
    put_u16(buf, port);
    assert(segments@.subrange(0, 8) =~= segments@);
}

fn write_domain_name_address(dnaddr: &str, port: u16, buf: &mut BytesMut)
    requires
        encode_utf8(dnaddr@).len() <= 255,
        bytes_mut_contents(*old(buf)).len() + encode_utf8(dnaddr@).len() + 4 <= max_buffer_len(),
    ensures
        bytes_mut_contents(*final(buf)) == bytes_mut_contents(*old(buf)) + AddressModel::Domain(
            dnaddr@,
            port,
        ).spec_encode(),
{
    let ghost start = bytes_mut_contents(*buf);
    let raw = dnaddr.as_bytes();
    put_u8(buf, SOCKS5_ADDR_TYPE_DOMAIN_NAME);
    put_u8(buf, raw.len() as u8);
    put_slice(buf, raw);
    put_u16(buf, port);
    assert(bytes_mut_contents(*buf) =~= start + AddressModel::Domain(dnaddr@, port).spec_encode());
}

fn write_socket_address(addr: &SocketAddress, buf: &mut BytesMut)
    requires
        bytes_mut_contents(*old(buf)).len() + addr.spec_encode().len() <= max_buffer_len(),
    ensures
        bytes_mut_contents(*final(buf)) == bytes_mut_contents(*old(buf)) + addr.spec_encode(),
{
    match addr {
        SocketAddress::V4 { ip, port } => write_ipv4_address(ip, *port, buf),
        SocketAddress::V6 { segments, port, .. } => write_ipv6_address(segments, *port, buf),
    }
}

fn write_address(addr: &Address, buf: &mut BytesMut)
    requires
        addr@.encodable(),
        bytes_mut_contents(*old(buf)).len() + addr@.spec_encode().len() <= max_buffer_len(),
    ensures
        bytes_mut_contents(*final(buf)) == bytes_mut_contents(*old(buf)) + addr@.spec_encode(),
{
    match addr {
        Address::SocketAddress(a) => write_socket_address(a, buf),
        Address::DomainNameAddress(dnaddr, port) => write_domain_name_address(
            dnaddr.as_str(),
            *port,
            buf,
        ),
    }
}

fn get_addr_len(atyp: &Address) -> (n: usize)
    requires
        atyp@.spec_encode().len() <= usize::MAX,
    ensures
        n == atyp@.spec_encode().len(),
{
    match atyp {
        Address::SocketAddress(SocketAddress::V4 { .. }) => 1 + 4 + 2,
        Address::SocketAddress(SocketAddress::V6 { .. }) => 1 + 8 * 2 + 2,
        Address::DomainNameAddress(dmname, _) => 1 + 1 + dmname.as_str().len() + 2,
    }
}

impl Address {
    /// Writes the address to the end of `buf`.
    pub fn write_to_buf(&self, buf: &mut BytesMut)
        requires
            self@.encodable(),
            bytes_mut_contents(*old(buf)).len() + self@.spec_encode().len() <= max_buffer_len(),
        ensures
            bytes_mut_contents(*final(buf)) == bytes_mut_contents(*old(buf)) + self@.spec_encode(),
    {
        write_address(self, buf)
    }

    /// A new buffer holding the address as it is written.
    pub fn to_bytes(&self) -> (buf: BytesMut)
        requires
            self@.encodable(),
            self@.spec_encode().len() <= max_buffer_len(),
        ensures
            bytes_mut_contents(buf) == self@.spec_encode(),
    {
        let mut buf = empty_buffer(self.serialized_len());
        self.write_to_buf(&mut buf);
        assert(Seq::<u8>::empty() + self@.spec_encode() =~= self@.spec_encode());
        buf
    }

    /// Number of bytes that `write_to_buf` writes.
    pub fn serialized_len(&self) -> (n: usize)
        requires
            self@.spec_encode().len() <= usize::MAX,
        ensures
            n == self@.spec_encode().len(),
    {
        get_addr_len(self)
    }
}


/// Decoding the bytes that an address is written as, followed by anything
/// at all, gives back that address and the number of bytes it took.
pub proof fn lemma_decode_encode(m: AddressModel, rest: Seq<u8>)
    requires
        m.encodable(),
        m.canonical(),
    ensures
        decode_status(m.spec_encode() + rest) == DecodeStatus::Complete(m.spec_encode().len()),
        decoded_as(m.spec_encode() + rest, m),
{
    let b = m.spec_encode() + rest;
    match m {
        AddressModel::Socket(SocketAddress::V4 { ip, port }) => {
            assert(b.subrange(1, 5) =~= ip@);
            lemma_bytes_be_u16(port);
        },
        AddressModel::Socket(SocketAddress::V6 { segments, port, .. }) => {
            assert(b.subrange(1, 17) =~= words_bytes(segments@));
            lemma_bytes_be_u16(port);
        },
        AddressModel::Domain(name, port) => {
            let raw = encode_utf8(name);
            let len = raw.len() as int;
            assert(b[1] == len);
            assert(b.subrange(2, 2 + len) =~= raw);
            vstd::utf8::encode_utf8_valid_utf8(name);
            vstd::utf8::encode_utf8_decode_utf8(name);
            assert(b[2 + len] == be_bytes(port)[0]);
            assert(b[3 + len] == be_bytes(port)[1]);
            lemma_bytes_be_u16(port);
        },
    }
}

/// The leading bytes that an address was decoded from are exactly the
/// bytes that the address is written as.
pub proof fn lemma_encode_decode(b: Seq<u8>, m: AddressModel)
    requires
        decoded_as(b, m),
    ensures
        m.encodable(),
        m.canonical(),
        decode_status(b) == DecodeStatus::Complete(m.spec_encode().len()),
        m.spec_encode() == b.subrange(0, m.spec_encode().len() as int),
{
    match m {
        AddressModel::Socket(SocketAddress::V4 { ip, port }) => {
            lemma_be_u16_bytes(b[5], b[6]);
            assert(m.spec_encode() =~= b.subrange(0, 7));
        },
        AddressModel::Socket(SocketAddress::V6 { segments, port, .. }) => {
            lemma_be_u16_bytes(b[17], b[18]);
            assert(m.spec_encode() =~= b.subrange(0, 19));
        },
        AddressModel::Domain(name, port) => {
            let len = b[1] as int;
            let raw = b.subrange(2, 2 + len);
            vstd::utf8::decode_utf8_encode_utf8(raw);
            assert(encode_utf8(name) == raw);
            lemma_be_u16_bytes(b[2 + len], b[3 + len]);
            assert(m.spec_encode() =~= b.subrange(0, len + 4));
        },
    }
}

/// Bytes that arrive after a decided outcome do not change it, and an
/// incomplete outcome always asks for more bytes than are held.
pub proof fn lemma_decode_prefix(b: Seq<u8>, more: Seq<u8>, m: AddressModel)
    ensures
        decode_status(b) matches DecodeStatus::Incomplete(n) ==> n > b.len(),
        decode_status(b) matches DecodeStatus::Complete(n) ==> n <= b.len() && decode_status(
            b + more,
        ) == decode_status(b),
        decode_status(b) is Unsupported ==> decode_status(b + more) is Unsupported,
        decode_status(b) is InvalidName ==> decode_status(b + more) is InvalidName,
        decoded_as(b, m) ==> decoded_as(b + more, m),
{
    let c = b + more;
    if b.len() >= 2 {
        let len = b[1] as int;
        if b.len() >= len + 4 {
            assert(c.subrange(2, 2 + len) =~= b.subrange(2, 2 + len));
        }
    }
    if b.len() >= 19 {
        assert(c.subrange(1, 17) =~= b.subrange(1, 17));
    }
    if b.len() >= 7 {
        assert(c.subrange(1, 5) =~= b.subrange(1, 5));
    }
}

/// Writing a decoded address after any bytes `b0` appends exactly the
/// bytes it was decoded from: the address can be written (its domain name
/// fits the length byte), it takes at most 259 bytes, and no more than
/// those leading bytes.
pub proof fn lemma_write_after_decode(b: Seq<u8>, m: AddressModel, b0: Seq<u8>)
    requires
        decoded_as(b, m),
    ensures
        m.encodable(),
        m.spec_encode().len() <= 259,
        decode_status(b) == DecodeStatus::Complete(m.spec_encode().len()),
        b0 + m.spec_encode() == b0 + b.subrange(0, m.spec_encode().len() as int),
{
    lemma_encode_decode(b, m);
}

/// The wire layout of every writable address, byte by byte: the type byte
/// (1 for IPv4, 4 for IPv6, 3 for a domain name), then the four octets in
/// order, or each of the eight segments high byte first in order, or the
/// name's byte length and its UTF-8 bytes, and last the port, high byte
/// first.
pub proof fn lemma_wire_layout(m: AddressModel)
    requires
        m.encodable(),
    ensures
        ({
            let e = m.spec_encode();
            match m {
                AddressModel::Socket(SocketAddress::V4 { ip, port }) => {
                    &&& e.len() == 7
                    &&& e[0] == 1
                    &&& forall|k: int| 0 <= k < 4 ==> e[1 + k] == #[trigger] ip@[k]
                    &&& e[5] as int == port as int / 256
                    &&& e[6] as int == port as int % 256
                },
                AddressModel::Socket(SocketAddress::V6 { segments, port, .. }) => {
                    &&& e.len() == 19
                    &&& e[0] == 4
                    &&& forall|k: int|
                        0 <= k < 8 ==> e[1 + 2 * k] as int == #[trigger] segments@[k] as int / 256
                            && e[2 + 2 * k] as int == segments@[k] as int % 256
                    &&& e[17] as int == port as int / 256
                    &&& e[18] as int == port as int % 256
                },
                AddressModel::Domain(name, port) => {
                    let len = encode_utf8(name).len() as int;
                    &&& e.len() == len + 4
                    &&& e[0] == 3
                    &&& e[1] as int == len
                    &&& e.subrange(2, 2 + len) == encode_utf8(name)
                    &&& e[2 + len] as int == port as int / 256
                    &&& e[3 + len] as int == port as int % 256
                },
            }
        }),
{
    let e = m.spec_encode();
    match m {
        AddressModel::Socket(SocketAddress::V4 { ip, port }) => {
        },
        AddressModel::Socket(SocketAddress::V6 { segments, port, .. }) => {
            assert forall|k: int| 0 <= k < 8 implies e[1 + 2 * k] as int == #[trigger] segments@[k] as int
                / 256 && e[2 + 2 * k] as int == segments@[k] as int % 256 by {
                let w = words_bytes(segments@);
                assert(e[1 + 2 * k] == w[2 * k]);
                assert(e[2 + 2 * k] == w[2 * k + 1]);
                assert((2 * k) / 2 == k);
                assert((2 * k + 1) / 2 == k);
                assert((2 * k) % 2 == 0);
                assert((2 * k + 1) % 2 == 1);
            }
        },
        AddressModel::Domain(name, port) => {
            let len = encode_utf8(name).len() as int;
            assert(e.subrange(2, 2 + len) =~= encode_utf8(name));
        },
    }
}

/// What a decoded address is, in terms of the bytes it was decoded from:
/// an IPv4 address has the four octets after the type byte in order, an
/// IPv6 address the eight big-endian words after it in order and no flow
/// label or scope, a domain name the UTF-8 text of the length-prefixed
/// name; the port is the big-endian word that follows.
pub proof fn lemma_decoded_layout(b: Seq<u8>, m: AddressModel)
    requires
        decoded_as(b, m),
    ensures
        match m {
            AddressModel::Socket(SocketAddress::V4 { ip, port }) => {
                &&& b.len() >= 7
                &&& b[0] == 1
                &&& forall|k: int| 0 <= k < 4 ==> #[trigger] ip@[k] == b[1 + k]
                &&& port as int == b[5] as int * 256 + b[6] as int
            },
            AddressModel::Socket(SocketAddress::V6 { segments, port, flowinfo, scope_id }) => {
                &&& b.len() >= 19
                &&& b[0] == 4
                &&& forall|k: int|
                    0 <= k < 8 ==> #[trigger] segments@[k] as int == b[1 + 2 * k] as int * 256 + b[2
                        + 2 * k] as int
                &&& port as int == b[17] as int * 256 + b[18] as int
                &&& flowinfo == 0
                &&& scope_id == 0
            },
            AddressModel::Domain(name, port) => {
                let len = b[1] as int;
                &&& b[0] == 3
                &&& b.len() >= len + 4
                &&& valid_utf8(b.subrange(2, 2 + len))
                &&& name == decode_utf8(b.subrange(2, 2 + len))
                &&& port as int == b[2 + len] as int * 256 + b[3 + len] as int
            },
        },
{
    match m {
        AddressModel::Socket(SocketAddress::V4 { ip, port }) => {
            assert forall|k: int| 0 <= k < 4 implies #[trigger] ip@[k] == b[1 + k] by {
                assert(ip@[k] == b.subrange(1, 5)[k]);
            }
        },
        AddressModel::Socket(SocketAddress::V6 { segments, port, .. }) => {
            assert forall|k: int| 0 <= k < 8 implies #[trigger] segments@[k] as int == b[1 + 2 * k] as int
                * 256 + b[2 + 2 * k] as int by {
                let w = words_bytes(segments@);
                assert(w[2 * k] == b.subrange(1, 17)[2 * k]);
                assert(w[2 * k + 1] == b.subrange(1, 17)[2 * k + 1]);
                assert((2 * k) / 2 == k);
                assert((2 * k + 1) / 2 == k);
                assert((2 * k) % 2 == 0);
                assert((2 * k + 1) % 2 == 1);
                assert(w[2 * k] as int == segments@[k] as int / 256);
                assert(w[2 * k + 1] as int == segments@[k] as int % 256);
            }
        },
        AddressModel::Domain(name, port) => {
        },
    }
}

/// While the bytes held are a proper beginning of an address's encoding,
/// decoding asks for more bytes than are held and never for more than the
/// whole encoding: a reader that reads up to the requested count never
/// reads past the address.
pub proof fn lemma_incomplete_within_encoding(m: AddressModel, b: Seq<u8>)
    requires
        m.encodable(),
        b.len() < m.spec_encode().len(),
        b == m.spec_encode().subrange(0, b.len() as int),
    ensures
        decode_status(b) matches DecodeStatus::Incomplete(n) && b.len() < n <= m.spec_encode().len(),
{
    lemma_wire_layout(m);
    let e = m.spec_encode();
    if b.len() > 0 {
        assert(b[0] == e[0]);
    }
    if b.len() > 1 {
        assert(b[1] == e[1]);
    }
}

/// How many bytes each kind of address is written as: 7 for IPv4, 19 for
/// IPv6, and the name's UTF-8 length plus 4 for a domain name.
pub proof fn lemma_encoded_len(m: AddressModel)
    ensures
        m.spec_encode().len() == match m {
            AddressModel::Socket(SocketAddress::V4 { .. }) => 7,
            AddressModel::Socket(SocketAddress::V6 { .. }) => 19,
            AddressModel::Domain(name, _) => encode_utf8(name).len() + 4,
        },
{
}

impl From<(String, u16)> for Address {
    fn from(v: (String, u16)) -> (a: Address) {
        Address::DomainNameAddress(v.0, v.1)
    }
}

impl vstd::std_specs::convert::FromSpecImpl<(String, u16)> for Address {
    open spec fn obeys_from_spec() -> bool {
        true
    }

    open spec fn from_spec(v: (String, u16)) -> Address {
        Address::DomainNameAddress(v.0, v.1)
    }
}

impl From<SocketAddress> for Address {
    fn from(s: SocketAddress) -> (a: Address) {
        Address::SocketAddress(s)
    }
}

impl vstd::std_specs::convert::FromSpecImpl<SocketAddress> for Address {
    open spec fn obeys_from_spec() -> bool {
        true
    }

    open spec fn from_spec(s: SocketAddress) -> Address {
        Address::SocketAddress(s)
    }
}

} // verus!
