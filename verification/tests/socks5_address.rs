use bytes::BytesMut;
use rust_net_protocols::socks5::address::{Address, AddressParse, SocketAddress};
use rust_net_protocols::socks5::text_address::AddressError;
use rust_net_protocols::socks5::Reply;

fn encode(addr: &Address) -> Vec<u8> {
    let mut buf = BytesMut::new();
    addr.write_to_buf(&mut buf);
    buf[..].to_vec()
}

fn complete(buf: &[u8]) -> (Address, usize) {
    match Address::decode(buf) {
        AddressParse::Complete(a, n) => (a, n),
        other => panic!("expected a complete address, got {:?}", other),
    }
}

#[test]
fn writes_ipv4_address() {
    let a = Address::SocketAddress(SocketAddress::V4 { ip: [127, 0, 0, 1], port: 8080 });
    assert_eq!(encode(&a), vec![1, 127, 0, 0, 1, 0x1f, 0x90]);
    assert_eq!(a.serialized_len(), 7);
}

#[test]
fn writes_ipv6_address() {
    let a = Address::SocketAddress(SocketAddress::V6 {
        segments: [0x2001, 0xdb8, 0, 0, 0, 0, 0, 1],
        port: 443,
        flowinfo: 0,
        scope_id: 0,
    });
    let bytes = encode(&a);
    assert_eq!(
        bytes,
        vec![4, 0x20, 0x01, 0x0d, 0xb8, 0, 0, 0, 0, 0, 0, 0, 0, 0, 0, 0, 1, 0x01, 0xbb]
    );
    assert_eq!(a.serialized_len(), 19);
}

#[test]
fn writes_domain_address() {
    let a = Address::DomainNameAddress("example.com".to_string(), 80);
    assert_eq!(
        encode(&a),
        vec![3, 11, b'e', b'x', b'a', b'm', b'p', b'l', b'e', b'.', b'c', b'o', b'm', 0, 80]
    );
    assert_eq!(a.serialized_len(), 15);
}

#[test]
fn writes_after_existing_bytes() {
    let mut buf = BytesMut::new();
    buf.extend_from_slice(&[9, 9]);
    Address::SocketAddress(SocketAddress::V4 { ip: [1, 2, 3, 4], port: 1 }).write_to_buf(&mut buf);
    assert_eq!(&buf[..], &[9, 9, 1, 1, 2, 3, 4, 0, 1]);
}

#[test]
fn domain_length_counts_utf8_bytes() {
    let a = Address::DomainNameAddress("bücher.de".to_string(), 1);
    let bytes = encode(&a);
    assert_eq!(bytes[1], 10);
    assert_eq!(a.serialized_len(), 14);
    assert_eq!(complete(&bytes), (a, 14));
}

#[test]
fn decodes_ipv4_address() {
    let (a, n) = complete(&[1, 10, 0, 0, 2, 0x00, 0x50, 0xff]);
    assert_eq!(a, Address::SocketAddress(SocketAddress::V4 { ip: [10, 0, 0, 2], port: 80 }));
    assert_eq!(n, 7);
}

#[test]
fn decodes_ipv6_address_without_flow_label() {
    let bytes = [4, 0xfe, 0x80, 0, 0, 0, 0, 0, 0, 0, 0, 0, 0, 0, 0, 0x12, 0x34, 0x1f, 0x90];
    let (a, n) = complete(&bytes);
    assert_eq!(
        a,
        Address::SocketAddress(SocketAddress::V6 {
            segments: [0xfe80, 0, 0, 0, 0, 0, 0, 0x1234],
            port: 8080,
            flowinfo: 0,
            scope_id: 0,
        })
    );
    assert_eq!(n, 19);
}

#[test]
fn decodes_domain_address() {
    let (a, n) = complete(&[3, 3, b'a', b'b', b'c', 0x01, 0x00]);
    assert_eq!(a, Address::DomainNameAddress("abc".to_string(), 256));
    assert_eq!(n, 7);
}

#[test]
fn decode_asks_for_the_bytes_it_needs() {
    assert!(matches!(Address::decode(&[]), AddressParse::Incomplete(1)));
    assert!(matches!(Address::decode(&[1, 2, 3]), AddressParse::Incomplete(7)));
    assert!(matches!(Address::decode(&[4]), AddressParse::Incomplete(19)));
    assert!(matches!(Address::decode(&[3]), AddressParse::Incomplete(2)));
    assert!(matches!(Address::decode(&[3, 5, b'a']), AddressParse::Incomplete(9)));
}

#[test]
fn decode_rejects_unknown_address_type() {
    match Address::decode(&[2, 0, 0]) {
        AddressParse::Rejected(e) => {
            assert_eq!(e.reply, Reply::AddressTypeNotSupported);
            assert_eq!(e.message, "Not supported address type");
        }
        other => panic!("unexpected {:?}", other),
    }
}

#[test]
fn decode_rejects_invalid_utf8_name() {
    match Address::decode(&[3, 2, 0xff, 0xfe, 0, 80]) {
        AddressParse::Rejected(e) => {
            assert_eq!(e.reply, Reply::GeneralFailure);
            assert_eq!(e.message, "Invalid address encoding");
        }
        other => panic!("unexpected {:?}", other),
    }
}

#[test]
fn reading_incrementally_reaches_the_address() {
    let bytes = [3, 4, b'h', b'o', b's', b't', 0x04, 0x38];
    let mut held: Vec<u8> = Vec::new();
    let address = loop {
        match Address::decode(&held) {
            AddressParse::Incomplete(n) => {
                assert!(n > held.len());
                held.extend_from_slice(&bytes[held.len()..n]);
            }
            AddressParse::Complete(a, n) => {
                assert_eq!(n, bytes.len());
                break a;
            }
            AddressParse::Rejected(e) => panic!("rejected: {:?}", e),
        }
    };
    assert_eq!(address, Address::DomainNameAddress("host".to_string(), 1080));
}

#[test]
fn write_then_decode_gives_back_the_address() {
    let addrs = vec![
        Address::SocketAddress(SocketAddress::V4 { ip: [192, 168, 1, 20], port: 65535 }),
        Address::SocketAddress(SocketAddress::V6 {
            segments: [1, 2, 3, 4, 5, 6, 7, 0xffff],
            port: 0,
            flowinfo: 0,
            scope_id: 0,
        }),
        Address::DomainNameAddress("a.b".to_string(), 7),
        Address::DomainNameAddress(String::new(), 9),
    ];
    for a in addrs {
        let mut bytes = encode(&a);
        let len = bytes.len();
        bytes.extend_from_slice(&[0xaa, 0xbb]);
        assert_eq!(complete(&bytes), (a, len));
    }
}

#[test]
fn ipv6_flow_label_is_not_written() {
    let a = Address::SocketAddress(SocketAddress::V6 {
        segments: [0; 8],
        port: 1,
        flowinfo: 7,
        scope_id: 3,
    });
    let (back, _) = complete(&encode(&a));
    assert_ne!(back, a);
    assert_eq!(
        back,
        Address::SocketAddress(SocketAddress::V6 { segments: [0; 8], port: 1, flowinfo: 0, scope_id: 0 })
    );
}

#[test]
fn decode_then_write_gives_back_the_bytes() {
    let bytes = [1, 8, 8, 4, 4, 0, 53, 1, 2, 3];
    let (a, n) = complete(&bytes);
    assert_eq!(encode(&a), bytes[..n].to_vec());
}

#[test]
fn address_from_text_uses_socket_reading() {
    let s = SocketAddress::V4 { ip: [127, 0, 0, 1], port: 80 };
    assert_eq!(Address::from_text("127.0.0.1:80", Some(s)), Ok(Address::SocketAddress(s)));
}

#[test]
fn address_from_text_reads_host_and_port() {
    assert_eq!(
        Address::from_text("example.org:8080", None),
        Ok(Address::DomainNameAddress("example.org".to_string(), 8080))
    );
    assert_eq!(
        Address::from_text("h:+12:rest", None),
        Ok(Address::DomainNameAddress("h".to_string(), 12))
    );
    assert_eq!(
        Address::from_text(":0", None),
        Ok(Address::DomainNameAddress(String::new(), 0))
    );
}

#[test]
fn address_from_text_errors() {
    assert_eq!(Address::from_text("no-port", None), Err(AddressError));
    assert_eq!(Address::from_text("host:", None), Err(AddressError));
    assert_eq!(Address::from_text("host:65536", None), Err(AddressError));
    assert_eq!(Address::from_text("host:12a", None), Err(AddressError));
    assert_eq!(Address::from_text("host:-1", None), Err(AddressError));
    assert_eq!(Address::from_text("host:+", None), Err(AddressError));
}

#[test]
fn domain_text_reads_back() {
    let text = Address::domain_text("example.net", 443);
    assert_eq!(text, "example.net:443");
    assert_eq!(
        Address::from_text(&text, None),
        Ok(Address::DomainNameAddress("example.net".to_string(), 443))
    );
    assert_eq!(Address::domain_text("x", 0), "x:0");
    assert_eq!(Address::domain_text("x", 65535), "x:65535");
}

#[test]
fn address_from_tuple_and_socket() {
    assert_eq!(
        Address::from(("host".to_string(), 22)),
        Address::DomainNameAddress("host".to_string(), 22)
    );
    let s = SocketAddress::V4 { ip: [1, 1, 1, 1], port: 53 };
    assert_eq!(Address::from(s), Address::SocketAddress(s));
}

#[test]
fn socket_address_equality() {
    let a = SocketAddress::V6 { segments: [1, 2, 3, 4, 5, 6, 7, 8], port: 1, flowinfo: 0, scope_id: 0 };
    let b = SocketAddress::V6 { segments: [1, 2, 3, 4, 5, 6, 7, 9], port: 1, flowinfo: 0, scope_id: 0 };
    let c = SocketAddress::V4 { ip: [1, 2, 3, 4], port: 1 };
    assert!(a.same_as(&a));
    assert!(!a.same_as(&b));
    assert!(!a.same_as(&c));
    assert!(c.same_as(&SocketAddress::V4 { ip: [1, 2, 3, 4], port: 1 }));
    assert!(!c.same_as(&SocketAddress::V4 { ip: [1, 2, 3, 4], port: 2 }));
}

#[test]
fn to_bytes_holds_the_encoding() {
    let a = Address::SocketAddress(SocketAddress::V4 { ip: [127, 0, 0, 1], port: 8080 });
    assert_eq!(&a.to_bytes()[..], &[1, 127, 0, 0, 1, 0x1f, 0x90]);
    let d = Address::DomainNameAddress("ab".to_string(), 1);
    assert_eq!(&d.to_bytes()[..], &[3, 2, b'a', b'b', 0, 1]);
}

#[test]
fn writing_a_decoded_address_reproduces_its_bytes() {
    let input = [3, 1, b'z', 0x12, 0x34, 7, 7];
    let (a, n) = complete(&input);
    let mut buf = BytesMut::new();
    buf.extend_from_slice(&[0xee]);
    a.write_to_buf(&mut buf);
    assert_eq!(&buf[1..], &input[..n]);
    assert_eq!(a.serialized_len(), n);
}
