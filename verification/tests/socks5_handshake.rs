use rust_net_protocols::socks5::handshake::{hello_reply, request_reply, Socks5, Socks5Error};
use rust_net_protocols::socks5::{Error, Reply};

#[test]
fn accepts_socks5_hello() {
    assert_eq!(Socks5::check_hello(&[5, 1, 0]), Ok(()));
    assert_eq!(Socks5::check_hello(&[5, 0, 0, 7]), Ok(()));
}

#[test]
fn rejects_bad_hello() {
    assert_eq!(Socks5::check_hello(&[5, 1]), Err(Socks5Error::InvalidHello));
    assert_eq!(Socks5::check_hello(&[4, 1, 0]), Err(Socks5Error::InvalidHello));
    assert_eq!(Socks5::check_hello(&[5, 2, 0, 2]), Err(Socks5Error::InvalidHello));
    assert_eq!(Socks5::check_hello(&[]), Err(Socks5Error::InvalidHello));
}

#[test]
fn fixed_replies() {
    assert_eq!(hello_reply(), vec![5, 0]);
    assert_eq!(request_reply(), vec![5, 0, 0, 1, 0, 0, 0, 0, 0x10, 0x10]);
}

#[test]
fn request_with_ipv4_target() {
    let req = [5, 1, 0, 1, 127, 0, 0, 1, 0x1f, 0x90];
    let s = Socks5::from_request(&req, req.len()).unwrap();
    assert_eq!(s.addr, ".127.0.0.1");
    assert_eq!(s.port, 8080);
    assert!(!s.use_host);
}

#[test]
fn request_port_is_read_as_signed() {
    let req = [5, 1, 0, 1, 10, 20, 30, 40, 0xff, 0xff];
    let s = Socks5::from_request(&req, req.len()).unwrap();
    assert_eq!(s.addr, ".10.20.30.40");
    assert_eq!(s.port, -1);
}

#[test]
fn request_with_domain_target() {
    let req = [5, 1, 0, 3, 9, b'l', b'o', b'c', b'a', b'l', b'h', b'o', b's', b't', 0, 80];
    let s = Socks5::from_request(&req, req.len()).unwrap();
    assert_eq!(s.addr, "localhost");
    assert_eq!(s.port, 80);
    assert!(s.use_host);
}

#[test]
fn request_reads_only_received_bytes() {
    let mut buf = [0u8; 64];
    let req = [5, 1, 0, 1, 1, 2, 3, 4, 0, 22];
    buf[..req.len()].copy_from_slice(&req);
    let s = Socks5::from_request(&buf, req.len()).unwrap();
    assert_eq!(s.addr, ".1.2.3.4");
    assert_eq!(s.port, 22);
}

#[test]
fn request_with_other_command_is_refused() {
    let req = [5, 2, 0, 1, 1, 2, 3, 4, 0, 22];
    assert_eq!(Socks5::from_request(&req, req.len()).unwrap_err(), Socks5Error::InvalidMethod);
}

#[test]
fn request_with_ipv6_target_is_refused() {
    let mut req = vec![5, 1, 0, 4];
    req.extend_from_slice(&[0; 18]);
    assert_eq!(
        Socks5::from_request(&req, req.len()).unwrap_err(),
        Socks5Error::UnsupportedAddressType
    );
}

#[test]
fn request_with_invalid_host_is_refused() {
    let req = [5, 1, 0, 3, 2, 0xc3, 0x28];
    let e = Socks5::from_request(&req, req.len()).unwrap_err();
    assert_eq!(e, Socks5Error::InvalidHostName { valid_up_to: 0, error_len: Some(1) });
    assert_eq!(e.to_string(), "invalid utf-8 sequence of 1 bytes from index 0");
}

#[test]
fn parse_header_keeps_old_values_on_error() {
    let mut s = Socks5 { addr: "kept".to_string(), port: 7, use_host: true };
    assert_eq!(s.parse_header(&[9]), Err(Socks5Error::UnsupportedAddressType));
    assert_eq!(s.addr, "kept");
    assert_eq!(s.port, 7);
    assert!(s.use_host);
}

#[test]
fn parse_header_ipv4_keeps_use_host() {
    let mut s = Socks5 { addr: String::new(), port: 0, use_host: true };
    assert_eq!(s.parse_header(&[1, 255, 0, 9, 100, 0x12, 0x34]), Ok(()));
    assert_eq!(s.addr, ".255.0.9.100");
    assert_eq!(s.port, 0x1234);
    assert!(s.use_host);
}

#[test]
fn handshake_error_messages() {
    assert_eq!(Socks5Error::InvalidHello.to_string(), "not valid socks5 hello!");
    assert_eq!(Socks5Error::InvalidMethod.to_string(), "no valid method for socks5");
    assert_eq!(Socks5Error::UnsupportedAddressType.to_string(), "not support addr type ");
    assert_eq!(
        Socks5Error::InvalidHostName { valid_up_to: 12, error_len: None }.to_string(),
        "incomplete utf-8 byte sequence from index 12"
    );
}

#[test]
fn reply_codes() {
    assert_eq!(Reply::Succeeded.as_u8(), 0);
    assert_eq!(Reply::AddressTypeNotSupported.as_u8(), 8);
    assert_eq!(Reply::OtherReply(42).as_u8(), 42);
    assert_eq!(Reply::from_u8(5), Reply::ConnectionRefused);
    assert_eq!(Reply::from_u8(9), Reply::OtherReply(9));
}

#[test]
fn reply_code_roundtrip() {
    for code in 0..=255u8 {
        assert_eq!(Reply::from_u8(code).as_u8(), code);
    }
    let named = [
        Reply::Succeeded,
        Reply::GeneralFailure,
        Reply::ConnectionNotAllowed,
        Reply::NetworkUnreachable,
        Reply::HostUnreachable,
        Reply::ConnectionRefused,
        Reply::TtlExpired,
        Reply::CommandNotSupported,
        Reply::AddressTypeNotSupported,
        Reply::OtherReply(200),
    ];
    for r in named.iter() {
        assert_eq!(Reply::from_u8(r.as_u8()), *r);
    }
    assert_eq!(Reply::from_u8(Reply::OtherReply(3).as_u8()), Reply::NetworkUnreachable);
}

#[test]
fn reply_text() {
    assert_eq!(Reply::Succeeded.to_string(), "Succeeded");
    assert_eq!(Reply::TtlExpired.to_string(), "TTL expired");
    assert_eq!(Reply::AddressTypeNotSupported.to_string(), "Address type not supported");
    assert_eq!(Reply::OtherReply(9).to_string(), "Other reply (9)");
    assert_eq!(Reply::OtherReply(255).to_string(), "Other reply (255)");
    assert_eq!(Reply::OtherReply(10).to_string(), "Other reply (10)");
}

#[test]
fn error_new_and_text() {
    let e = Error::new(Reply::HostUnreachable, "no route");
    assert_eq!(e.reply, Reply::HostUnreachable);
    assert_eq!(e.message, "no route");
    assert_eq!(e.to_string(), "no route");
}

#[test]
fn host_name_error_matches_std_text() {
    let cases: [&[u8]; 3] = [b"ab\xff", b"abc\xe2\x82", b"\xc3\x28x"];
    for raw in cases.iter() {
        let mut req = vec![5, 1, 0, 3, raw.len() as u8];
        req.extend_from_slice(raw);
        req.extend_from_slice(&[0, 80]);
        let e = Socks5::from_request(&req, req.len()).unwrap_err();
        let std_text = std::str::from_utf8(raw).unwrap_err().to_string();
        assert_eq!(e.to_string(), std_text);
    }
}
