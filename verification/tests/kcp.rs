use rust_net_protocols::kcp::clock::{clock, millis_from_timespec};
use rust_net_protocols::kcp::peers::PeerTable;
use rust_net_protocols::kcp::session::{
    carries_payload, copy_segment, AcceptStep, RecvOutcome, DatagramAction, KcpConfig, KcpListener, KcpStream, ReadError,
};
use rust_net_protocols::net::SocketAddress;

fn peer(last: u8, port: u16) -> SocketAddress {
    SocketAddress::V4 { ip: [10, 0, 0, last], port }
}

#[test]
fn millis_of_a_timespec() {
    assert_eq!(millis_from_timespec(0, 0), 0);
    assert_eq!(millis_from_timespec(1, 999_999_999), 1999);
    assert_eq!(millis_from_timespec(1_600_000_000, 123_456_789), ((1_600_000_000_000u64 + 123) % (1u64 << 32)) as u32);
    assert_eq!(millis_from_timespec(-1, 500_000_000), (((-1000i64 + 500) as i128).rem_euclid(1i128 << 32)) as u32);
}

#[test]
fn clock_follows_wall_clock() {
    let a = clock();
    let b = clock();
    assert!(b.wrapping_sub(a) < 60_000);
}

#[test]
fn config_tuning() {
    let c = KcpConfig::with_conv(7);
    assert_eq!(c, KcpConfig { conv: 7, snd_wnd: 128, rcv_wnd: 128, nodelay: 0, interval: 10, resend: 0, nc: true });
}

#[test]
fn config_for_datagram_reads_conversation() {
    let c = KcpConfig::for_datagram(&[0x78, 0x56, 0x34, 0x12, 0xff]);
    assert_eq!(c.conv, 0x1234_5678);
    assert_eq!(c.snd_wnd, 128);
}

#[test]
fn config_for_client_is_tuned() {
    let c = KcpConfig::for_client();
    assert_eq!((c.snd_wnd, c.rcv_wnd, c.nodelay, c.interval, c.resend, c.nc), (128, 128, 0, 10, 0, true));
}

#[test]
fn payload_threshold() {
    assert!(!carries_payload(0));
    assert!(!carries_payload(24));
    assert!(carries_payload(25));
}

#[test]
fn peer_table_insert_get_remove() {
    let mut t: PeerTable<&str> = PeerTable::new();
    assert!(!t.contains(&peer(1, 1)));
    t.insert(peer(1, 1), "a");
    t.insert(peer(2, 1), "b");
    assert_eq!(t.get(&peer(1, 1)), Some(&"a"));
    t.insert(peer(1, 1), "c");
    assert_eq!(t.get(&peer(1, 1)), Some(&"c"));
    assert_eq!(t.get(&peer(2, 1)), Some(&"b"));
    t.remove(&peer(1, 1));
    assert!(!t.contains(&peer(1, 1)));
    assert_eq!(t.get(&peer(2, 1)), Some(&"b"));
    t.remove(&peer(3, 3));
    assert_eq!(t.get(&peer(3, 3)), None);
}

#[test]
fn listener_session_lifecycle() {
    let mut l: KcpListener<u8> = KcpListener::new();
    let p = peer(5, 4000);
    assert_eq!(l.on_datagram(&p, 100), DatagramAction::Open);
    l.update_connection(KcpStream::new(p, true));
    assert_eq!(l.connections.get(&p).unwrap().from_addr(), p);
    assert_eq!(l.on_datagram(&p, 100), DatagramAction::Deliver);
    assert_eq!(l.on_datagram(&p, 24), DatagramAction::Wait);
    assert_eq!(l.on_datagram(&peer(5, 4001), 100), DatagramAction::Open);
    assert!(!l.has_remote(&p));
    l.add_remote(p, 1);
    assert!(l.has_remote(&p));
    l.drop_stream(&p);
    assert_eq!(l.on_datagram(&p, 100), DatagramAction::Open);
    assert!(l.has_remote(&p));
}

#[test]
fn copy_segment_hands_over_and_empties() {
    let mut segment = vec![1, 2, 3, 4, 5];
    let mut out = [9u8; 6];
    assert_eq!(copy_segment(&mut segment, 3, &mut out), Ok(3));
    assert_eq!(out, [1, 2, 3, 9, 9, 9]);
    assert!(segment.is_empty());
}

#[test]
fn copy_segment_refuses_short_buffer() {
    let mut segment = vec![1, 2, 3, 4, 5];
    let mut out = [0u8; 2];
    assert_eq!(copy_segment(&mut segment, 5, &mut out), Err(ReadError::BufferTooSmall));
    assert_eq!(out, [0, 0]);
    assert_eq!(segment, vec![1, 2, 3, 4, 5]);
}

#[test]
fn stream_state_receive_and_read() {
    let p = peer(9, 9);
    let mut st = KcpStream::new(p, true);
    assert!(st.init && st.server && st.buf.is_empty() && st.to_send.is_none());
    assert!(st.needs_input());
    assert_eq!(st.receive(None), None);
    let q = peer(8, 8);
    assert_eq!(st.receive(Some((vec![1, 2, 3, 4], 3, q))), Some((3, q)));
    assert_eq!(st.buf, vec![1, 2, 3, 4]);
    assert!(st.to_send.is_none());
    assert_eq!(st.from_addr(), p);
    st.reset_to_send(2, q);
    assert!(!st.needs_input());
    assert_eq!(st.receive(None), Some((2, q)));
    let mut out = [0u8; 8];
    assert_eq!(st.take_segment(4, &mut out), Ok(4));
    assert_eq!(&out[..4], &[1, 2, 3, 4]);
    assert!(st.buf.is_empty());
    st.buf = vec![5];
    st.reset_buf();
    assert!(st.buf.is_empty());
}

#[test]
fn read_error_text() {
    assert_eq!(ReadError::BufferTooSmall.to_string(), "must 1024 buf!");
}

#[test]
fn accept_opens_then_delivers() {
    let mut l: KcpListener<u8> = KcpListener::new();
    let p = peer(3, 3000);
    let mut recv_buf = vec![0u8; 1024];
    let first = [0x01, 0x00, 0x00, 0x00, 0x51, 0, 0, 0];
    recv_buf[..first.len()].copy_from_slice(&first);
    match l.accept_datagram(p, &recv_buf, first.len()) {
        AcceptStep::Open(s, c) => {
            assert_eq!(c.conv, 1);
            assert_eq!(s.buf, first.to_vec());
            assert!(s.server && s.init && s.to_send.is_none());
            assert_eq!(s.from_addr(), p);
        }
        _ => panic!("expected a new session"),
    }
    assert!(l.connections.contains(&p));
    assert_eq!(l.connections.get(&p).unwrap().buf, first.to_vec());
    match l.accept_datagram(p, &recv_buf, 10) {
        AcceptStep::Wait => {}
        _ => panic!("expected to wait"),
    }
    let long = [7u8; 30];
    recv_buf[..30].copy_from_slice(&long);
    match l.accept_datagram(p, &recv_buf, 30) {
        AcceptStep::Deliver(s) => {
            assert_eq!(s.buf, long.to_vec());
            assert!(s.server && !s.init);
            assert_eq!(s.from_addr(), p);
        }
        _ => panic!("expected delivery"),
    }
    assert_eq!(l.connections.get(&p).unwrap().buf, first.to_vec());
}

#[test]
fn read_path_errors() {
    assert_eq!(ReadError::NotReady.to_string(), "try read would block wait");
    assert_eq!(ReadError::Eof.to_string(), "EOF");
    assert!(ReadError::NotReady.kind_is_other());
    assert!(!ReadError::BufferTooSmall.kind_is_other());
    assert_eq!(ReadError::NotReady.for_client(), ReadError::Eof);
    assert_eq!(ReadError::BufferTooSmall.for_client(), ReadError::BufferTooSmall);
}

#[test]
fn read_received_outcomes() {
    let mut st = KcpStream::new(peer(1, 1), false);
    st.buf = vec![4, 5, 6];
    let mut out = [0u8; 2];
    assert_eq!(st.read_received(RecvOutcome::Nothing, &mut out), Err(ReadError::NotReady));
    assert_eq!(st.read_received(RecvOutcome::Message(3), &mut out), Err(ReadError::BufferTooSmall));
    assert_eq!(st.buf, vec![4, 5, 6]);
    assert_eq!(st.read_received(RecvOutcome::Message(2), &mut out), Ok(2));
    assert_eq!(out, [4, 5]);
    assert!(st.buf.is_empty());
}
