//! What a KCP listener and its streams decide: the tuning a session is
//! opened with, which peer a datagram belongs to, whether it is delivered,
//! and how a received segment is handed to a reader.

use vstd::prelude::*;
use crate::net::SocketAddress;
use crate::wire::le_u32;
use crate::wire::read_u32_le;
use super::peers::PeerTable;
use vstd::slice::slice_subrange;
use vstd::slice::slice_to_vec;

verus! {

/// Size of a KCP segment header: a datagram that is not longer carries no
/// payload.
pub const KCP_OVERHEAD: usize = 24;

/// Window sizes (in segments) that sessions are opened with.
pub const KCP_WINDOW: u16 = 128;

/// Internal update interval (milliseconds) that sessions are opened with.
pub const KCP_INTERVAL: i32 = 10;

/// The parameters a KCP control block is created and tuned with:
/// `wndsize(snd_wnd, rcv_wnd)` and `nodelay(nodelay, interval, resend, nc)`.
#[derive(Clone, Copy, Debug, PartialEq, Eq, Structural)]
pub struct KcpConfig {
    pub conv: u32,
    pub snd_wnd: u16,
    pub rcv_wnd: u16,
    pub nodelay: i32,
    pub interval: i32,
    pub resend: i32,
    pub nc: bool,
}

/// The tuning shared by both ends: windows of 128 segments, no "nodelay"
/// mode, a 10 ms interval, no fast resend, congestion control off.
pub open spec fn standard_tuning(c: KcpConfig) -> bool {
    &&& c.snd_wnd == 128
    &&& c.rcv_wnd == 128
    &&& c.nodelay == 0
    &&& c.interval == 10
    &&& c.resend == 0
    &&& c.nc
}

/// `rand::random::<u32>()`: a conversation id drawn from the thread-local
/// generator. Any value may come back.
#[verifier::external_body]
fn random_conv() -> u32 {
    rand::random::<u32>()
}

impl KcpConfig {
    /// The configuration for conversation `conv`.
    pub fn with_conv(conv: u32) -> (c: KcpConfig)
        ensures
            c.conv == conv,
            standard_tuning(c),
    {
        KcpConfig {
            conv,
            snd_wnd: KCP_WINDOW,
            rcv_wnd: KCP_WINDOW,
            nodelay: 0,
            interval: KCP_INTERVAL,
            resend: 0,
            nc: true,
        }
    }

    /// The configuration a listener opens for a new peer: the conversation
    /// id is the little-endian word at the start of the receive buffer that
    /// the peer's datagram was read into. The buffer is read as it is: when
    /// fewer than four bytes arrived, the rest of the word is whatever the
    /// buffer held before.
    pub fn for_datagram(recv_buf: &[u8]) -> (c: KcpConfig)
        requires
            recv_buf@.len() >= 4,
        ensures
            c.conv == le_u32(recv_buf@[0], recv_buf@[1], recv_buf@[2], recv_buf@[3]),
            standard_tuning(c),
    {
        KcpConfig::with_conv(read_u32_le(recv_buf))
    }

    /// The configuration a client connects with: a random conversation id.
    pub fn for_client() -> (c: KcpConfig)
        ensures
            standard_tuning(c),
    {
        KcpConfig::with_conv(random_conv())
    }
}

/// A datagram of `received` bytes carries payload beyond a segment header.
pub open spec fn spec_carries_payload(received: int) -> bool {
    received > KCP_OVERHEAD
}

pub fn carries_payload(received: usize) -> (r: bool)
    ensures
        r == spec_carries_payload(received as int),
{
    received > KCP_OVERHEAD
}

/// What a listener does with a datagram from a peer.
#[derive(Clone, Copy, Debug, PartialEq, Eq, Structural)]
pub enum DatagramAction {
    /// Feed it to the peer's session and hand the session to the caller.
    Deliver,
    /// Feed it to the peer's session and wait for the next datagram.
    Wait,
    /// Open a session for a new peer.
    Open,
}

/// A datagram and the peer it is for.
pub struct Message {
    buf: Vec<u8>,
    addr: SocketAddress,
}

/// Why a read of a KCP stream gave no data.
#[derive(Clone, Copy, Debug, PartialEq, Eq, Structural)]
pub enum ReadError {
    /// The reader's buffer is shorter than the segment; the read would
    /// have to wait for a larger buffer (an I/O "would block").
    BufferTooSmall,
    /// The control block has no complete message yet (an I/O error of kind
    /// "other").
    NotReady,
    /// A client's read found nothing to deliver (an I/O error of kind
    /// "other").
    Eof,
}

/// Whether the I/O error that a read error stands for is of kind "other"
/// (rather than "would block").
pub open spec fn spec_kind_is_other(e: ReadError) -> bool {
    !(e is BufferTooSmall)
}

impl ReadError {
    /// The error as text.
    pub fn to_string(&self) -> (s: String)
        ensures
            s@ == (match self {
                ReadError::BufferTooSmall => "must 1024 buf!"@,
                ReadError::NotReady => "try read would block wait"@,
                ReadError::Eof => "EOF"@,
            }),
    {
        match self {
            ReadError::BufferTooSmall => "must 1024 buf!".to_owned(),
            ReadError::NotReady => "try read would block wait".to_owned(),
            ReadError::Eof => "EOF".to_owned(),
        }
    }

    /// Whether the error is of I/O kind "other".
    pub fn kind_is_other(&self) -> (r: bool)
        ensures
            r == spec_kind_is_other(*self),
    {
        match self {
            ReadError::BufferTooSmall => false,
            _ => true,
        }
    }

    /// How a client's read reports an error of its stream: an error of kind
    /// "other" becomes end of input; any other error is passed on.
    pub fn for_client(self) -> (e: ReadError)
        ensures
            e == (if spec_kind_is_other(self) {
                ReadError::Eof
            } else {
                self
            }),
    {
        if self.kind_is_other() {
            ReadError::Eof
        } else {
            self
        }
    }
}

/// What the control block's `recv` gave: a message of this many bytes
/// written into the stream's buffer, or nothing yet (an error of kind
/// "other"). Errors of other kinds are passed on by the caller unchanged.
#[derive(Clone, Copy, Debug, PartialEq, Eq, Structural)]
pub enum RecvOutcome {
    Message(usize),
    Nothing,
}

/// Hands the first `n` bytes of a received segment to a reader's buffer and
/// empties the segment; when the reader's buffer is too short, nothing
/// changes.
pub fn copy_segment(segment: &mut Vec<u8>, n: usize, out: &mut [u8]) -> (res: Result<usize, ReadError>)
    requires
        n <= old(out)@.len() ==> n <= old(segment)@.len(),
    ensures
        n <= old(out)@.len() ==> {
            &&& res == Ok::<usize, ReadError>(n)
            &&& final(out)@ == old(segment)@.subrange(0, n as int) + old(out)@.subrange(
                n as int,
                old(out)@.len() as int,
            )
            &&& final(segment)@ == Seq::<u8>::empty()
        },
        n > old(out)@.len() ==> {
            &&& res == Err::<usize, ReadError>(ReadError::BufferTooSmall)
            &&& final(out)@ == old(out)@
            &&& final(segment)@ == old(segment)@
        },
{
    if n <= out.len() {
        let ghost before = out@;
        let mut i: usize = 0;
        while i < n
            invariant
                0 <= i <= n,
                n <= out@.len(),
                n <= segment@.len(),
                out@.len() == before.len(),
                forall|k: int| 0 <= k < i ==> out@[k] == segment@[k],
                forall|k: int| i <= k < out@.len() ==> out@[k] == before[k],
            decreases n - i,
        {
            out[i] = segment[i];
            i = i + 1;
        }
        assert(out@ =~= segment@.subrange(0, n as int) + before.subrange(n as int, before.len() as int));
        *segment = Vec::new();
        Ok(n)
    } else {
        Err(ReadError::BufferTooSmall)
    }
}

/// A KCP stream's own state, beside the control block that its caller
/// drives: the last datagram received, whether it still has to be fed to
/// the control block, the peer, and which end of the session this is.
pub struct KcpStream {
    pub buf: Vec<u8>,
    pub server: bool,
    pub to_send: Option<(usize, SocketAddress)>,
    pub fr_addr: SocketAddress,
    pub init: bool,
}

impl KcpStream {
    /// A fresh stream with peer `peer`: nothing received, nothing pending.
    pub fn new(peer: SocketAddress, server: bool) -> (s: KcpStream)
        ensures
            s.buf@ == Seq::<u8>::empty(),
            s.server == server,
            s.to_send is None,
            s.fr_addr == peer,
            s.init,
    {
        KcpStream { buf: Vec::new(), server, to_send: None, fr_addr: peer, init: true }
    }

    pub fn from_addr(&self) -> (a: SocketAddress)
        ensures
            a == self.fr_addr,
    {
        self.fr_addr
    }

    pub fn reset_to_send(&mut self, u: usize, s: SocketAddress)
        ensures
            final(self).to_send == Some((u, s)),
            final(self).buf == old(self).buf,
            final(self).fr_addr == old(self).fr_addr,
            final(self).server == old(self).server,
            final(self).init == old(self).init,
    {
        self.to_send = Some((u, s));
    }

    pub fn reset_buf(&mut self)
        ensures
            final(self).buf@ == Seq::<u8>::empty(),
            final(self).to_send == old(self).to_send,
            final(self).fr_addr == old(self).fr_addr,
            final(self).server == old(self).server,
            final(self).init == old(self).init,
    {
        self.buf = Vec::new();
    }

    /// A read has to wait for input first when nothing is pending or
    /// nothing is buffered.
    pub fn needs_input(&self) -> (r: bool)
        ensures
            r == (self.to_send is None || self.buf@.len() == 0),
    {
        self.to_send.is_none() || self.buf.len() == 0
    }

    /// Takes in a received datagram, if one is given (its bytes, its length
    /// and its sender), and hands out what is pending: the length of the
    /// datagram to feed to the control block (the first bytes of `buf`) and
    /// its sender. Afterwards nothing is pending.
    pub fn receive(&mut self, incoming: Option<(Vec<u8>, usize, SocketAddress)>) -> (r: Option<(usize, SocketAddress)>)
        requires
            incoming matches Some(d) ==> d.1 <= d.0@.len(),
            incoming is None && old(self).to_send is Some ==> old(self).to_send.unwrap().0 <= old(self).buf@.len(),
        ensures
            incoming matches Some(d) ==> final(self).buf@ == d.0@ && r == Some((d.1, d.2)),
            incoming is None ==> final(self).buf == old(self).buf && r == old(self).to_send,
            r matches Some(p) ==> p.0 <= final(self).buf@.len(),
            final(self).to_send is None,
            final(self).fr_addr == old(self).fr_addr,
            final(self).server == old(self).server,
            final(self).init == old(self).init,
    {
        if let Some((buf_v, si, a)) = incoming {
            self.buf = buf_v;
            self.to_send = Some((si, a));
        }
        let pending = self.to_send;
        self.to_send = None;
        pending
    }

    /// Hands the first `n` bytes of the buffered segment to a reader (see
    /// `copy_segment`).
    pub fn take_segment(&mut self, n: usize, out: &mut [u8]) -> (res: Result<usize, ReadError>)
        requires
            n <= old(out)@.len() ==> n <= old(self).buf@.len(),
        ensures
            n <= old(out)@.len() ==> {
                &&& res == Ok::<usize, ReadError>(n)
                &&& final(out)@ == old(self).buf@.subrange(0, n as int) + old(out)@.subrange(
                    n as int,
                    old(out)@.len() as int,
                )
                &&& final(self).buf@ == Seq::<u8>::empty()
            },
            n > old(out)@.len() ==> {
                &&& res == Err::<usize, ReadError>(ReadError::BufferTooSmall)
                &&& final(out)@ == old(out)@
                &&& final(self).buf@ == old(self).buf@
            },
            final(self).to_send == old(self).to_send,
            final(self).fr_addr == old(self).fr_addr,
            final(self).server == old(self).server,
            final(self).init == old(self).init,
    {
        copy_segment(&mut self.buf, n, out)
    }

    /// Finishes a read once the control block's `recv` has run: nothing yet
    /// is reported as not ready; a message is handed to the reader's buffer
    /// (see `take_segment`).
    pub fn read_received(&mut self, recv: RecvOutcome, out: &mut [u8]) -> (res: Result<usize, ReadError>)
        requires
            recv matches RecvOutcome::Message(n) ==> (n <= old(out)@.len() ==> n <= old(self).buf@.len()),
        ensures
            recv is Nothing ==> {
                &&& res == Err::<usize, ReadError>(ReadError::NotReady)
                &&& final(out)@ == old(out)@
                &&& final(self).buf@ == old(self).buf@
            },
            recv matches RecvOutcome::Message(n) ==> (n <= old(out)@.len() ==> {
                &&& res == Ok::<usize, ReadError>(n)
                &&& final(out)@ == old(self).buf@.subrange(0, n as int) + old(out)@.subrange(
                    n as int,
                    old(out)@.len() as int,
                )
                &&& final(self).buf@ == Seq::<u8>::empty()
            }),
            recv matches RecvOutcome::Message(n) ==> (n > old(out)@.len() ==> {
                &&& res == Err::<usize, ReadError>(ReadError::BufferTooSmall)
                &&& final(out)@ == old(out)@
                &&& final(self).buf@ == old(self).buf@
            }),
            final(self).to_send == old(self).to_send,
            final(self).fr_addr == old(self).fr_addr,
            final(self).server == old(self).server,
            final(self).init == old(self).init,
    {
        match recv {
            RecvOutcome::Nothing => Err(ReadError::NotReady),
            RecvOutcome::Message(n) => self.take_segment(n, out),
        }
    }
}

/// The peer bookkeeping of a KCP listener: a session per peer, and the
/// remote TCP connection that a peer's traffic is relayed to.
pub struct KcpListener<T> {
    pub connections: PeerTable<KcpStream>,
    pub remote_tcps: PeerTable<T>,
}

/// Every session is kept under the address of its own peer.
pub open spec fn sessions_keyed_by_peer(conns: Map<SocketAddress, KcpStream>) -> bool {
    forall|k: SocketAddress| #[trigger] conns.contains_key(k) ==> conns[k].fr_addr == k
}

impl<T> KcpListener<T> {
    pub open spec fn wf(&self) -> bool {
        &&& self.connections.wf()
        &&& self.remote_tcps.wf()
        &&& sessions_keyed_by_peer(self.connections@)
    }

    pub fn new() -> (l: KcpListener<T>)
        ensures
            l.wf(),
            l.connections@ == Map::<SocketAddress, KcpStream>::empty(),
            l.remote_tcps@ == Map::<SocketAddress, T>::empty(),
    {
        KcpListener { connections: PeerTable::new(), remote_tcps: PeerTable::new() }
    }

    /// Forgets the session of peer `addr`.
    pub fn drop_stream(&mut self, addr: &SocketAddress)
        requires
            old(self).wf(),
        ensures
            final(self).wf(),
            final(self).connections@ == old(self).connections@.remove(*addr),
            final(self).remote_tcps@ == old(self).remote_tcps@,
    {
        self.connections.remove(addr)
    }

    /// Keeps `kcp_stream` as the session of its peer.
    pub fn update_connection(&mut self, kcp_stream: KcpStream)
        requires
            old(self).wf(),
        ensures
            final(self).wf(),
            final(self).connections@ == old(self).connections@.insert(kcp_stream.fr_addr, kcp_stream),
            final(self).remote_tcps@ == old(self).remote_tcps@,
    {
        let addr = kcp_stream.from_addr();
        self.connections.insert(addr, kcp_stream)
    }

    /// Keeps `remote` as the TCP connection that peer `addr` is relayed to.
    pub fn add_remote(&mut self, addr: SocketAddress, remote: T)
        requires
            old(self).wf(),
        ensures
            final(self).wf(),
            final(self).remote_tcps@ == old(self).remote_tcps@.insert(addr, remote),
            final(self).connections@ == old(self).connections@,
    {
        self.remote_tcps.insert(addr, remote)
    }

    /// Whether peer `addr` is already relayed to a remote TCP connection
    /// (otherwise its first data is the SOCKS-style address to connect to).
    pub fn has_remote(&self, addr: &SocketAddress) -> (r: bool)
        requires
            self.wf(),
        ensures
            r == self.remote_tcps@.contains_key(*addr),
    {
        self.remote_tcps.contains(addr)
    }

    /// What to do with a datagram of `received` bytes from `from`: a known
    /// peer's datagram is delivered when it carries payload, and otherwise
    /// waited past; an unknown peer gets a new session.
    pub fn on_datagram(&self, from: &SocketAddress, received: usize) -> (a: DatagramAction)
        requires
            self.wf(),
        ensures
            a == spec_datagram_action(self.connections@, *from, received as int),
    {
        if self.connections.contains(from) {
            if carries_payload(received) {
                DatagramAction::Deliver
            } else {
                DatagramAction::Wait
            }
        } else {
            DatagramAction::Open
        }
    }
}

/// What a listener whose sessions are `conns` does with a datagram of
/// `received` bytes from `from`.
pub open spec fn spec_datagram_action<S>(
    conns: Map<SocketAddress, S>,
    from: SocketAddress,
    received: int,
) -> DatagramAction {
    if conns.contains_key(from) {
        if spec_carries_payload(received) {
            DatagramAction::Deliver
        } else {
            DatagramAction::Wait
        }
    } else {
        DatagramAction::Open
    }
}

/// `s` is the stream state of a session with `peer` that has just taken in
/// `datagram`: the datagram is buffered and has been handed out to be fed to
/// the control block, so nothing is pending.
pub open spec fn took_in(s: KcpStream, peer: SocketAddress, server: bool, init: bool, datagram: Seq<u8>) -> bool {
    &&& s.buf@ == datagram
    &&& s.to_send is None
    &&& s.fr_addr == peer
    &&& s.server == server
    &&& s.init == init
}

/// One step of a listener's accept loop.
pub enum AcceptStep {
    /// The datagram belongs to a known session and was fed to it, but carries
    /// no payload: wait for the next datagram.
    Wait,
    /// The datagram belongs to a known session and carries payload: hand out
    /// this stream.
    Deliver(KcpStream),
    /// The datagram opens a session with a new peer: create its control block
    /// with this configuration and hand out this stream.
    Open(KcpStream, KcpConfig),
}

impl<T> KcpListener<T> {
    /// Takes in a datagram of `n` bytes from `from`, read into `recv_buf`.
    /// In every case the caller feeds the datagram (the first `n` bytes of the
    /// receive buffer) to the peer's control block. A known peer's kept
    /// session is left as it is and a copy is handed out, marked as no longer
    /// fresh; a new peer's session is kept and handed out.
    pub fn accept_datagram(&mut self, from: SocketAddress, recv_buf: &[u8], n: usize) -> (step: AcceptStep)
        requires
            old(self).wf(),
            n <= recv_buf@.len(),
            recv_buf@.len() >= 4,
        ensures
            final(self).wf(),
            final(self).remote_tcps@ == old(self).remote_tcps@,
            old(self).connections@.contains_key(from) ==> final(self).connections@ == old(
                self,
            ).connections@,
            old(self).connections@.contains_key(from) && spec_carries_payload(n as int) ==> (
            step matches AcceptStep::Deliver(s) && took_in(
                s,
                from,
                old(self).connections@[from].server,
                false,
                recv_buf@.subrange(0, n as int),
            )),
            old(self).connections@.contains_key(from) && !spec_carries_payload(n as int) ==> (
            step is Wait),
            !old(self).connections@.contains_key(from) ==> (step matches AcceptStep::Open(s, c)
                && took_in(s, from, true, true, recv_buf@.subrange(0, n as int)) && c.conv
                == le_u32(recv_buf@[0], recv_buf@[1], recv_buf@[2], recv_buf@[3])
                && standard_tuning(c)),
            !old(self).connections@.contains_key(from) ==> (final(self).connections@ == old(
                self,
            ).connections@.insert(from, final(self).connections@[from]) && took_in(
                final(self).connections@[from],
                from,
                true,
                true,
                recv_buf@.subrange(0, n as int),
            )),
    {
        let datagram = slice_to_vec(slice_subrange(recv_buf, 0, n));
        match self.connections.get(&from) {
            Some(entry) => {
                if carries_payload(n) {
                    let mut s = KcpStream::new(entry.fr_addr, entry.server);
                    s.init = false;
                    let _ = s.receive(Some((datagram, n, from)));
                    AcceptStep::Deliver(s)
                } else {
                    AcceptStep::Wait
                }
            },
            None => {
                let config = KcpConfig::for_datagram(recv_buf);
                let mut s = KcpStream::new(from, true);
                let _ = s.receive(Some((datagram, n, from)));
                let mut kept = KcpStream::new(from, true);
                let _ = kept.receive(Some((slice_to_vec(slice_subrange(recv_buf, 0, n)), n, from)));
                let ghost kept_v = kept;
                self.update_connection(kept);
                assert(self.connections@[from] == kept_v);
                AcceptStep::Open(s, config)
            },
        }
    }
}

/// A known peer's datagram is delivered exactly when it is longer than the
/// 24-byte KCP segment header, and waited past otherwise; an unknown peer's
/// datagram always opens a session.
pub proof fn lemma_delivery_threshold<S>(conns: Map<SocketAddress, S>, from: SocketAddress, received: int)
    ensures
        spec_carries_payload(received) <==> received >= 25,
        conns.contains_key(from) && received >= 25 ==> spec_datagram_action(conns, from, received)
            == DatagramAction::Deliver,
        conns.contains_key(from) && received <= 24 ==> spec_datagram_action(conns, from, received)
            == DatagramAction::Wait,
        !conns.contains_key(from) ==> spec_datagram_action(conns, from, received)
            == DatagramAction::Open,
{
}

/// Once a peer's session is kept, its next datagram is never taken for a
/// new peer; once it is dropped, the next datagram opens a new session.
/// Other peers are not affected either way.
pub proof fn lemma_session_lifecycle<S>(
    conns: Map<SocketAddress, S>,
    peer: SocketAddress,
    stream: S,
    other: SocketAddress,
    received: int,
)
    requires
        other != peer,
    ensures
        spec_datagram_action(conns.insert(peer, stream), peer, received) != DatagramAction::Open,
        spec_datagram_action(conns.remove(peer), peer, received) == DatagramAction::Open,
        spec_datagram_action(conns.insert(peer, stream), other, received)
            == spec_datagram_action(conns, other, received),
        spec_datagram_action(conns.remove(peer), other, received) == spec_datagram_action(
            conns,
            other,
            received,
        ),
{
}

} // verus!
