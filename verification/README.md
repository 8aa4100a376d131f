# rust_net_protocols

A small networking toolkit — a SOCKS5 server handshake with its address
codec, and the bookkeeping of KCP sessions over UDP — whose logic is written
in Verus and proved against its contracts.

Layout:

- `src/socks5/` — reply codes, errors, the greeting and request checks
  (`handshake.rs`), the binary address codec with its round-trip laws
  (`address.rs`), and reading addresses from text (`text_address.rs`).
- `src/kcp/` — the KCP clock, the session tuning, the per-peer table of a
  listener, and what a listener and a stream decide about received datagrams.
- `src/net.rs`, `src/wire.rs`, `src/text.rs`, `src/utils.rs` — socket
  addresses as plain values, the `bytes`/`byteorder` calls, text helpers and
  console status lines.
- `app/` — the asynchronous I/O (tokio) around the library: the SOCKS5
  acceptor, reading and writing addresses on streams, and the TCP relay.
- `tests/` — tests on concrete values.

The KCP control block that the listener and streams drive (the `kcb`
module, a separate implementation of the KCP protocol) is not part of this
source tree, so the KCP socket I/O — binding the UDP socket, the accept
loop, connecting, and the async read/write glue — cannot be built and is not
in `app/`. What those parts decide is in `src/kcp/` (`KcpListener::
accept_datagram`, `KcpConfig`, `KcpStream`), verified, and exercised only by
the tests.
