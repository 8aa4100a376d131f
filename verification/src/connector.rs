//! The TCP side of a relay: the stream that a client's traffic is forwarded
//! to is opened at the address the client names first (see
//! `Address::decode`), and the two streams are then copied into each other.

use vstd::prelude::*;

verus! {

/// Opens and drives the TCP connection that a relayed client asked for.
pub struct TcpConnector;

} // verus!
