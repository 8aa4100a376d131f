//! KCP: the session clock, the tuning that sessions are opened with, the
//! listener's table of peers and the decisions taken on received datagrams.

pub mod clock;
pub mod peers;
pub mod session;

pub use clock::clock;
