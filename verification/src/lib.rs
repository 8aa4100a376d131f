//! SOCKS5 handshake and address codec, KCP session bookkeeping and a few
//! console helpers, with their behaviour stated as Verus contracts.

pub mod connector;
pub mod kcp;
pub mod net;
pub mod wire;
pub mod text;
pub mod utils;
pub mod socks5;
