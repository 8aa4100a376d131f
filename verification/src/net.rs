//! IP socket addresses held as plain values.

use vstd::prelude::*;

verus! {

/// An IP socket address: an IPv4 address and port, or an IPv6 address,
/// port, flow label and scope id.
#[derive(Clone, Copy, Debug, PartialEq, Eq, Hash)]
pub enum SocketAddress {
    V4 { ip: [u8; 4], port: u16 },
    V6 { segments: [u16; 8], port: u16, flowinfo: u32, scope_id: u32 },
}

impl SocketAddress {
    /// Whether two socket addresses are the same.
    pub fn same_as(&self, other: &SocketAddress) -> (r: bool)
        ensures
            r == (*self == *other),
    {
        broadcast use vstd::array::axiom_array_ext_equal;

        match (self, other) {
            (SocketAddress::V4 { ip: a, port: p }, SocketAddress::V4 { ip: b, port: q }) => {
                let r = a[0] == b[0] && a[1] == b[1] && a[2] == b[2] && a[3] == b[3] && *p == *q;
                proof {
                    if r {
                        assert(*a =~= *b);
                    }
                }
                r
            },
            (
                SocketAddress::V6 { segments: a, port: p, flowinfo: f, scope_id: s },
                SocketAddress::V6 { segments: b, port: q, flowinfo: g, scope_id: t },
            ) => {
                let mut i: usize = 0;
                #[verifier::loop_isolation(false)]
                while i < 8
                    invariant
                        0 <= i <= 8,
                        forall|k: int| 0 <= k < i ==> a[k] == b[k],
                    decreases 8 - i,
                {
                    if a[i] != b[i] {
                        return false;
                    }
                    i = i + 1;
                }
                assert(*a =~= *b);
                *p == *q && *f == *g && *s == *t
            },
            _ => false,
        }
    }
}

} // verus!
