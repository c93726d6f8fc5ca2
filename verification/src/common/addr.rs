use vstd::prelude::*;

verus! {

/// A socket address held as plain values, so that verified code can compare
/// and store it. An IPv4 address keeps its four octets in the low 32 bits of
/// `ip`, with `is_v6` false and `flowinfo` and `scope_id` zero.
#[derive(Clone, Copy, Debug, PartialEq, Eq, Structural, Hash)]
pub struct PeerAddr {
    pub is_v6: bool,
    pub ip: u128,
    pub port: u16,
    pub flowinfo: u32,
    pub scope_id: u32,
}

impl PeerAddr {
    /// Whether two addresses name the same peer.
    pub fn same(&self, other: &PeerAddr) -> (r: bool)
        ensures
            r <==> *self == *other,
    {
        *self == *other
    }
}

} // verus!
