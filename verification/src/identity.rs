//! Who a request comes from.

use vstd::prelude::*;

verus! {

/// The network address of the remote peer, which keys the rate limiter.
/// The two address families never compare equal, whatever their bits.
#[derive(Clone, Copy, Debug, PartialEq, Eq, Hash, Structural)]
pub enum ClientIdentity {
    /// An IPv4 address, most significant octet first.
    V4(u32),
    /// An IPv6 address, most significant segment first.
    V6(u128),
}

} // verus!
