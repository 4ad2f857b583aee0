//! Network endpoints of cells, as plain numbers.

use vstd::prelude::*;

verus! {

/// Where a cell listens: an internet address and a port.
///
/// Addresses are held as the number that their bytes spell in network order.
#[derive(Clone, Copy, Debug, PartialEq, Eq, Hash, Structural)]
pub enum Endpoint {
    /// An IPv4 address and port.
    V4 { addr4: u32, port: u16 },
    /// An IPv6 address and port, with flow information and scope.
    V6 { addr6: u128, port: u16, flow: u32, scope: u32 },
}

} // verus!
