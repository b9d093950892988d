pub mod args;
pub mod cluster;
pub mod ids;
pub mod oracle;
pub mod rng;
pub mod select;
pub mod wire;

use vstd::prelude::*;

verus! {

/// The server a consumer is bound to: consumers are spread round-robin
/// across the cluster's servers.
pub fn bound_server(id: usize, nservers: usize) -> (r: usize)
    requires
        nservers >= 1,
    ensures
        r == id % nservers,
{
    id % nservers
}

} // verus!

