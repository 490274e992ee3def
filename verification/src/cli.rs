//! Command-line arguments of the node simulator.

use vstd::prelude::*;

verus! {

/// Arguments of the node simulator.
#[derive(Clone, Debug, PartialEq, Eq)]
pub struct Args {
    /// Node ids to use.
    pub node_ids: Vec<u16>,
    /// Hostname or IP address of the broker to connect to.
    pub broker_host: String,
}

} // verus!
