//! A backend that runs inside the gateway's own process.
use vstd::prelude::*;

verus! {

/// The backend that is to run the inference engine inside the gateway's own
/// process. It holds no state yet, and none of the gateway's operations is
/// defined for it.
#[derive(Clone, Copy, Debug, PartialEq, Eq, Structural)]
pub struct BinaryClient;

impl BinaryClient {
    /// The client.
    pub fn new() -> (client: Self)
        ensures
            client == BinaryClient,
    {
        BinaryClient
    }
}

impl Default for BinaryClient {
    fn default() -> (client: Self)
        ensures
            client == BinaryClient,
    {
        Self::new()
    }
}

} // verus!
