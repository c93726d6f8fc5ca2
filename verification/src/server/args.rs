use vstd::prelude::*;

use crate::common::event::DEFAULT_ADDRESS;

verus! {

/// The chat server's command line: the address to listen on.
#[derive(Clone, Debug, PartialEq, Eq)]
pub struct Args {
    /// An address, e.g., 127.0.0.1:8080
    pub address: String,
}

impl Default for Args {
    /// Listening on `DEFAULT_ADDRESS`.
    fn default() -> (a: Args)
        ensures
            a.address@ == DEFAULT_ADDRESS@,
    {
        Args { address: String::from_str(DEFAULT_ADDRESS) }
    }
}

/// How many sockets the server keeps for writing to its peers.
pub const WRITER_POOL_SIZE: usize = 10;

/// The address that a socket is bound to: the one given, or any interface on
/// a port the system picks.
pub fn bind_address(addr: Option<String>) -> (a: String)
    ensures
        addr matches Some(given) ==> a@ == given@,
        addr is None ==> a@ == "0.0.0.0:0"@,
{
    match addr {
        None => String::from_str("0.0.0.0:0"),
        Some(a) => a,
    }
}

} // verus!
