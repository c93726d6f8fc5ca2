use vstd::prelude::*;

verus! {

/// The chat client's command line: the server's address, and a port.
#[derive(Clone, Debug, PartialEq, Eq)]
pub struct Args {
    /// The server's address, e.g. 127.0.0.1:7272
    pub address: String,
    pub port: u16,
}

} // verus!
