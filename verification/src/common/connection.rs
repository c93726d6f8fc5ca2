use vstd::prelude::*;

use crate::common::event::UDP_PACKET_SIZE;

verus! {

/// tokio's UDP socket, carried through unopened.
#[verifier::external_type_specification]
#[verifier::external_body]
pub struct ExTokioUdpSocket(tokio::net::UdpSocket);

/// A UDP socket with a datagram-sized buffer to read into.
pub struct Connection {
    buffer: [u8; 512],
    socket: tokio::net::UdpSocket,
}

impl Connection {
    /// The bytes of the read buffer.
    pub closed spec fn buffer(&self) -> Seq<u8> {
        self.buffer@
    }

    /// The socket it reads from and writes to.
    pub closed spec fn socket(&self) -> tokio::net::UdpSocket {
        self.socket
    }

    /// A connection over `socket` with an all-zero buffer of one datagram.
    pub fn new(socket: tokio::net::UdpSocket) -> (c: Connection)
        ensures
            c.buffer().len() == UDP_PACKET_SIZE,
            forall|i: int| 0 <= i < c.buffer().len() ==> c.buffer()[i] == 0,
            c.socket() == socket,
    {
        let buffer = [0u8; 512];
        Connection { buffer, socket }
    }
}

} // verus!
