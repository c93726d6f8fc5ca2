use vstd::prelude::*;

verus! {

/// The largest datagram that either side reads, in bytes.
pub const UDP_PACKET_SIZE: u16 = 512;

/// The address the server listens on when none is given.
pub const DEFAULT_ADDRESS: &'static str = "0.0.0.0:7272";

/// A message that a client sends to the server.
#[derive(Clone, Debug, PartialEq, Eq)]
pub enum ToServer {
    Join { name: String },
    Message { message: String },
    Leave,
    KeepAlive,
}

/// A message that the server sends to a client.
#[derive(Clone, Debug, PartialEq, Eq)]
pub enum FromServer {
    Message { message: String },
    Ping,
    Heartbeat,
    Ack,
    Shutdown,
}

/// What a `ToServer` says, with its text as a sequence of characters.
pub enum ToServerView {
    Join { name: Seq<char> },
    Message { message: Seq<char> },
    Leave,
    KeepAlive,
}

/// What a `FromServer` says, with its text as a sequence of characters.
pub enum FromServerView {
    Message { message: Seq<char> },
    Ping,
    Heartbeat,
    Ack,
    Shutdown,
}

impl View for ToServer {
    type V = ToServerView;

    open spec fn view(&self) -> ToServerView {
        match self {
            ToServer::Join { name } => ToServerView::Join { name: name@ },
            ToServer::Message { message } => ToServerView::Message { message: message@ },
            ToServer::Leave => ToServerView::Leave,
            ToServer::KeepAlive => ToServerView::KeepAlive,
        }
    }
}

impl View for FromServer {
    type V = FromServerView;

    open spec fn view(&self) -> FromServerView {
        match self {
            FromServer::Message { message } => FromServerView::Message { message: message@ },
            FromServer::Ping => FromServerView::Ping,
            FromServer::Heartbeat => FromServerView::Heartbeat,
            FromServer::Ack => FromServerView::Ack,
            FromServer::Shutdown => FromServerView::Shutdown,
        }
    }
}

impl ToServer {
    /// The request to join the chat under `name`.
    pub fn join(name: String) -> (r: ToServer)
        ensures
            r@ == (ToServerView::Join { name: name@ }),
    {
        ToServer::Join { name }
    }

    /// A copy of this message.
    pub fn duplicate(&self) -> (r: ToServer)
        ensures
            r@ == self@,
    {
        match self {
            ToServer::Join { name } => ToServer::Join { name: name.clone() },
            ToServer::Message { message } => ToServer::Message { message: message.clone() },
            ToServer::Leave => ToServer::Leave,
            ToServer::KeepAlive => ToServer::KeepAlive,
        }
    }
}

impl FromServer {
    /// A chat line for the clients to show.
    pub fn message(message: String) -> (r: FromServer)
        ensures
            r@ == (FromServerView::Message { message: message@ }),
    {
        FromServer::Message { message }
    }

    /// A copy of this message.
    pub fn duplicate(&self) -> (r: FromServer)
        ensures
            r@ == self@,
    {
        match self {
            FromServer::Message { message } => FromServer::Message { message: message.clone() },
            FromServer::Ping => FromServer::Ping,
            FromServer::Heartbeat => FromServer::Heartbeat,
            FromServer::Ack => FromServer::Ack,
            FromServer::Shutdown => FromServer::Shutdown,
        }
    }
}

} // verus!
