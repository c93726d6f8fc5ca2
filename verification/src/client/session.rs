use vstd::prelude::*;

use crate::common::addr::PeerAddr;
use crate::common::event::{FromServer, FromServerView, ToServer, ToServerView};
use crate::common::text::{trim, trimmed};

verus! {

/// Why a chat client stops.
#[derive(Clone, Copy, Debug, PartialEq, Eq, Structural)]
pub enum ClientError {
    /// The name entered was empty once trimmed.
    EmptyName,
    /// The server did not answer the join in time.
    Timeout,
}

impl ClientError {
    /// The message that tells the user what went wrong.
    pub fn describe(&self) -> (s: String)
        ensures
            *self == ClientError::EmptyName ==> s@ == "name cannot be empty"@,
            *self == ClientError::Timeout ==> s@ == "deadline has elapsed"@,
    {
        match self {
            ClientError::EmptyName => String::from_str("name cannot be empty"),
            ClientError::Timeout => String::from_str("deadline has elapsed"),
        }
    }
}

/// What a chat client is: where it sits, where the server is, and the name
/// it chats under.
pub struct ChatClientView {
    pub local_address: PeerAddr,
    pub remote_address: PeerAddr,
    pub name: Seq<char>,
}

/// The part of a chat client that decides: its addresses and its name.
pub struct Client {
    local_address: PeerAddr,
    remote_address: PeerAddr,
    name: String,
}

impl View for Client {
    type V = ChatClientView;

    closed spec fn view(&self) -> ChatClientView {
        ChatClientView {
            local_address: self.local_address,
            remote_address: self.remote_address,
            name: self.name@,
        }
    }
}

/// How the join handshake ended.
#[derive(Clone, Debug, PartialEq, Eq)]
pub enum JoinEvent {
    /// The user asked to shut down before an answer came.
    Shutdown,
    /// An answer came in time: the message read, or `None` where the read failed.
    Answered { msg: Option<FromServer> },
    /// No answer came in time.
    TimedOut,
}

/// How a join handshake ended, with messages as sequences of characters.
pub enum JoinEventView {
    Shutdown,
    Answered { msg: Option<FromServerView> },
    TimedOut,
}

impl View for JoinEvent {
    type V = JoinEventView;

    open spec fn view(&self) -> JoinEventView {
        match self {
            JoinEvent::Shutdown => JoinEventView::Shutdown,
            JoinEvent::Answered { msg } => JoinEventView::Answered {
                msg: match msg {
                    Some(m) => Some(m@),
                    None => None,
                },
            },
            JoinEvent::TimedOut => JoinEventView::TimedOut,
        }
    }
}

/// What a running chat client sees.
#[derive(Clone, Debug, PartialEq, Eq)]
pub enum ClientEvent {
    /// The user asked to shut down.
    Shutdown,
    /// The user typed `line`.
    Line { line: String },
    /// `msg` arrived from the server.
    Received { msg: FromServer },
    /// A datagram arrived that could not be read as a message.
    ReadFailed,
}

/// What a running chat client sees, with text as sequences of characters.
pub enum ClientEventView {
    Shutdown,
    Line { line: Seq<char> },
    Received { msg: FromServerView },
    ReadFailed,
}

impl View for ClientEvent {
    type V = ClientEventView;

    open spec fn view(&self) -> ClientEventView {
        match self {
            ClientEvent::Shutdown => ClientEventView::Shutdown,
            ClientEvent::Line { line } => ClientEventView::Line { line: line@ },
            ClientEvent::Received { msg } => ClientEventView::Received { msg: msg@ },
            ClientEvent::ReadFailed => ClientEventView::ReadFailed,
        }
    }
}

/// What a chat client asks its surroundings to do.
#[derive(Clone, Debug, PartialEq, Eq)]
pub enum ClientAction {
    /// Write `msg` to `to`; where `must_succeed`, a failed write ends the
    /// client with that error, else it is ignored.
    Send { to: PeerAddr, msg: ToServer, must_succeed: bool },
    /// Print `line` for the user.
    Print { line: String },
    /// End the session normally.
    Finish,
}

/// What a `ClientAction` asks for, with text as sequences of characters.
pub enum ClientActionView {
    Send { to: PeerAddr, msg: ToServerView, must_succeed: bool },
    Print { line: Seq<char> },
    Finish,
}

impl View for ClientAction {
    type V = ClientActionView;

    open spec fn view(&self) -> ClientActionView {
        match self {
            ClientAction::Send { to, msg, must_succeed } => ClientActionView::Send {
                to: *to,
                msg: msg@,
                must_succeed: *must_succeed,
            },
            ClientAction::Print { line } => ClientActionView::Print { line: line@ },
            ClientAction::Finish => ClientActionView::Finish,
        }
    }
}

/// The views of a sequence of client actions, in order.
pub open spec fn client_actions_view(actions: Seq<ClientAction>) -> Seq<ClientActionView> {
    actions.map_values(|a: ClientAction| a@)
}

/// What the client does about `e`, in order.
pub open spec fn client_next(c: ChatClientView, e: ClientEventView) -> Seq<ClientActionView> {
    match e {
        ClientEventView::Shutdown => seq![
            ClientActionView::Send {
                to: c.remote_address,
                msg: ToServerView::Leave,
                must_succeed: false,
            },
            ClientActionView::Finish,
        ],
        ClientEventView::Line { line } => seq![
            ClientActionView::Send {
                to: c.remote_address,
                msg: ToServerView::Message { message: line },
                must_succeed: false,
            },
        ],
        ClientEventView::Received { msg } => match msg {
            FromServerView::Message { message } => seq![ClientActionView::Print { line: message }],
            FromServerView::Shutdown => seq![
                ClientActionView::Print { line: "shutting down!"@ },
                ClientActionView::Finish,
            ],
            FromServerView::Heartbeat => seq![
                ClientActionView::Send {
                    to: c.remote_address,
                    msg: ToServerView::KeepAlive,
                    must_succeed: true,
                },
            ],
            FromServerView::Ack => seq![ClientActionView::Print { line: "ack"@ }],
            FromServerView::Ping => Seq::empty(),
        },
        ClientEventView::ReadFailed => Seq::empty(),
    }
}

/// What the join handshake prints, if anything, and how it ends.
pub open spec fn join_result(e: JoinEventView) -> (Option<Seq<char>>, Result<(), ClientError>) {
    match e {
        JoinEventView::Shutdown => (Some("Shutting down"@), Ok(())),
        JoinEventView::Answered { msg } => match msg {
            Some(FromServerView::Ack) => (Some("Connection established!"@), Ok(())),
            _ => (None, Ok(())),
        },
        JoinEventView::TimedOut => (Some("Timeout expired"@), Err(ClientError::Timeout)),
    }
}

/// The name that the user typed on `line`: the line without its leading and
/// trailing whitespace.
pub fn read_name(line: &str) -> (name: String)
    ensures
        name@ == trimmed(line@),
{
    String::from_str(trim(line))
}

impl Client {
    /// A client at `local_address` that chats as `name` with the server at
    /// `remote_address`; an empty name is refused.
    pub fn new(local_address: PeerAddr, remote_address: PeerAddr, name: String) -> (r: Result<
        Client,
        ClientError,
    >)
        ensures
            name@.len() == 0 <==> r is Err,
            r matches Err(e) ==> e == ClientError::EmptyName,
            r matches Ok(c) ==> c@ == (ChatClientView { local_address, remote_address, name: name@ }),
    {
        if name.as_str().is_empty() {
            return Err(ClientError::EmptyName);
        }
        Ok(Client { local_address, remote_address, name })
    }

    /// The client's own address.
    pub fn local_address(&self) -> (a: PeerAddr)
        ensures
            a == self@.local_address,
    {
        self.local_address
    }

    /// The server's address.
    pub fn remote_address(&self) -> (a: PeerAddr)
        ensures
            a == self@.remote_address,
    {
        self.remote_address
    }

    /// The name the client chats under.
    pub fn name(&self) -> (n: String)
        ensures
            n@ == self@.name,
    {
        self.name.clone()
    }

    /// The request that opens the session, for the server.
    pub fn join_request(&self) -> (m: ToServer)
        ensures
            m@ == (ToServerView::Join { name: self@.name }),
    {
        ToServer::join(self.name.clone())
    }

    /// What the join handshake prints and how it ends. Only a timeout fails:
    /// an answer other than `Ack`, or one that could not be read, still lets
    /// the session go on.
    pub fn join_outcome(event: &JoinEvent) -> (r: (Option<String>, Result<(), ClientError>))
        ensures
            (match r.0 {
                Some(s) => Some(s@),
                None => None,
            }, r.1) == join_result(event@),
    {
        match event {
            JoinEvent::Shutdown => (Some(String::from_str("Shutting down")), Ok(())),
            JoinEvent::Answered { msg } => match msg {
                Some(FromServer::Ack) => (Some(String::from_str("Connection established!")), Ok(())),
                _ => (None, Ok(())),
            },
            JoinEvent::TimedOut => (Some(String::from_str("Timeout expired")), Err(ClientError::Timeout)),
        }
    }

    /// Takes `event` and returns what the client does about it, in order.
    pub fn handle(&self, event: ClientEvent) -> (v: Vec<ClientAction>)
        ensures
            client_actions_view(v@) == client_next(self@, event@),
    {
        let mut v: Vec<ClientAction> = Vec::new();
        match event {
            ClientEvent::Shutdown => {
                v.push(ClientAction::Send { to: self.remote_address, msg: ToServer::Leave, must_succeed: false });
                v.push(ClientAction::Finish);
            },
            ClientEvent::Line { line } => {
                v.push(ClientAction::Send {
                    to: self.remote_address,
                    msg: ToServer::Message { message: line },
                    must_succeed: false,
                });
            },
            ClientEvent::Received { msg } => match msg {
                FromServer::Message { message } => {
                    v.push(ClientAction::Print { line: message });
                },
                FromServer::Shutdown => {
                    v.push(ClientAction::Print { line: String::from_str("shutting down!") });
                    v.push(ClientAction::Finish);
                },
                FromServer::Heartbeat => {
                    v.push(ClientAction::Send {
                        to: self.remote_address,
                        msg: ToServer::KeepAlive,
                        must_succeed: true,
                    });
                },
                FromServer::Ack => {
                    v.push(ClientAction::Print { line: String::from_str("ack") });
                },
                FromServer::Ping => {},
            },
            ClientEvent::ReadFailed => {},
        }
        assert(client_actions_view(v@) =~= client_next(self@, event@));
        v
    }
}

} // verus!
