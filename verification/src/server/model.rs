use vstd::prelude::*;

use crate::common::addr::PeerAddr;
use crate::common::event::{FromServerView, ToServerView};
use crate::server::action::ServerActionView;
use crate::server::handle::ClientView;
use crate::server::time::EXPIRATION_TIME;

verus! {

/// The server's state: its own address and the joined peers, in the order
/// in which they are served.
pub struct ProcessorView {
    pub server_addr: PeerAddr,
    pub clients: Seq<ClientView>,
}

/// What happened to the server.
pub enum ServerEventView {
    /// The heartbeat timer fired at `now`.
    Tick { now: u64 },
    /// The server is asked to shut down.
    Shutdown,
    /// `message` arrived from `from` at `now`.
    Received { message: ToServerView, from: PeerAddr, now: u64 },
}

/// No two joined peers share an address.
pub open spec fn distinct_addrs(clients: Seq<ClientView>) -> bool {
    forall|i: int, j: int|
        0 <= i < clients.len() && 0 <= j < clients.len() && i != j ==> clients[i].addr
            != clients[j].addr
}

/// `addr` is a joined peer.
pub open spec fn is_member(clients: Seq<ClientView>, addr: PeerAddr) -> bool {
    exists|i: int| 0 <= i < clients.len() && clients[i].addr == addr
}

/// The place of the joined peer `addr` among the clients.
pub open spec fn index_of_peer(clients: Seq<ClientView>, addr: PeerAddr) -> int {
    choose|i: int| 0 <= i < clients.len() && clients[i].addr == addr
}

/// Peers other than `from`.
pub open spec fn others(from: PeerAddr) -> spec_fn(ClientView) -> bool {
    |c: ClientView| c.addr != from
}

/// Peers whose expiry lies before `now`.
pub open spec fn expired(now: u64) -> spec_fn(ClientView) -> bool {
    |c: ClientView| c.expires < now
}

/// Peers whose expiry does not lie before `now`.
pub open spec fn alive(now: u64) -> spec_fn(ClientView) -> bool {
    |c: ClientView| !(c.expires < now)
}

/// `msg` handed to every peer but `from`, in the clients' order.
pub open spec fn deliveries(
    clients: Seq<ClientView>,
    from: PeerAddr,
    msg: FromServerView,
) -> Seq<ServerActionView> {
    clients.filter(others(from)).map_values(
        |c: ClientView| ServerActionView::Deliver { to: c.addr, msg: msg },
    )
}

/// What dropping an expired peer `c` takes: a line on the console, and a
/// `Shutdown` for the peer unless it has the server's own address.
pub open spec fn kill(c: ClientView, server_addr: PeerAddr) -> Seq<ServerActionView> {
    seq![ServerActionView::Log { line: "Killing "@ + c.name }] + if c.addr != server_addr {
        seq![ServerActionView::Deliver { to: c.addr, msg: FromServerView::Shutdown }]
    } else {
        Seq::empty()
    }
}

/// The kills of all peers expired at `now`, in the clients' order.
pub open spec fn kills(clients: Seq<ClientView>, server_addr: PeerAddr, now: u64) -> Seq<
    ServerActionView,
>
    decreases clients.len(),
{
    if clients.len() == 0 {
        Seq::empty()
    } else {
        kills(clients.drop_last(), server_addr, now) + if clients.last().expires < now {
            kill(clients.last(), server_addr)
        } else {
            Seq::empty()
        }
    }
}

/// The handles of all peers expired at `now` dropped, in the clients' order.
pub open spec fn disconnects(clients: Seq<ClientView>, now: u64) -> Seq<ServerActionView> {
    clients.filter(expired(now)).map_values(
        |c: ClientView| ServerActionView::Disconnect { addr: c.addr },
    )
}

/// The heartbeat at `now`: every peer but the server's own address gets a
/// `Heartbeat`; then every expired peer is killed, and finally dropped.
pub open spec fn on_tick(s: ProcessorView, now: u64) -> (ProcessorView, Seq<ServerActionView>) {
    (
        ProcessorView { clients: s.clients.filter(alive(now)), ..s },
        deliveries(s.clients, s.server_addr, FromServerView::Heartbeat) + kills(
            s.clients,
            s.server_addr,
            now,
        ) + disconnects(s.clients, now),
    )
}

/// Shutting down: every peer but the server's own address gets a `Shutdown`;
/// the table stays as it is.
pub open spec fn on_shutdown(s: ProcessorView) -> (ProcessorView, Seq<ServerActionView>) {
    (
        s,
        seq![ServerActionView::Log { line: "server processor shutting down"@ }] + deliveries(
            s.clients,
            s.server_addr,
            FromServerView::Shutdown,
        ),
    )
}

/// The table after `from` joined as `name` at `now`: a peer already there
/// keeps its place and gets the new record, a new one comes last.
pub open spec fn joined(s: ProcessorView, from: PeerAddr, name: Seq<char>, now: u64) -> Seq<
    ClientView,
> {
    let h = ClientView { addr: from, name: name, expires: (now + EXPIRATION_TIME) as u64 };
    if is_member(s.clients, from) {
        s.clients.update(index_of_peer(s.clients, from), h)
    } else {
        s.clients.push(h)
    }
}

/// A join: acknowledged to the joiner directly, announced to every other peer.
pub open spec fn on_join(s: ProcessorView, from: PeerAddr, name: Seq<char>, now: u64) -> (
    ProcessorView,
    Seq<ServerActionView>,
) {
    let clients = joined(s, from, name, now);
    (
        ProcessorView { clients: clients, ..s },
        seq![
            ServerActionView::Log { line: "Sending ACK to "@ + name + " for joining"@ },
            ServerActionView::Connect { addr: from },
            ServerActionView::Reply { to: from, msg: FromServerView::Ack },
            ServerActionView::Log { line: name + " joined"@ },
        ] + deliveries(clients, from, FromServerView::Message { message: name + " joined"@ }),
    )
}

/// A chat line from a joined peer goes to every other peer, prefixed with
/// the sender's name; one from a stranger is dropped.
pub open spec fn on_message(s: ProcessorView, from: PeerAddr, text: Seq<char>) -> (
    ProcessorView,
    Seq<ServerActionView>,
) {
    if is_member(s.clients, from) {
        let name = s.clients[index_of_peer(s.clients, from)].name;
        (s, deliveries(s.clients, from, FromServerView::Message { message: name + ": "@ + text }))
    } else {
        (s, Seq::empty())
    }
}

/// A joined peer that leaves is dropped and its leaving announced to the
/// others; a stranger's leaving changes nothing.
pub open spec fn on_leave(s: ProcessorView, from: PeerAddr) -> (
    ProcessorView,
    Seq<ServerActionView>,
) {
    if is_member(s.clients, from) {
        let k = index_of_peer(s.clients, from);
        let line = s.clients[k].name + " left"@;
        let clients = s.clients.remove(k);
        (
            ProcessorView { clients: clients, ..s },
            seq![ServerActionView::Log { line: line }] + deliveries(
                clients,
                from,
                FromServerView::Message { message: line },
            ) + seq![ServerActionView::Disconnect { addr: from }],
        )
    } else {
        (s, Seq::empty())
    }
}

/// A keep-alive pushes the sender's expiry one `EXPIRATION_TIME` further out.
pub open spec fn on_keep_alive(s: ProcessorView, from: PeerAddr) -> (
    ProcessorView,
    Seq<ServerActionView>,
) {
    if is_member(s.clients, from) {
        let k = index_of_peer(s.clients, from);
        let c = s.clients[k];
        let c2 = ClientView { expires: (c.expires + EXPIRATION_TIME) as u64, ..c };
        (ProcessorView { clients: s.clients.update(k, c2), ..s }, Seq::empty())
    } else {
        (s, Seq::empty())
    }
}

/// The state after `e` and what the server does about it, in order.
pub open spec fn next(s: ProcessorView, e: ServerEventView) -> (
    ProcessorView,
    Seq<ServerActionView>,
) {
    match e {
        ServerEventView::Tick { now } => on_tick(s, now),
        ServerEventView::Shutdown => on_shutdown(s),
        ServerEventView::Received { message, from, now } => match message {
            ToServerView::Join { name } => on_join(s, from, name, now),
            ToServerView::Message { message } => on_message(s, from, message),
            ToServerView::Leave => on_leave(s, from),
            ToServerView::KeepAlive => on_keep_alive(s, from),
        },
    }
}

/// The instants that `e` computes fit in 64 bits.
pub open spec fn can_step(s: ProcessorView, e: ServerEventView) -> bool {
    match e {
        ServerEventView::Received { message, from, now } => match message {
            ToServerView::Join { .. } => now + EXPIRATION_TIME <= u64::MAX,
            ToServerView::KeepAlive => is_member(s.clients, from) ==> s.clients[index_of_peer(
                s.clients,
                from,
            )].expires + EXPIRATION_TIME <= u64::MAX,
            _ => true,
        },
        _ => true,
    }
}

} // verus!
