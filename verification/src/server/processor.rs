use vstd::prelude::*;

use crate::common::addr::PeerAddr;
use crate::common::event::{FromServer, FromServerView, ToServer};
use crate::server::action::{actions_view, lemma_actions_view_push, ServerAction, ServerActionView};
use crate::server::facts::{
    lemma_actions_view_add, lemma_deliveries_push, lemma_disconnects_push, lemma_filter_distinct,
    lemma_index_of_peer, lemma_kills_push, lemma_push_distinct, lemma_remove_distinct,
    lemma_take_succ, lemma_update_distinct,
};
use crate::server::handle::{ClientHandle, ClientView};
use crate::server::model::{
    alive, can_step, deliveries, disconnects, distinct_addrs, index_of_peer, is_member,
    joined, kill, kills, next, on_join, on_keep_alive, on_leave, on_message, on_shutdown, on_tick,
    ProcessorView, ServerEventView,
};
use crate::server::time::EXPIRATION_TIME;

verus! {

broadcast use vstd::seq_lib::group_seq_properties;

/// What happened to the server.
#[derive(Clone, Debug, PartialEq, Eq)]
pub enum ServerEvent {
    /// The heartbeat timer fired at `now`.
    Tick { now: u64 },
    /// The server is asked to shut down.
    Shutdown,
    /// `message` arrived from `from` at `now`.
    Received { message: ToServer, from: PeerAddr, now: u64 },
}

impl View for ServerEvent {
    type V = ServerEventView;

    open spec fn view(&self) -> ServerEventView {
        match self {
            ServerEvent::Tick { now } => ServerEventView::Tick { now: *now },
            ServerEvent::Shutdown => ServerEventView::Shutdown,
            ServerEvent::Received { message, from, now } => ServerEventView::Received {
                message: message@,
                from: *from,
                now: *now,
            },
        }
    }
}

/// The server's table of joined peers, which decides what each event makes
/// the server do.
pub struct Processor {
    server_addr: PeerAddr,
    clients: Vec<ClientHandle>,
}

impl View for Processor {
    type V = ProcessorView;

    closed spec fn view(&self) -> ProcessorView {
        ProcessorView {
            server_addr: self.server_addr,
            clients: self.clients@.map_values(|h: ClientHandle| h@),
        }
    }
}

impl Processor {
    /// No two joined peers share an address.
    pub open spec fn wf(&self) -> bool {
        distinct_addrs(self@.clients)
    }

    /// The table of a server at `server_addr` that nobody has joined yet.
    pub fn new(server_addr: PeerAddr) -> (p: Processor)
        ensures
            p.wf(),
            p@ == (ProcessorView { server_addr, clients: Seq::empty() }),
    {
        let p = Processor { server_addr, clients: Vec::new() };
        assert(p@.clients =~= Seq::<ClientView>::empty());
        p
    }

    /// The server's own address.
    pub fn server_addr(&self) -> (a: PeerAddr)
        ensures
            a == self@.server_addr,
    {
        self.server_addr
    }

    /// The number of joined peers.
    pub fn len(&self) -> (n: usize)
        ensures
            n == self@.clients.len(),
    {
        self.clients.len()
    }

    /// The record of the `i`-th joined peer.
    pub fn peer(&self, i: usize) -> (h: &ClientHandle)
        requires
            i < self@.clients.len(),
        ensures
            h@ == self@.clients[i as int],
    {
        &self.clients[i]
    }

    /// Where the peer at `addr` stands in the table, if it joined.
    pub fn position(&self, addr: PeerAddr) -> (r: Option<usize>)
        requires
            self.wf(),
        ensures
            r is None <==> !is_member(self@.clients, addr),
            r matches Some(i) ==> i < self@.clients.len() && i == index_of_peer(
                self@.clients,
                addr,
            ) && self@.clients[i as int].addr == addr,
    {
        let mut i: usize = 0;
        while i < self.clients.len()
            invariant
                i <= self.clients.len(),
                self.wf(),
                forall|j: int| 0 <= j < i ==> self@.clients[j].addr != addr,
            decreases self.clients.len() - i,
        {
            if self.clients[i].addr().same(&addr) {
                proof {
                    lemma_index_of_peer(self@.clients, i as int);
                }
                return Some(i);
            }
            i += 1;
        }
        None
    }

    /// Whether `event` can be taken: the instants it computes fit in 64 bits.
    pub fn accepts(&self, event: &ServerEvent) -> (b: bool)
        requires
            self.wf(),
        ensures
            b == can_step(self@, event@),
    {
        match event {
            ServerEvent::Received { message, from, now } => match message {
                ToServer::Join { .. } => *now <= u64::MAX - EXPIRATION_TIME,
                ToServer::KeepAlive => match self.position(*from) {
                    Some(i) => self.clients[i].expires() <= u64::MAX - EXPIRATION_TIME,
                    None => true,
                },
                _ => true,
            },
            _ => true,
        }
    }

    /// `message` handed to every joined peer but `from`, in the table's order.
    fn send_all(&self, from: PeerAddr, message: &FromServer) -> (v: Vec<ServerAction>)
        ensures
            actions_view(v@) == deliveries(self@.clients, from, message@),
    {
        let mut v: Vec<ServerAction> = Vec::new();
        let mut i: usize = 0;
        while i < self.clients.len()
            invariant
                i <= self.clients.len(),
                actions_view(v@) == deliveries(self@.clients.take(i as int), from, message@),
            decreases self.clients.len() - i,
        {
            proof {
                lemma_take_succ(self@.clients, i as int);
                lemma_deliveries_push(self@.clients.take(i as int), self@.clients[i as int], from, message@);
            }
            match self.clients[i].send(from, message.duplicate()) {
                Some(a) => {
                    proof {
                        lemma_actions_view_push(v@, a);
                    }
                    v.push(a);
                },
                None => {},
            }
            i += 1;
        }
        assert(self@.clients.take(self.clients.len() as int) =~= self@.clients);
        v
    }

    /// The heartbeat at `now` (the timer branch of the server's loop).
    fn on_tick(&mut self, now: u64) -> (v: Vec<ServerAction>)
        requires
            old(self).wf(),
        ensures
            final(self).wf(),
            (final(self)@, actions_view(v@)) == on_tick(old(self)@, now),
    {
        let ghost cs = self@.clients;
        let server_addr = self.server_addr;
        let mut actions = self.send_all(server_addr, &FromServer::Heartbeat);
        let mut kept: Vec<ClientHandle> = Vec::new();
        let mut closing: Vec<ServerAction> = Vec::new();
        let mut i: usize = 0;
        while i < self.clients.len()
            invariant
                i <= self.clients.len(),
                self@.clients == cs,
                self@.server_addr == server_addr,
                kept@.map_values(|h: ClientHandle| h@) == cs.take(i as int).filter(alive(now)),
                actions_view(actions@) == deliveries(cs, server_addr, FromServerView::Heartbeat)
                    + kills(cs.take(i as int), server_addr, now),
                actions_view(closing@) == disconnects(cs.take(i as int), now),
            decreases self.clients.len() - i,
        {
            proof {
                lemma_take_succ(cs, i as int);
                lemma_kills_push(cs.take(i as int), cs[i as int], server_addr, now);
                lemma_disconnects_push(cs.take(i as int), cs[i as int], now);
                cs.take(i as int).lemma_filter_push(cs[i as int], alive(now));
            }
            let h = &self.clients[i];
            if h.expires() < now {
                let ghost before = actions@;
                let mut line = String::from_str("Killing ");
                let name = h.name();
                line.append(name.as_str());
                let log = ServerAction::Log { line };
                proof {
                    lemma_actions_view_push(actions@, log);
                }
                actions.push(log);
                match h.send(server_addr, FromServer::Shutdown) {
                    Some(a) => {
                        proof {
                            lemma_actions_view_push(actions@, a);
                        }
                        actions.push(a);
                    },
                    None => {},
                }
                assert(actions_view(actions@) =~= actions_view(before) + kill(
                    cs[i as int],
                    server_addr,
                ));
                let d = ServerAction::Disconnect { addr: h.addr() };
                proof {
                    lemma_actions_view_push(closing@, d);
                }
                closing.push(d);
            } else {
                let copy = h.duplicate();
                proof {
                    assert(kept@.push(copy).map_values(|h: ClientHandle| h@) =~= kept@.map_values(
                        |h: ClientHandle| h@,
                    ).push(copy@));
                }
                kept.push(copy);
            }
            i += 1;
        }
        assert(cs.take(cs.len() as int) =~= cs);
        proof {
            lemma_actions_view_add(actions@, closing@);
            lemma_filter_distinct(cs, alive(now));
        }
        actions.append(&mut closing);
        self.clients = kept;
        actions
    }

    /// Telling every peer to shut down (the shutdown branch of the loop).
    fn on_shutdown(&self) -> (v: Vec<ServerAction>)
        ensures
            (self@, actions_view(v@)) == on_shutdown(self@),
    {
        let mut actions: Vec<ServerAction> = Vec::new();
        let log = ServerAction::Log { line: String::from_str("server processor shutting down") };
        actions.push(log);
        let mut rest = self.send_all(self.server_addr, &FromServer::Shutdown);
        proof {
            lemma_actions_view_add(actions@, rest@);
            assert(actions_view(actions@) =~= seq![log@]);
        }
        actions.append(&mut rest);
        actions
    }

    /// `from` joins as `name` at `now`.
    fn on_join(&mut self, name: String, from: PeerAddr, now: u64) -> (v: Vec<ServerAction>)
        requires
            old(self).wf(),
            now + EXPIRATION_TIME <= u64::MAX,
        ensures
            final(self).wf(),
            (final(self)@, actions_view(v@)) == on_join(old(self)@, from, name@, now),
    {
        let ghost s0 = self@;
        let mut actions: Vec<ServerAction> = Vec::new();
        let mut line = String::from_str("Sending ACK to ");
        line.append(name.as_str());
        line.append(" for joining");
        let a0 = ServerAction::Log { line };
        actions.push(a0);
        let handle = ClientHandle::new(name.clone(), from, now);
        let a1 = ServerAction::Connect { addr: from };
        actions.push(a1);
        match self.position(from) {
            Some(i) => {
                self.clients.set(i, handle);
                proof {
                    assert(self@.clients =~= s0.clients.update(i as int, handle@));
                    lemma_update_distinct(s0.clients, i as int, handle@);
                }
            },
            None => {
                self.clients.push(handle);
                proof {
                    assert(self@.clients =~= s0.clients.push(handle@));
                    lemma_push_distinct(s0.clients, handle@);
                }
            },
        }
        assert(self@.clients == joined(s0, from, name@, now));
        let a2 = ServerAction::Reply { to: from, msg: FromServer::Ack };
        actions.push(a2);
        let mut text = name.clone();
        text.append(" joined");
        let a3 = ServerAction::Log { line: text.clone() };
        actions.push(a3);
        let mut rest = self.send_all(from, &FromServer::message(text));
        proof {
            lemma_actions_view_add(actions@, rest@);
            assert(actions_view(actions@) =~= seq![a0@, a1@, a2@, a3@]);
        }
        actions.append(&mut rest);
        actions
    }

    /// A chat line `message` arrives from `from`.
    fn on_message(&self, message: String, from: PeerAddr) -> (v: Vec<ServerAction>)
        requires
            self.wf(),
        ensures
            (self@, actions_view(v@)) == on_message(self@, from, message@),
    {
        match self.position(from) {
            Some(i) => {
                let mut text = self.clients[i].name();
                text.append(": ");
                text.append(message.as_str());
                self.send_all(from, &FromServer::message(text))
            },
            None => {
                let v: Vec<ServerAction> = Vec::new();
                assert(actions_view(v@) =~= Seq::<ServerActionView>::empty());
                v
            },
        }
    }

    /// `from` leaves.
    fn on_leave(&mut self, from: PeerAddr) -> (v: Vec<ServerAction>)
        requires
            old(self).wf(),
        ensures
            final(self).wf(),
            (final(self)@, actions_view(v@)) == on_leave(old(self)@, from),
    {
        let ghost s0 = self@;
        match self.position(from) {
            Some(i) => {
                let gone = self.clients.remove(i);
                proof {
                    assert(self@.clients =~= s0.clients.remove(i as int));
                    lemma_remove_distinct(s0.clients, i as int);
                }
                let mut text = gone.name();
                text.append(" left");
                let mut actions: Vec<ServerAction> = Vec::new();
                let a0 = ServerAction::Log { line: text.clone() };
                actions.push(a0);
                let mut rest = self.send_all(from, &FromServer::message(text));
                proof {
                    lemma_actions_view_add(actions@, rest@);
                    assert(actions_view(actions@) =~= seq![a0@]);
                }
                actions.append(&mut rest);
                let a1 = ServerAction::Disconnect { addr: from };
                proof {
                    lemma_actions_view_push(actions@, a1);
                }
                actions.push(a1);
                actions
            },
            None => {
                let v: Vec<ServerAction> = Vec::new();
                assert(actions_view(v@) =~= Seq::<ServerActionView>::empty());
                v
            },
        }
    }

    /// A keep-alive arrives from `from`.
    fn on_keep_alive(&mut self, from: PeerAddr) -> (v: Vec<ServerAction>)
        requires
            old(self).wf(),
            can_step(
                old(self)@,
                ServerEventView::Received {
                    message: crate::common::event::ToServerView::KeepAlive,
                    from,
                    now: 0,
                },
            ),
        ensures
            final(self).wf(),
            (final(self)@, actions_view(v@)) == on_keep_alive(old(self)@, from),
    {
        let ghost s0 = self@;
        match self.position(from) {
            Some(i) => {
                let mut h = self.clients[i].duplicate();
                h.keep_alive();
                self.clients.set(i, h);
                proof {
                    assert(self@.clients =~= s0.clients.update(i as int, h@));
                    lemma_update_distinct(s0.clients, i as int, h@);
                }
            },
            None => {},
        }
        let v: Vec<ServerAction> = Vec::new();
        assert(actions_view(v@) =~= Seq::<ServerActionView>::empty());
        v
    }

    /// Takes `event`: updates the table and returns what the server does
    /// about it, in order.
    pub fn step(&mut self, event: ServerEvent) -> (v: Vec<ServerAction>)
        requires
            old(self).wf(),
            can_step(old(self)@, event@),
        ensures
            final(self).wf(),
            (final(self)@, actions_view(v@)) == next(old(self)@, event@),
    {
        match event {
            ServerEvent::Tick { now } => self.on_tick(now),
            ServerEvent::Shutdown => self.on_shutdown(),
            ServerEvent::Received { message, from, now } => match message {
                ToServer::Join { name } => self.on_join(name, from, now),
                ToServer::Message { message } => self.on_message(message, from),
                ToServer::Leave => self.on_leave(from),
                ToServer::KeepAlive => self.on_keep_alive(from),
            },
        }
    }
}

} // verus!
