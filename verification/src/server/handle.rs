use vstd::prelude::*;

use crate::common::addr::PeerAddr;
use crate::common::event::FromServer;
use crate::server::action::{ServerAction, ServerActionView};
use crate::server::time::{next_instant, EXPIRATION_TIME};

verus! {

/// What the server knows of one joined peer.
pub struct ClientView {
    pub addr: PeerAddr,
    pub name: Seq<char>,
    pub expires: u64,
}

/// The server's record of one joined peer: where it is, what it is called,
/// and the instant (in milliseconds) after which it counts as gone.
pub struct ClientHandle {
    expires: u64,
    name: String,
    addr: PeerAddr,
}

impl View for ClientHandle {
    type V = ClientView;

    closed spec fn view(&self) -> ClientView {
        ClientView { addr: self.addr, name: self.name@, expires: self.expires }
    }
}

impl ClientHandle {
    /// The record of a peer that joined at `now`: it expires one
    /// `EXPIRATION_TIME` later.
    pub fn new(name: String, addr: PeerAddr, now: u64) -> (h: ClientHandle)
        requires
            now + EXPIRATION_TIME <= u64::MAX,
        ensures
            h@ == (ClientView { addr, name: name@, expires: (now + EXPIRATION_TIME) as u64 }),
    {
        ClientHandle { expires: next_instant(now, EXPIRATION_TIME), name, addr }
    }

    /// The peer's name.
    pub fn name(&self) -> (n: String)
        ensures
            n@ == self@.name,
    {
        self.name.clone()
    }

    /// The peer's address.
    pub fn addr(&self) -> (a: PeerAddr)
        ensures
            a == self@.addr,
    {
        self.addr
    }

    /// The instant after which the peer counts as gone.
    pub fn expires(&self) -> (t: u64)
        ensures
            t == self@.expires,
    {
        self.expires
    }

    /// Pushes the expiry one `EXPIRATION_TIME` further out.
    pub fn keep_alive(&mut self)
        requires
            old(self)@.expires + EXPIRATION_TIME <= u64::MAX,
        ensures
            final(self)@ == (ClientView {
                expires: (old(self)@.expires + EXPIRATION_TIME) as u64,
                ..old(self)@
            }),
    {
        self.expires = next_instant(self.expires, EXPIRATION_TIME);
    }

    /// The delivery of `msg`, sent on behalf of `from`, to this peer: none
    /// when the peer is the sender itself.
    pub fn send(&self, from: PeerAddr, msg: FromServer) -> (d: Option<ServerAction>)
        ensures
            from == self@.addr ==> d is None,
            from != self@.addr ==> (d matches Some(a) && a@ == (ServerActionView::Deliver {
                to: self@.addr,
                msg: msg@,
            })),
    {
        if !from.same(&self.addr) {
            Some(ServerAction::Deliver { to: self.addr, msg })
        } else {
            None
        }
    }

    /// A copy of this record.
    pub fn duplicate(&self) -> (h: ClientHandle)
        ensures
            h@ == self@,
    {
        ClientHandle { expires: self.expires, name: self.name.clone(), addr: self.addr }
    }
}

} // verus!
