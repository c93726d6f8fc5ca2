use vstd::prelude::*;

use crate::common::addr::PeerAddr;
use crate::common::event::{FromServer, FromServerView};

verus! {

/// What the server asks its surroundings to do after an event.
#[derive(Clone, Debug, PartialEq, Eq)]
pub enum ServerAction {
    /// A handle for `addr` was created: start the writer that serves it,
    /// replacing any earlier one.
    Connect { addr: PeerAddr },
    /// Queue `msg` on the handle of the joined peer `to`.
    Deliver { to: PeerAddr, msg: FromServer },
    /// Write `msg` straight to `to`, not through a handle.
    Reply { to: PeerAddr, msg: FromServer },
    /// The handle for `addr` was dropped: stop the writer that served it.
    Disconnect { addr: PeerAddr },
    /// Print `line` on the server's console.
    Log { line: String },
}

/// What a `ServerAction` asks for, with its text as a sequence of characters.
pub enum ServerActionView {
    Connect { addr: PeerAddr },
    Deliver { to: PeerAddr, msg: FromServerView },
    Reply { to: PeerAddr, msg: FromServerView },
    Disconnect { addr: PeerAddr },
    Log { line: Seq<char> },
}

impl View for ServerAction {
    type V = ServerActionView;

    open spec fn view(&self) -> ServerActionView {
        match self {
            ServerAction::Connect { addr } => ServerActionView::Connect { addr: *addr },
            ServerAction::Deliver { to, msg } => ServerActionView::Deliver { to: *to, msg: msg@ },
            ServerAction::Reply { to, msg } => ServerActionView::Reply { to: *to, msg: msg@ },
            ServerAction::Disconnect { addr } => ServerActionView::Disconnect { addr: *addr },
            ServerAction::Log { line } => ServerActionView::Log { line: line@ },
        }
    }
}

/// The views of a sequence of actions, in order.
pub open spec fn actions_view(actions: Seq<ServerAction>) -> Seq<ServerActionView> {
    actions.map_values(|a: ServerAction| a@)
}

/// Appending an action appends its view.
pub proof fn lemma_actions_view_push(actions: Seq<ServerAction>, a: ServerAction)
    ensures
        actions_view(actions.push(a)) == actions_view(actions).push(a@),
{
    assert(actions_view(actions.push(a)) =~= actions_view(actions).push(a@));
}

} // verus!
