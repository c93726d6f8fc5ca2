use vstd::prelude::*;

use crate::common::addr::PeerAddr;
use crate::common::event::FromServerView;
use crate::server::action::{actions_view, ServerAction, ServerActionView};
use crate::server::handle::ClientView;
use crate::server::model::{
    deliveries, disconnects, distinct_addrs, expired, index_of_peer, is_member, kill, kills, others,
};

verus! {

broadcast use vstd::seq_lib::group_seq_properties;

/// The deliveries to a longer table end with the one to the added peer.
pub proof fn lemma_deliveries_push(
    clients: Seq<ClientView>,
    c: ClientView,
    from: PeerAddr,
    msg: FromServerView,
)
    ensures
        deliveries(clients.push(c), from, msg) == deliveries(clients, from, msg) + if c.addr
            != from {
            seq![ServerActionView::Deliver { to: c.addr, msg: msg }]
        } else {
            Seq::empty()
        },
{
    clients.lemma_filter_push(c, others(from));
    assert(deliveries(clients.push(c), from, msg) =~= deliveries(clients, from, msg) + if c.addr
        != from {
        seq![ServerActionView::Deliver { to: c.addr, msg: msg }]
    } else {
        Seq::empty()
    });
}

/// The kills in a longer table end with the kill of the added peer.
pub proof fn lemma_kills_push(clients: Seq<ClientView>, c: ClientView, server: PeerAddr, now: u64)
    ensures
        kills(clients.push(c), server, now) == kills(clients, server, now) + if c.expires < now {
            kill(c, server)
        } else {
            Seq::empty()
        },
{
    assert(clients.push(c).drop_last() =~= clients);
}

/// The disconnects in a longer table end with the one of the added peer.
pub proof fn lemma_disconnects_push(clients: Seq<ClientView>, c: ClientView, now: u64)
    ensures
        disconnects(clients.push(c), now) == disconnects(clients, now) + if c.expires < now {
            seq![ServerActionView::Disconnect { addr: c.addr }]
        } else {
            Seq::empty()
        },
{
    clients.lemma_filter_push(c, expired(now));
    assert(disconnects(clients.push(c), now) =~= disconnects(clients, now) + if c.expires < now {
        seq![ServerActionView::Disconnect { addr: c.addr }]
    } else {
        Seq::empty()
    });
}

/// The views of two sequences of actions put together.
pub proof fn lemma_actions_view_add(a: Seq<ServerAction>, b: Seq<ServerAction>)
    ensures
        actions_view(a + b) == actions_view(a) + actions_view(b),
{
    assert(actions_view(a + b) =~= actions_view(a) + actions_view(b));
}

/// A prefix one longer is the shorter prefix and the next element.
pub proof fn lemma_take_succ<A>(s: Seq<A>, i: int)
    requires
        0 <= i < s.len(),
    ensures
        s.take(i + 1) == s.take(i).push(s[i]),
{
    assert(s.take(i + 1) =~= s.take(i).push(s[i]));
}

/// Keeping some peers of a table without repeated addresses repeats none.
pub proof fn lemma_filter_distinct(clients: Seq<ClientView>, p: spec_fn(ClientView) -> bool)
    requires
        distinct_addrs(clients),
    ensures
        distinct_addrs(clients.filter(p)),
    decreases clients.len(),
{
    reveal(Seq::filter);
    if clients.len() > 0 {
        let rest = clients.drop_last();
        assert(distinct_addrs(rest));
        lemma_filter_distinct(rest, p);
        if p(clients.last()) {
            let f = rest.filter(p);
            assert forall|i: int| 0 <= i < f.len() implies f[i].addr != clients.last().addr by {
                assert(f.contains(f[i]));
                rest.lemma_filter_contains_rev(p, f[i]);
                let j = choose|j: int| 0 <= j < rest.len() && rest[j] == f[i];
                assert(clients[j] == f[i]);
            }
        }
    }
}

/// Removing a peer from a table without repeated addresses repeats none,
/// and leaves the removed address out.
pub proof fn lemma_remove_distinct(clients: Seq<ClientView>, k: int)
    requires
        distinct_addrs(clients),
        0 <= k < clients.len(),
    ensures
        distinct_addrs(clients.remove(k)),
        !is_member(clients.remove(k), clients[k].addr),
{
    let r = clients.remove(k);
    assert forall|i: int| 0 <= i < r.len() implies r[i] == clients[if i < k {
        i
    } else {
        i + 1
    }] by {}
    if is_member(r, clients[k].addr) {
        let i = choose|i: int| 0 <= i < r.len() && r[i].addr == clients[k].addr;
        assert(r[i] == clients[if i < k {
            i
        } else {
            i + 1
        }]);
    }
}

/// Giving a peer a new record with the same address repeats no address.
pub proof fn lemma_update_distinct(clients: Seq<ClientView>, k: int, c: ClientView)
    requires
        distinct_addrs(clients),
        0 <= k < clients.len(),
        c.addr == clients[k].addr,
    ensures
        distinct_addrs(clients.update(k, c)),
{
}

/// Adding a peer whose address is new repeats no address.
pub proof fn lemma_push_distinct(clients: Seq<ClientView>, c: ClientView)
    requires
        distinct_addrs(clients),
        !is_member(clients, c.addr),
    ensures
        distinct_addrs(clients.push(c)),
{
    let p = clients.push(c);
    assert forall|i: int, j: int|
        0 <= i < p.len() && 0 <= j < p.len() && i != j implies p[i].addr != p[j].addr by {
        if i == clients.len() {
            assert(clients[j].addr != c.addr);
        } else if j == clients.len() {
            assert(clients[i].addr != c.addr);
        }
    }
}

/// In a table without repeated addresses, the peer found at `i` is the one
/// that `index_of_peer` names.
pub proof fn lemma_index_of_peer(clients: Seq<ClientView>, i: int)
    requires
        distinct_addrs(clients),
        0 <= i < clients.len(),
    ensures
        is_member(clients, clients[i].addr),
        index_of_peer(clients, clients[i].addr) == i,
{
    assert(clients[i].addr == clients[i].addr);
    let j = index_of_peer(clients, clients[i].addr);
}

} // verus!
