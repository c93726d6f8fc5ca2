use vstd::prelude::*;

use crate::common::addr::PeerAddr;
use crate::common::event::{FromServerView, ToServerView};
use crate::server::action::ServerActionView;
use crate::server::facts::{
    lemma_filter_distinct, lemma_index_of_peer, lemma_push_distinct, lemma_remove_distinct,
    lemma_update_distinct,
};
use crate::server::handle::ClientView;
use crate::server::model::{
    alive, can_step, deliveries, disconnects, distinct_addrs, expired, index_of_peer, is_member,
    kill, kills,
    next, others, ProcessorView, ServerEventView,
};
use crate::server::time::EXPIRATION_TIME;

verus! {

broadcast use {vstd::seq_lib::group_seq_properties, vstd::seq_lib::group_filter_ensures};

/// No delivery in `actions` goes to `addr`.
pub open spec fn spares(actions: Seq<ServerActionView>, addr: PeerAddr) -> bool {
    forall|i: int|
        0 <= i < actions.len() ==> (#[trigger] actions[i] matches ServerActionView::Deliver {
            to,
            ..
        } ==> to != addr)
}

/// Every peer of `clients` other than `from` gets `msg` from `actions`, and
/// nobody else does; nobody gets it twice.
pub open spec fn reaches_each_other_once(
    actions: Seq<ServerActionView>,
    clients: Seq<ClientView>,
    from: PeerAddr,
    msg: FromServerView,
) -> bool {
    &&& forall|k: int|
        #![trigger clients[k]]
        0 <= k < clients.len() && clients[k].addr != from ==> exists|i: int|
            #![trigger actions[i]]
            0 <= i < actions.len() && actions[i] == (ServerActionView::Deliver {
                to: clients[k].addr,
                msg: msg,
            })
    &&& forall|i: int|
        #![trigger actions[i]]
        0 <= i < actions.len() ==> exists|k: int|
            #![trigger clients[k]]
            0 <= k < clients.len() && clients[k].addr != from && actions[i] == (
            ServerActionView::Deliver { to: clients[k].addr, msg: msg })
    &&& forall|i: int, j: int|
        #![trigger actions[i], actions[j]]
        0 <= i < j < actions.len() ==> actions[i] != actions[j]
}

/// Who caused `e`: the sending peer, or the server itself for its own timer
/// and its shutdown.
pub open spec fn sender(s: ProcessorView, e: ServerEventView) -> PeerAddr {
    match e {
        ServerEventView::Received { from, .. } => from,
        _ => s.server_addr,
    }
}

proof fn lemma_spares_add(a: Seq<ServerActionView>, b: Seq<ServerActionView>, addr: PeerAddr)
    requires
        spares(a, addr),
        spares(b, addr),
    ensures
        spares(a + b, addr),
{
    let ab = a + b;
    assert forall|i: int| 0 <= i < ab.len() implies (#[trigger] ab[i] matches ServerActionView::Deliver {
        to,
        ..
    } ==> to != addr) by {
        if i >= a.len() {
            assert(ab[i] == b[i - a.len()]);
        }
    }
}

proof fn lemma_deliveries_spare(clients: Seq<ClientView>, from: PeerAddr, msg: FromServerView)
    ensures
        spares(deliveries(clients, from, msg), from),
{
    let f = clients.filter(others(from));
    let d = deliveries(clients, from, msg);
    assert forall|i: int| 0 <= i < d.len() implies (#[trigger] d[i] matches ServerActionView::Deliver {
        to,
        ..
    } ==> to != from) by {
        assert(others(from)(f[i]));
    }
}

proof fn lemma_kills_spare(clients: Seq<ClientView>, server: PeerAddr, now: u64)
    ensures
        spares(kills(clients, server, now), server),
    decreases clients.len(),
{
    if clients.len() > 0 {
        lemma_kills_spare(clients.drop_last(), server, now);
        let c = clients.last();
        if c.expires < now {
            assert(spares(kill(c, server), server));
            lemma_spares_add(kills(clients.drop_last(), server, now), kill(c, server), server);
        } else {
            assert(kills(clients, server, now) =~= kills(clients.drop_last(), server, now));
        }
    }
}

proof fn lemma_disconnects_spare(clients: Seq<ClientView>, now: u64, addr: PeerAddr)
    ensures
        spares(disconnects(clients, now), addr),
{
}

/// The announcements that `deliveries` makes reach every other peer once.
pub proof fn lemma_deliveries_reach(clients: Seq<ClientView>, from: PeerAddr, msg: FromServerView)
    requires
        distinct_addrs(clients),
    ensures
        reaches_each_other_once(deliveries(clients, from, msg), clients, from, msg),
{
    let f = clients.filter(others(from));
    let acts = deliveries(clients, from, msg);
    assert forall|k: int| #![trigger clients[k]] 0 <= k < clients.len() && clients[k].addr != from implies exists|i: int|
        #![trigger acts[i]]
        0 <= i < acts.len() && acts[i] == (ServerActionView::Deliver {
            to: clients[k].addr,
            msg: msg,
        }) by {
        assert(others(from)(clients[k]));
        assert(f.contains(clients[k]));
        let j = choose|j: int| 0 <= j < f.len() && f[j] == clients[k];
        assert(acts[j] == (ServerActionView::Deliver { to: clients[k].addr, msg: msg }));
    }
    assert forall|i: int| #![trigger acts[i]] 0 <= i < acts.len() implies exists|k: int|
        #![trigger clients[k]]
        0 <= k < clients.len() && clients[k].addr != from && acts[i] == (ServerActionView::Deliver {
            to: clients[k].addr,
            msg: msg,
        }) by {
        assert(f.contains(f[i]));
        clients.lemma_filter_contains_rev(others(from), f[i]);
        let k = choose|k: int| 0 <= k < clients.len() && clients[k] == f[i];
        assert(others(from)(f[i]));
    }
    lemma_filter_distinct(clients, others(from));
    assert forall|i: int, j: int| 0 <= i < j < acts.len() implies #[trigger] acts[i] != #[trigger] acts[j] by {
        assert(f[i].addr != f[j].addr);
    }
}

/// The server never sends anything back to whoever caused an event: every
/// delivery goes to some other peer.
pub proof fn law_no_echo(s: ProcessorView, e: ServerEventView)
    ensures
        spares(next(s, e).1, sender(s, e)),
{
    match e {
        ServerEventView::Tick { now } => {
            lemma_deliveries_spare(s.clients, s.server_addr, FromServerView::Heartbeat);
            lemma_kills_spare(s.clients, s.server_addr, now);
            lemma_disconnects_spare(s.clients, now, s.server_addr);
            lemma_spares_add(
                deliveries(s.clients, s.server_addr, FromServerView::Heartbeat),
                kills(s.clients, s.server_addr, now),
                s.server_addr,
            );
            lemma_spares_add(
                deliveries(s.clients, s.server_addr, FromServerView::Heartbeat) + kills(
                    s.clients,
                    s.server_addr,
                    now,
                ),
                disconnects(s.clients, now),
                s.server_addr,
            );
        },
        ServerEventView::Shutdown => {
            lemma_deliveries_spare(s.clients, s.server_addr, FromServerView::Shutdown);
            lemma_spares_add(
                seq![ServerActionView::Log { line: "server processor shutting down"@ }],
                deliveries(s.clients, s.server_addr, FromServerView::Shutdown),
                s.server_addr,
            );
        },
        ServerEventView::Received { message, from, now } => {
            let after = next(s, e).0;
            match message {
                ToServerView::Join { name } => {
                    let m = FromServerView::Message { message: name + " joined"@ };
                    lemma_deliveries_spare(after.clients, from, m);
                    let head = seq![
                        ServerActionView::Log { line: "Sending ACK to "@ + name + " for joining"@ },
                        ServerActionView::Connect { addr: from },
                        ServerActionView::Reply { to: from, msg: FromServerView::Ack },
                        ServerActionView::Log { line: name + " joined"@ },
                    ];
                    assert(spares(head, from));
                    lemma_spares_add(head, deliveries(after.clients, from, m), from);
                },
                ToServerView::Message { message } => {
                    if is_member(s.clients, from) {
                        let name = s.clients[index_of_peer(s.clients, from)].name;
                        lemma_deliveries_spare(
                            s.clients,
                            from,
                            FromServerView::Message { message: name + ": "@ + message },
                        );
                    }
                },
                ToServerView::Leave => {
                    if is_member(s.clients, from) {
                        let k = index_of_peer(s.clients, from);
                        let line = s.clients[k].name + " left"@;
                        let m = FromServerView::Message { message: line };
                        let head = seq![ServerActionView::Log { line: line }];
                        let tail = seq![ServerActionView::Disconnect { addr: from }];
                        lemma_deliveries_spare(after.clients, from, m);
                        assert(spares(head, from));
                        assert(spares(tail, from));
                        lemma_spares_add(head, deliveries(after.clients, from, m), from);
                        lemma_spares_add(head + deliveries(after.clients, from, m), tail, from);
                    }
                },
                ToServerView::KeepAlive => {},
            }
        },
    }
}

/// Whatever happens, no two joined peers come to share an address.
pub proof fn law_step_keeps_addresses_distinct(s: ProcessorView, e: ServerEventView)
    requires
        distinct_addrs(s.clients),
    ensures
        distinct_addrs(next(s, e).0.clients),
{
    match e {
        ServerEventView::Tick { now } => {
            lemma_filter_distinct(s.clients, alive(now));
        },
        ServerEventView::Shutdown => {},
        ServerEventView::Received { message, from, now } => {
            if is_member(s.clients, from) {
                let k = index_of_peer(s.clients, from);
                match message {
                    ToServerView::Join { name } => {
                        lemma_update_distinct(
                            s.clients,
                            k,
                            ClientView {
                                addr: from,
                                name: name,
                                expires: (now + EXPIRATION_TIME) as u64,
                            },
                        );
                    },
                    ToServerView::Leave => {
                        lemma_remove_distinct(s.clients, k);
                    },
                    ToServerView::KeepAlive => {
                        let c = s.clients[k];
                        lemma_update_distinct(
                            s.clients,
                            k,
                            ClientView { expires: (c.expires + EXPIRATION_TIME) as u64, ..c },
                        );
                    },
                    _ => {},
                }
            } else {
                match message {
                    ToServerView::Join { name } => {
                        lemma_push_distinct(
                            s.clients,
                            ClientView {
                                addr: from,
                                name: name,
                                expires: (now + EXPIRATION_TIME) as u64,
                            },
                        );
                    },
                    _ => {},
                }
            }
        },
    }
}

/// A chat line from a joined peer reaches every other joined peer exactly
/// once, prefixed with the sender's name, and nobody else; the table stays.
pub proof fn law_message_reaches_every_other_peer(
    s: ProcessorView,
    from: PeerAddr,
    text: Seq<char>,
    now: u64,
)
    requires
        distinct_addrs(s.clients),
        is_member(s.clients, from),
    ensures
        ({
            let r = next(
                s,
                ServerEventView::Received {
                    message: ToServerView::Message { message: text },
                    from,
                    now,
                },
            );
            let line = s.clients[index_of_peer(s.clients, from)].name + ": "@ + text;
            &&& r.0 == s
            &&& reaches_each_other_once(
                r.1,
                s.clients,
                from,
                FromServerView::Message { message: line },
            )
        }),
{
    let line = s.clients[index_of_peer(s.clients, from)].name + ": "@ + text;
    lemma_deliveries_reach(s.clients, from, FromServerView::Message { message: line });
}

/// Anything but a join from an address that has not joined is ignored.
pub proof fn law_strangers_are_ignored(
    s: ProcessorView,
    message: ToServerView,
    from: PeerAddr,
    now: u64,
)
    requires
        !is_member(s.clients, from),
        !(message is Join),
    ensures
        next(s, ServerEventView::Received { message, from, now }) == (s, Seq::<ServerActionView>::empty()),
{
}

/// After `from` joins as `name` at `now`, it is a joined peer with that name,
/// expiring one `EXPIRATION_TIME` later; every other peer keeps its record;
/// the joiner is acknowledged and the join announced to every other peer.
pub proof fn law_join_admits(s: ProcessorView, from: PeerAddr, name: Seq<char>, now: u64)
    requires
        distinct_addrs(s.clients),
    ensures
        ({
            let r = next(
                s,
                ServerEventView::Received { message: ToServerView::Join { name }, from, now },
            );
            let after = r.0.clients;
            &&& is_member(after, from)
            &&& is_member(s.clients, from) ==> after.len() == s.clients.len() && index_of_peer(
                after,
                from,
            ) == index_of_peer(s.clients, from)
            &&& !is_member(s.clients, from) ==> after.len() == s.clients.len() + 1 && index_of_peer(
                after,
                from,
            ) == s.clients.len()
            &&& after[index_of_peer(after, from)] == (ClientView {
                addr: from,
                name: name,
                expires: (now + EXPIRATION_TIME) as u64,
            })
            &&& forall|a: PeerAddr|
                a != from ==> (is_member(after, a) <==> is_member(s.clients, a))
            &&& forall|a: PeerAddr|
                a != from && is_member(s.clients, a) ==> after[index_of_peer(after, a)]
                    == s.clients[index_of_peer(s.clients, a)]
            &&& r.1.take(4) == seq![
                ServerActionView::Log { line: "Sending ACK to "@ + name + " for joining"@ },
                ServerActionView::Connect { addr: from },
                ServerActionView::Reply { to: from, msg: FromServerView::Ack },
                ServerActionView::Log { line: name + " joined"@ },
            ]
            &&& r.1.contains(ServerActionView::Connect { addr: from })
            &&& forall|i: int|
                0 <= i < r.1.len() ==> (#[trigger] r.1[i] matches ServerActionView::Connect {
                    addr,
                } ==> addr == from)
            &&& reaches_each_other_once(
                r.1.skip(4),
                after,
                from,
                FromServerView::Message { message: name + " joined"@ },
            )
        }),
{
    let h = ClientView { addr: from, name: name, expires: (now + EXPIRATION_TIME) as u64 };
    let r = next(s, ServerEventView::Received { message: ToServerView::Join { name }, from, now });
    let after = r.0.clients;
    law_step_keeps_addresses_distinct(
        s,
        ServerEventView::Received { message: ToServerView::Join { name }, from, now },
    );
    let k = if is_member(s.clients, from) {
        index_of_peer(s.clients, from)
    } else {
        s.clients.len() as int
    };
    assert(after[k] == h);
    lemma_index_of_peer(after, k);
    assert forall|a: PeerAddr|
        a != from && is_member(s.clients, a) implies #[trigger] after[index_of_peer(after, a)]
        == s.clients[index_of_peer(s.clients, a)] by {
        let j = index_of_peer(s.clients, a);
        assert(s.clients[j].addr == a);
        assert(j != k);
        assert(after[j] == s.clients[j]);
        lemma_index_of_peer(after, j);
    }
    assert forall|a: PeerAddr| a != from implies (#[trigger] is_member(after, a) <==> is_member(
        s.clients,
        a,
    )) by {
        if is_member(s.clients, a) {
            let j = index_of_peer(s.clients, a);
            assert(s.clients[j].addr == a);
            assert(j != k);
            assert(after[j] == s.clients[j]);
        }
        if is_member(after, a) {
            let j = index_of_peer(after, a);
            assert(j != k);
            assert(s.clients[j] == after[j]);
        }
    }
    let m = FromServerView::Message { message: name + " joined"@ };
    assert(r.1.take(4) =~= seq![
        ServerActionView::Log { line: "Sending ACK to "@ + name + " for joining"@ },
        ServerActionView::Connect { addr: from },
        ServerActionView::Reply { to: from, msg: FromServerView::Ack },
        ServerActionView::Log { line: name + " joined"@ },
    ]);
    assert(r.1[1] == ServerActionView::Connect { addr: from });
    assert(r.1.skip(4) =~= deliveries(after, from, m));
    lemma_deliveries_reach(after, from, m);
    let rest = r.1.skip(4);
    assert forall|i: int| 0 <= i < r.1.len() implies (#[trigger] r.1[i] matches ServerActionView::Connect {
        addr,
    } ==> addr == from) by {
        if i >= 4 {
            assert(r.1[i] == rest[i - 4]);
            let k = choose|k: int|
                #![trigger after[k]]
                0 <= k < after.len() && after[k].addr != from && rest[i - 4] == (
                ServerActionView::Deliver { to: after[k].addr, msg: m });
        } else {
            assert(r.1[i] == r.1.take(4)[i]);
        }
    }
}

/// After a joined peer leaves, it is no longer a peer, every other peer
/// stays, and its leaving is announced to each of them exactly once.
pub proof fn law_leave_removes(s: ProcessorView, from: PeerAddr, now: u64)
    requires
        distinct_addrs(s.clients),
        is_member(s.clients, from),
    ensures
        ({
            let r = next(s, ServerEventView::Received { message: ToServerView::Leave, from, now });
            let after = r.0.clients;
            let line = s.clients[index_of_peer(s.clients, from)].name + " left"@;
            &&& !is_member(after, from)
            &&& forall|a: PeerAddr|
                a != from ==> (is_member(after, a) <==> is_member(s.clients, a))
            &&& r.1[0] == (ServerActionView::Log { line: line })
            &&& r.1.last() == (ServerActionView::Disconnect { addr: from })
            &&& forall|a: PeerAddr|
                a != from && is_member(s.clients, a) ==> after[index_of_peer(after, a)]
                    == s.clients[index_of_peer(s.clients, a)]
            &&& reaches_each_other_once(
                r.1.subrange(1, r.1.len() - 1),
                s.clients,
                from,
                FromServerView::Message { message: line },
            )
        }),
{
    let k = index_of_peer(s.clients, from);
    let r = next(s, ServerEventView::Received { message: ToServerView::Leave, from, now });
    let after = r.0.clients;
    lemma_remove_distinct(s.clients, k);
    assert forall|a: PeerAddr| a != from implies (is_member(after, a) <==> is_member(s.clients, a)) by {
        if is_member(s.clients, a) {
            let j = index_of_peer(s.clients, a);
            assert(j != k);
            let jj = if j < k {
                j
            } else {
                j - 1
            };
            assert(after[jj] == s.clients[j]);
        }
        if is_member(after, a) {
            let j = index_of_peer(after, a);
            let jj = if j < k {
                j
            } else {
                j + 1
            };
            assert(after[j] == s.clients[jj]);
        }
    }
    assert forall|a: PeerAddr|
        a != from && is_member(s.clients, a) implies #[trigger] after[index_of_peer(after, a)]
        == s.clients[index_of_peer(s.clients, a)] by {
        let j = index_of_peer(s.clients, a);
        assert(s.clients[j].addr == a);
        assert(j != k);
        let jj = if j < k {
            j
        } else {
            j - 1
        };
        assert(after[jj] == s.clients[j]);
        lemma_index_of_peer(after, jj);
    }
    let line = s.clients[k].name + " left"@;
    let m = FromServerView::Message { message: line };
    assert(r.1.subrange(1, r.1.len() - 1) =~= deliveries(after, from, m));
    lemma_deliveries_reach(after, from, m);
    // the peers other than `from` are the same before and after
    let d = deliveries(after, from, m);
    assert forall|kk: int| #![trigger s.clients[kk]] 0 <= kk < s.clients.len() && s.clients[kk].addr != from implies exists|
        i: int,
    | #![trigger d[i]] 0 <= i < d.len() && d[i] == (ServerActionView::Deliver { to: s.clients[kk].addr, msg: m }) by {
        let jj = if kk < k {
            kk
        } else {
            kk - 1
        };
        assert(kk != k);
        assert(after[jj] == s.clients[kk]);
    }
    assert forall|i: int| #![trigger d[i]] 0 <= i < d.len() implies exists|kk: int|
        #![trigger s.clients[kk]]
        0 <= kk < s.clients.len() && s.clients[kk].addr != from && d[i] == (
        ServerActionView::Deliver { to: s.clients[kk].addr, msg: m }) by {
        let j = choose|j: int|
            0 <= j < after.len() && after[j].addr != from && d[i] == (ServerActionView::Deliver {
                to: after[j].addr,
                msg: m,
            });
        let jj = if j < k {
            j
        } else {
            j + 1
        };
        assert(after[j] == s.clients[jj]);
    }
}

/// A peer that joins and then leaves leaves the table as it found it.
pub proof fn law_join_then_leave_restores(
    s: ProcessorView,
    from: PeerAddr,
    name: Seq<char>,
    now: u64,
    later: u64,
)
    requires
        distinct_addrs(s.clients),
        !is_member(s.clients, from),
    ensures
        next(
            next(s, ServerEventView::Received { message: ToServerView::Join { name }, from, now }).0,
            ServerEventView::Received { message: ToServerView::Leave, from, now: later },
        ).0 == s,
{
    let h = ClientView { addr: from, name: name, expires: (now + EXPIRATION_TIME) as u64 };
    let joined = s.clients.push(h);
    lemma_push_distinct(s.clients, h);
    lemma_index_of_peer(joined, s.clients.len() as int);
    assert(joined.remove(s.clients.len() as int) =~= s.clients);
}

/// A keep-alive from a joined peer pushes its expiry one `EXPIRATION_TIME`
/// further out and changes nothing else.
pub proof fn law_keep_alive_extends(s: ProcessorView, from: PeerAddr, now: u64)
    requires
        distinct_addrs(s.clients),
        is_member(s.clients, from),
        s.clients[index_of_peer(s.clients, from)].expires + EXPIRATION_TIME <= u64::MAX,
    ensures
        ({
            let k = index_of_peer(s.clients, from);
            let r = next(s, ServerEventView::Received { message: ToServerView::KeepAlive, from, now });
            &&& r.1.len() == 0
            &&& r.0.clients.len() == s.clients.len()
            &&& r.0.clients[k].expires == s.clients[k].expires + EXPIRATION_TIME
            &&& r.0.clients[k].addr == from
            &&& r.0.clients[k].name == s.clients[k].name
            &&& forall|j: int| 0 <= j < s.clients.len() && j != k ==> r.0.clients[j] == s.clients[j]
        }),
{
}

/// Among the kills of a table is a "Killing NAME" line for each expired peer.
proof fn lemma_kills_log(clients: Seq<ClientView>, server: PeerAddr, now: u64, k: int)
    requires
        0 <= k < clients.len(),
        clients[k].expires < now,
    ensures
        kills(clients, server, now).contains(
            ServerActionView::Log { line: "Killing "@ + clients[k].name },
        ),
    decreases clients.len(),
{
    let rest = clients.drop_last();
    let d = ServerActionView::Log { line: "Killing "@ + clients[k].name };
    if k == clients.len() - 1 {
        let head = kills(rest, server, now);
        assert(kills(clients, server, now)[head.len() as int] == d);
    } else {
        assert(rest[k] == clients[k]);
        lemma_kills_log(rest, server, now, k);
        let j = choose|j: int|
            0 <= j < kills(rest, server, now).len() && kills(rest, server, now)[j] == d;
        assert(kills(clients, server, now)[j] == d);
    }
}

/// Among the kills of a table is a `Shutdown` for each expired peer that is
/// not at the server's own address.
proof fn lemma_kills_shut_down(clients: Seq<ClientView>, server: PeerAddr, now: u64, k: int)
    requires
        0 <= k < clients.len(),
        clients[k].expires < now,
        clients[k].addr != server,
    ensures
        kills(clients, server, now).contains(
            ServerActionView::Deliver { to: clients[k].addr, msg: FromServerView::Shutdown },
        ),
    decreases clients.len(),
{
    let rest = clients.drop_last();
    let d = ServerActionView::Deliver { to: clients[k].addr, msg: FromServerView::Shutdown };
    if k == clients.len() - 1 {
        let head = kills(rest, server, now);
        assert(kills(clients, server, now)[head.len() + 1int] == d);
    } else {
        assert(rest[k] == clients[k]);
        lemma_kills_shut_down(rest, server, now, k);
        let j = choose|j: int|
            0 <= j < kills(rest, server, now).len() && kills(rest, server, now)[j] == d;
        assert(kills(clients, server, now)[j] == d);
    }
}

/// The heartbeat at `now` keeps exactly the peers whose expiry is not
/// before `now`, with their records; every peer but the server's own
/// address gets a `Heartbeat`; every dropped peer but the server's own
/// address is told to shut down, and every dropped peer is disconnected.
pub proof fn law_tick_drops_exactly_the_expired(s: ProcessorView, now: u64)
    requires
        distinct_addrs(s.clients),
    ensures
        ({
            let r = next(s, ServerEventView::Tick { now });
            let after = r.0.clients;
            &&& forall|a: PeerAddr|
                is_member(after, a) <==> (is_member(s.clients, a) && !(s.clients[index_of_peer(
                    s.clients,
                    a,
                )].expires < now))
            &&& forall|a: PeerAddr|
                is_member(after, a) ==> after[index_of_peer(after, a)] == s.clients[index_of_peer(
                    s.clients,
                    a,
                )]
            &&& forall|k: int|
                0 <= k < s.clients.len() && s.clients[k].expires < now ==> r.1.contains(
                    ServerActionView::Disconnect { addr: s.clients[k].addr },
                )
            &&& forall|k: int|
                0 <= k < s.clients.len() && s.clients[k].expires < now ==> r.1.contains(
                    ServerActionView::Log { line: "Killing "@ + #[trigger] s.clients[k].name },
                )
            &&& forall|k: int|
                0 <= k < s.clients.len() && s.clients[k].expires < now && s.clients[k].addr
                    != s.server_addr ==> r.1.contains(
                    ServerActionView::Deliver {
                        to: #[trigger] s.clients[k].addr,
                        msg: FromServerView::Shutdown,
                    },
                )
            &&& reaches_each_other_once(
                r.1.take(deliveries(s.clients, s.server_addr, FromServerView::Heartbeat).len() as int),
                s.clients,
                s.server_addr,
                FromServerView::Heartbeat,
            )
        }),
{
    let r = next(s, ServerEventView::Tick { now });
    let after = r.0.clients;
    let cs = s.clients;
    lemma_filter_distinct(cs, alive(now));
    assert forall|a: PeerAddr|
        is_member(after, a) implies is_member(cs, a) && !(cs[index_of_peer(cs, a)].expires < now)
        && after[index_of_peer(after, a)] == cs[index_of_peer(cs, a)] by {
        let j = index_of_peer(after, a);
        assert(after.contains(after[j]));
        cs.lemma_filter_contains_rev(alive(now), after[j]);
        let k = choose|k: int| 0 <= k < cs.len() && cs[k] == after[j];
        lemma_index_of_peer(cs, k);
        assert(alive(now)(after[j]));
    }
    assert forall|a: PeerAddr|
        is_member(cs, a) && !(cs[index_of_peer(cs, a)].expires < now) implies is_member(after, a) by {
        let k = index_of_peer(cs, a);
        assert(alive(now)(cs[k]));
        assert(after.contains(cs[k]));
    }
    let hb = deliveries(cs, s.server_addr, FromServerView::Heartbeat);
    let dis = disconnects(cs, now);
    assert(r.1 == hb + kills(cs, s.server_addr, now) + dis);
    assert forall|k: int| 0 <= k < cs.len() && cs[k].expires < now implies r.1.contains(
        ServerActionView::Disconnect { addr: cs[k].addr },
    ) by {
        let f = cs.filter(expired(now));
        assert(expired(now)(cs[k]));
        assert(f.contains(cs[k]));
        let j = choose|j: int| 0 <= j < f.len() && f[j] == cs[k];
        let off = hb.len() + kills(cs, s.server_addr, now).len();
        assert(r.1[off + j] == dis[j]);
    }
    let ks = kills(cs, s.server_addr, now);
    assert forall|k: int|
        0 <= k < cs.len() && cs[k].expires < now implies r.1.contains(
        ServerActionView::Log { line: "Killing "@ + #[trigger] cs[k].name },
    ) by {
        lemma_kills_log(cs, s.server_addr, now, k);
        let d = ServerActionView::Log { line: "Killing "@ + cs[k].name };
        let j = choose|j: int| 0 <= j < ks.len() && ks[j] == d;
        assert(r.1[hb.len() + j] == d);
    }
    assert forall|k: int|
        0 <= k < cs.len() && cs[k].expires < now && cs[k].addr != s.server_addr implies r.1.contains(
        ServerActionView::Deliver { to: #[trigger] cs[k].addr, msg: FromServerView::Shutdown },
    ) by {
        lemma_kills_shut_down(cs, s.server_addr, now, k);
        let d = ServerActionView::Deliver { to: cs[k].addr, msg: FromServerView::Shutdown };
        let j = choose|j: int| 0 <= j < ks.len() && ks[j] == d;
        assert(r.1[hb.len() + j] == d);
    }
    assert(r.1.take(hb.len() as int) =~= hb);
    lemma_deliveries_reach(cs, s.server_addr, FromServerView::Heartbeat);
}

/// Shutting down keeps the table and tells every peer but the server's own
/// address to shut down, once each.
pub proof fn law_shutdown_tells_everyone(s: ProcessorView)
    requires
        distinct_addrs(s.clients),
    ensures
        next(s, ServerEventView::Shutdown).0 == s,
        next(s, ServerEventView::Shutdown).1[0] == (ServerActionView::Log {
            line: "server processor shutting down"@,
        }),
        reaches_each_other_once(
            next(s, ServerEventView::Shutdown).1.skip(1),
            s.clients,
            s.server_addr,
            FromServerView::Shutdown,
        ),
{
    let r = next(s, ServerEventView::Shutdown);
    assert(r.1.skip(1) =~= deliveries(s.clients, s.server_addr, FromServerView::Shutdown));
    lemma_deliveries_reach(s.clients, s.server_addr, FromServerView::Shutdown);
}

/// The record of the joined peer `addr`.
pub open spec fn record(clients: Seq<ClientView>, addr: PeerAddr) -> ClientView {
    clients[index_of_peer(clients, addr)]
}

/// The state after the events `es`, taken in order from `s`.
pub open spec fn run(s: ProcessorView, es: Seq<ServerEventView>) -> ProcessorView
    decreases es.len(),
{
    if es.len() == 0 {
        s
    } else {
        next(run(s, es.drop_last()), es.last()).0
    }
}

/// `e` is a message from `addr`.
pub open spec fn touches(e: ServerEventView, addr: PeerAddr) -> bool {
    match e {
        ServerEventView::Received { from, .. } => from == addr,
        _ => false,
    }
}

/// `e` is a keep-alive from `addr`.
pub open spec fn is_keep_alive_from(e: ServerEventView, addr: PeerAddr) -> bool {
    match e {
        ServerEventView::Received { message, from, .. } => from == addr && message is KeepAlive,
        _ => false,
    }
}

/// `e` is a heartbeat that comes after the instant `t`.
pub open spec fn ticks_after(e: ServerEventView, t: u64) -> bool {
    match e {
        ServerEventView::Tick { now } => t < now,
        _ => false,
    }
}

/// `e` is a heartbeat that comes after the instant `t`, as an integer.
pub open spec fn ticks_after_int(e: ServerEventView, t: int) -> bool {
    match e {
        ServerEventView::Tick { now } => t < now,
        _ => false,
    }
}

/// How many keep-alives from `addr` there are among `es`.
pub open spec fn keep_alives(es: Seq<ServerEventView>, addr: PeerAddr) -> nat
    decreases es.len(),
{
    if es.len() == 0 {
        0
    } else {
        keep_alives(es.drop_last(), addr) + if is_keep_alive_from(es.last(), addr) {
            1nat
        } else {
            0nat
        }
    }
}

/// An event that `addr` did not send leaves its record alone; only a
/// heartbeat after its expiry drops it.
proof fn lemma_untouched_record(s: ProcessorView, e: ServerEventView, a: PeerAddr)
    requires
        distinct_addrs(s.clients),
        !touches(e, a),
    ensures
        distinct_addrs(next(s, e).0.clients),
        is_member(next(s, e).0.clients, a) <==> (is_member(s.clients, a) && !ticks_after(
            e,
            record(s.clients, a).expires,
        )),
        is_member(next(s, e).0.clients, a) ==> record(next(s, e).0.clients, a) == record(
            s.clients,
            a,
        ),
{
    law_step_keeps_addresses_distinct(s, e);
    let after = next(s, e).0.clients;
    match e {
        ServerEventView::Tick { now } => {
            law_tick_drops_exactly_the_expired(s, now);
        },
        ServerEventView::Shutdown => {},
        ServerEventView::Received { message, from, now } => {
            if is_member(s.clients, from) {
                let k = index_of_peer(s.clients, from);
                match message {
                    ToServerView::Join { name } => {
                        law_join_admits(s, from, name, now);
                    },
                    ToServerView::Leave => {
                        law_leave_removes(s, from, now);
                        if is_member(s.clients, a) {
                            let j = index_of_peer(s.clients, a);
                            assert(s.clients[j].addr == a);
                            let jj = if j < k {
                                j
                            } else {
                                j - 1
                            };
                            assert(after[jj] == s.clients[j]);
                            lemma_index_of_peer(after, jj);
                        }
                    },
                    ToServerView::KeepAlive => {
                        if is_member(s.clients, a) {
                            let j = index_of_peer(s.clients, a);
                            assert(s.clients[j].addr == a);
                            assert(after[j] == s.clients[j]);
                            lemma_index_of_peer(after, j);
                        }
                        if is_member(after, a) {
                            let j = index_of_peer(after, a);
                            assert(after[j].addr == a);
                            assert(after[j] == s.clients[j]);
                        }
                    },
                    ToServerView::Message { .. } => {},
                }
            } else {
                match message {
                    ToServerView::Join { name } => {
                        law_join_admits(s, from, name, now);
                    },
                    _ => {},
                }
            }
        },
    }
}

/// A joined peer that sends nothing stays, with its record, until the first
/// heartbeat that comes after its expiry, and is gone from then on.
pub proof fn law_silent_peer_expires(s: ProcessorView, es: Seq<ServerEventView>, a: PeerAddr)
    requires
        distinct_addrs(s.clients),
        is_member(s.clients, a),
        forall|i: int| 0 <= i < es.len() ==> !touches(#[trigger] es[i], a),
    ensures
        distinct_addrs(run(s, es).clients),
        is_member(run(s, es).clients, a) <==> forall|i: int|
            0 <= i < es.len() ==> !ticks_after(#[trigger] es[i], record(s.clients, a).expires),
        is_member(run(s, es).clients, a) ==> record(run(s, es).clients, a) == record(s.clients, a),
    decreases es.len(),
{
    let x = record(s.clients, a).expires;
    if es.len() > 0 {
        let rest = es.drop_last();
        assert forall|i: int| 0 <= i < rest.len() implies !touches(#[trigger] rest[i], a) by {
            assert(rest[i] == es[i]);
        }
        law_silent_peer_expires(s, rest, a);
        let mid = run(s, rest);
        assert(!touches(es[es.len() - 1], a));
        lemma_untouched_record(mid, es.last(), a);
        if is_member(run(s, es).clients, a) {
            assert forall|i: int| 0 <= i < es.len() implies !ticks_after(#[trigger] es[i], x) by {
                if i < rest.len() {
                    assert(rest[i] == es[i]);
                }
            }
        } else if is_member(mid.clients, a) {
            assert(ticks_after(es[es.len() - 1], x));
        } else {
            let j = choose|j: int| 0 <= j < rest.len() && ticks_after(#[trigger] rest[j], x);
            assert(es[j] == rest[j]);
        }
    }
}

/// A joined peer that answers in time stays: if it neither leaves nor joins
/// again, and every heartbeat comes no later than its expiry as pushed out
/// by the keep-alives it sent before that heartbeat, then it is still a
/// peer, with its name, and an expiry pushed out once per keep-alive.
pub proof fn law_kept_alive_peer_stays(s: ProcessorView, es: Seq<ServerEventView>, a: PeerAddr)
    requires
        distinct_addrs(s.clients),
        is_member(s.clients, a),
        forall|i: int|
            0 <= i < es.len() ==> (touches(#[trigger] es[i], a) ==> is_keep_alive_from(es[i], a)),
        record(s.clients, a).expires + EXPIRATION_TIME * keep_alives(es, a) <= u64::MAX,
        forall|i: int|
            0 <= i < es.len() ==> !ticks_after_int(
                #[trigger] es[i],
                record(s.clients, a).expires + EXPIRATION_TIME * keep_alives(es.take(i), a),
            ),
    ensures
        distinct_addrs(run(s, es).clients),
        is_member(run(s, es).clients, a),
        record(run(s, es).clients, a) == (ClientView {
            expires: (record(s.clients, a).expires + EXPIRATION_TIME * keep_alives(es, a)) as u64,
            ..record(s.clients, a)
        }),
    decreases es.len(),
{
    let c = record(s.clients, a);
    if es.len() == 0 {
        assert(c == (ClientView { expires: c.expires, ..c }));
    } else {
        let rest = es.drop_last();
        let e = es.last();
        assert(keep_alives(rest, a) <= keep_alives(es, a));
        assert(EXPIRATION_TIME * keep_alives(rest, a) <= EXPIRATION_TIME * keep_alives(es, a))
            by (nonlinear_arith)
            requires
                keep_alives(rest, a) <= keep_alives(es, a),
        ;
        assert forall|i: int|
            0 <= i < rest.len() implies (touches(#[trigger] rest[i], a) ==> is_keep_alive_from(
                rest[i],
                a,
            )) by {
            assert(rest[i] == es[i]);
        }
        assert forall|i: int|
            0 <= i < rest.len() implies !ticks_after_int(
                #[trigger] rest[i],
                c.expires + EXPIRATION_TIME * keep_alives(rest.take(i), a),
            ) by {
            assert(rest[i] == es[i]);
            assert(rest.take(i) =~= es.take(i));
        }
        law_kept_alive_peer_stays(s, rest, a);
        let mid = run(s, rest);
        let xm = c.expires + EXPIRATION_TIME * keep_alives(rest, a);
        assert(record(mid.clients, a).expires == xm);
        if is_keep_alive_from(e, a) {
            let k = index_of_peer(mid.clients, a);
            assert(xm + EXPIRATION_TIME == c.expires + EXPIRATION_TIME * keep_alives(es, a))
                by (nonlinear_arith)
                requires
                    keep_alives(es, a) == keep_alives(rest, a) + 1,
                    xm == c.expires + EXPIRATION_TIME * keep_alives(rest, a),
            ;
            match e {
                ServerEventView::Received { message, from, now } => {
                    law_keep_alive_extends(mid, a, now);
                    law_step_keeps_addresses_distinct(mid, e);
                    let after = next(mid, e).0.clients;
                    assert(after[k].addr == a);
                    lemma_index_of_peer(after, k);
                },
                _ => {},
            }
        } else {
            assert(keep_alives(es, a) == keep_alives(rest, a));
            assert(!touches(e, a));
            assert(es.take(es.len() - 1) =~= rest);
            assert(!ticks_after_int(es[es.len() - 1], xm));
            lemma_untouched_record(mid, e, a);
        }
    }
}

/// Dropping an expired peer tells it to shut down exactly when it is not the
/// server's own address, and tells nobody else anything.
pub proof fn law_kill_tells_the_peer(c: ClientView, server_addr: PeerAddr)
    ensures
        kill(c, server_addr).contains(
            ServerActionView::Deliver { to: c.addr, msg: FromServerView::Shutdown },
        ) <==> c.addr != server_addr,
        forall|i: int|
            0 <= i < kill(c, server_addr).len() ==> (#[trigger] kill(c, server_addr)[i] matches ServerActionView::Deliver {
                to,
                msg,
            } ==> to == c.addr && msg == FromServerView::Shutdown),
{
    let k = kill(c, server_addr);
    if c.addr != server_addr {
        assert(k[1] == ServerActionView::Deliver { to: c.addr, msg: FromServerView::Shutdown });
    } else {
        assert(k =~= seq![ServerActionView::Log { line: "Killing "@ + c.name }]);
    }
}

/// An event can be refused only for an instant it would compute past 64
/// bits: a heartbeat, a shutdown, a chat line and a leave are always taken;
/// a join at `now` exactly when `now + EXPIRATION_TIME` fits; a keep-alive
/// from a joined peer exactly when its expiry plus `EXPIRATION_TIME` fits,
/// and one from a stranger always.
pub proof fn law_only_overflow_is_refused(s: ProcessorView, e: ServerEventView)
    ensures
        e is Tick ==> can_step(s, e),
        e is Shutdown ==> can_step(s, e),
        e matches ServerEventView::Received { message, from, now } ==> {
            &&& message is Message ==> can_step(s, e)
            &&& message is Leave ==> can_step(s, e)
            &&& message is Join ==> (can_step(s, e) <==> now + EXPIRATION_TIME <= u64::MAX)
            &&& message is KeepAlive ==> (can_step(s, e) <==> (!is_member(s.clients, from) || record(
                s.clients,
                from,
            ).expires + EXPIRATION_TIME <= u64::MAX))
        },
{
}

/// One of the things a heartbeat at `now` does about an expired peer of
/// `clients`: log "Killing NAME", tell it to shut down (unless it is at the
/// server's own address), or drop its handle.
pub open spec fn is_sweep_of_expired(
    a: ServerActionView,
    clients: Seq<ClientView>,
    server_addr: PeerAddr,
    now: u64,
) -> bool {
    exists|k: int|
        #![trigger clients[k]]
        0 <= k < clients.len() && clients[k].expires < now && (a == (ServerActionView::Log {
            line: "Killing "@ + clients[k].name,
        }) || (clients[k].addr != server_addr && a == (ServerActionView::Deliver {
            to: clients[k].addr,
            msg: FromServerView::Shutdown,
        })) || a == (ServerActionView::Disconnect { addr: clients[k].addr }))
}

proof fn lemma_kills_are_sweeps(clients: Seq<ClientView>, server: PeerAddr, now: u64)
    ensures
        forall|i: int|
            0 <= i < kills(clients, server, now).len() ==> is_sweep_of_expired(
                #[trigger] kills(clients, server, now)[i],
                clients,
                server,
                now,
            ),
    decreases clients.len(),
{
    if clients.len() > 0 {
        let rest = clients.drop_last();
        lemma_kills_are_sweeps(rest, server, now);
        let head = kills(rest, server, now);
        let ks = kills(clients, server, now);
        let last = clients.len() - 1;
        assert forall|i: int| 0 <= i < ks.len() implies is_sweep_of_expired(
            #[trigger] ks[i],
            clients,
            server,
            now,
        ) by {
            if i < head.len() {
                assert(ks[i] == head[i]);
                assert(is_sweep_of_expired(head[i], rest, server, now));
                let k = choose|k: int|
                    #![trigger rest[k]]
                    0 <= k < rest.len() && rest[k].expires < now && (head[i] == (
                    ServerActionView::Log { line: "Killing "@ + rest[k].name }) || (rest[k].addr
                        != server && head[i] == (ServerActionView::Deliver {
                        to: rest[k].addr,
                        msg: FromServerView::Shutdown,
                    })) || head[i] == (ServerActionView::Disconnect { addr: rest[k].addr }));
                assert(clients[k] == rest[k]);
            } else {
                assert(clients[last].expires < now);
                let kl = kill(clients[last], server);
                assert(ks[i] == kl[i - head.len()]);
                assert(clients[last] == clients.last());
            }
        }
    }
}

/// After its heartbeats, a heartbeat at `now` does nothing but sweep the
/// expired peers: every later action logs, shuts down or drops a peer whose
/// expiry lies before `now`.
pub proof fn law_tick_sweeps_only_the_expired(s: ProcessorView, now: u64)
    ensures
        ({
            let r = next(s, ServerEventView::Tick { now });
            let n = deliveries(s.clients, s.server_addr, FromServerView::Heartbeat).len();
            forall|i: int|
                n <= i < r.1.len() ==> is_sweep_of_expired(
                    #[trigger] r.1[i],
                    s.clients,
                    s.server_addr,
                    now,
                )
        }),
{
    let cs = s.clients;
    let r = next(s, ServerEventView::Tick { now });
    let hb = deliveries(cs, s.server_addr, FromServerView::Heartbeat);
    let ks = kills(cs, s.server_addr, now);
    let dis = disconnects(cs, now);
    lemma_kills_are_sweeps(cs, s.server_addr, now);
    let f = cs.filter(expired(now));
    assert forall|i: int| hb.len() <= i < r.1.len() implies is_sweep_of_expired(
        #[trigger] r.1[i],
        cs,
        s.server_addr,
        now,
    ) by {
        if i < hb.len() + ks.len() {
            assert(r.1[i] == ks[i - hb.len()]);
        } else {
            let j = i - hb.len() - ks.len();
            assert(r.1[i] == dis[j]);
            assert(f.contains(f[j]));
            cs.lemma_filter_contains_rev(expired(now), f[j]);
            let k = choose|k: int| 0 <= k < cs.len() && cs[k] == f[j];
            assert(expired(now)(f[j]));
            assert(dis[j] == ServerActionView::Disconnect { addr: cs[k].addr });
        }
    }
}

} // verus!
