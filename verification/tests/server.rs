use udp_chat::common::addr::PeerAddr;
use udp_chat::common::event::{FromServer, ToServer};
use udp_chat::server::action::ServerAction;
use udp_chat::server::args::{bind_address, Args, WRITER_POOL_SIZE};
use udp_chat::server::handle::ClientHandle;
use udp_chat::server::processor::{Processor, ServerEvent};
use udp_chat::server::time::{next_instant, EXPIRATION_TIME, HEARTBEAT_PERIOD};

fn v4(last: u8, port: u16) -> PeerAddr {
    PeerAddr {
        is_v6: false,
        ip: u128::from(u32::from_be_bytes([127, 0, 0, last])),
        port,
        flowinfo: 0,
        scope_id: 0,
    }
}

fn server() -> Processor {
    Processor::new(v4(1, 7272))
}

fn recv(p: &mut Processor, message: ToServer, from: PeerAddr, now: u64) -> Vec<ServerAction> {
    let e = ServerEvent::Received { message, from, now };
    assert!(p.accepts(&e));
    p.step(e)
}

fn join(p: &mut Processor, name: &str, from: PeerAddr, now: u64) -> Vec<ServerAction> {
    recv(p, ToServer::Join { name: name.to_string() }, from, now)
}

fn deliver(to: PeerAddr, text: &str) -> ServerAction {
    ServerAction::Deliver { to, msg: FromServer::Message { message: text.to_string() } }
}

fn log(line: &str) -> ServerAction {
    ServerAction::Log { line: line.to_string() }
}

#[test]
fn next_instant_adds_the_duration() {
    assert_eq!(next_instant(1000, EXPIRATION_TIME), 6000);
    assert_eq!(next_instant(0, 0), 0);
    assert_eq!(EXPIRATION_TIME, 5000);
    assert_eq!(HEARTBEAT_PERIOD, 3000);
}

#[test]
fn client_handle_records_name_and_expiry() {
    let h = ClientHandle::new("ann".to_string(), v4(2, 1), 100);
    assert_eq!(h.name(), "ann");
    assert_eq!(h.addr(), v4(2, 1));
    assert_eq!(h.expires(), 5100);
    assert_eq!(h.send(v4(2, 1), FromServer::Ping), None);
    assert_eq!(
        h.send(v4(3, 1), FromServer::Ping),
        Some(ServerAction::Deliver { to: v4(2, 1), msg: FromServer::Ping })
    );
}

#[test]
fn first_join_is_acknowledged_and_announced_to_nobody() {
    let mut p = server();
    let a = v4(2, 1000);
    let acts = join(&mut p, "ann", a, 0);
    assert_eq!(
        acts,
        vec![
            log("Sending ACK to ann for joining"),
            ServerAction::Connect { addr: a },
            ServerAction::Reply { to: a, msg: FromServer::Ack },
            log("ann joined"),
        ]
    );
    assert_eq!(p.len(), 1);
    assert_eq!(p.peer(0).name(), "ann");
    assert_eq!(p.peer(0).expires(), EXPIRATION_TIME);
    assert_eq!(p.position(a), Some(0));
}

#[test]
fn second_join_is_announced_to_the_first() {
    let mut p = server();
    let a = v4(2, 1000);
    let b = v4(3, 1000);
    join(&mut p, "ann", a, 0);
    let acts = join(&mut p, "bob", b, 10);
    assert_eq!(acts.len(), 5);
    assert_eq!(acts[4], deliver(a, "bob joined"));
    assert_eq!(p.len(), 2);
}

#[test]
fn rejoin_replaces_the_record_in_place() {
    let mut p = server();
    let a = v4(2, 1000);
    let b = v4(3, 1000);
    join(&mut p, "ann", a, 0);
    join(&mut p, "bob", b, 0);
    let acts = join(&mut p, "anne", a, 700);
    assert_eq!(p.len(), 2);
    assert_eq!(p.position(a), Some(0));
    assert_eq!(p.peer(0).name(), "anne");
    assert_eq!(p.peer(0).expires(), 5700);
    assert_eq!(acts[4], deliver(b, "anne joined"));
}

#[test]
fn message_goes_to_every_other_peer_with_the_name() {
    let mut p = server();
    let (a, b, c) = (v4(2, 1), v4(3, 1), v4(4, 1));
    join(&mut p, "ann", a, 0);
    join(&mut p, "bob", b, 0);
    join(&mut p, "cy", c, 0);
    let acts = recv(&mut p, ToServer::Message { message: "hello".to_string() }, b, 5);
    assert_eq!(acts, vec![deliver(a, "bob: hello"), deliver(c, "bob: hello")]);
}

#[test]
fn message_from_a_stranger_is_dropped() {
    let mut p = server();
    join(&mut p, "ann", v4(2, 1), 0);
    let acts = recv(&mut p, ToServer::Message { message: "x".to_string() }, v4(9, 9), 5);
    assert!(acts.is_empty());
    assert_eq!(p.len(), 1);
}

#[test]
fn leave_removes_and_announces() {
    let mut p = server();
    let (a, b, c) = (v4(2, 1), v4(3, 1), v4(4, 1));
    join(&mut p, "ann", a, 0);
    join(&mut p, "bob", b, 0);
    join(&mut p, "cy", c, 0);
    let acts = recv(&mut p, ToServer::Leave, b, 5);
    assert_eq!(
        acts,
        vec![
            log("bob left"),
            deliver(a, "bob left"),
            deliver(c, "bob left"),
            ServerAction::Disconnect { addr: b },
        ]
    );
    assert_eq!(p.len(), 2);
    assert_eq!(p.position(b), None);
    assert_eq!(p.position(c), Some(1));
}

#[test]
fn leave_from_a_stranger_changes_nothing() {
    let mut p = server();
    join(&mut p, "ann", v4(2, 1), 0);
    assert!(recv(&mut p, ToServer::Leave, v4(5, 5), 1).is_empty());
    assert_eq!(p.len(), 1);
}

#[test]
fn join_then_leave_restores_the_table() {
    let mut p = server();
    let a = v4(2, 1);
    join(&mut p, "ann", a, 0);
    join(&mut p, "bob", v4(3, 1), 0);
    recv(&mut p, ToServer::Leave, v4(3, 1), 1);
    assert_eq!(p.len(), 1);
    assert_eq!(p.peer(0).addr(), a);
    assert_eq!(p.peer(0).name(), "ann");
    assert_eq!(p.peer(0).expires(), 5000);
}

#[test]
fn keep_alive_pushes_the_expiry_from_the_old_one() {
    let mut p = server();
    let a = v4(2, 1);
    join(&mut p, "ann", a, 1000);
    assert!(recv(&mut p, ToServer::KeepAlive, a, 4000).is_empty());
    assert_eq!(p.peer(0).expires(), 11000);
    assert!(recv(&mut p, ToServer::KeepAlive, v4(7, 7), 4000).is_empty());
    assert_eq!(p.len(), 1);
}

#[test]
fn tick_sends_heartbeats_and_kills_the_expired() {
    let mut p = server();
    let (a, b) = (v4(2, 1), v4(3, 1));
    join(&mut p, "ann", a, 0);
    join(&mut p, "bob", b, 2000);
    let acts = p.step(ServerEvent::Tick { now: 6000 });
    assert_eq!(
        acts,
        vec![
            ServerAction::Deliver { to: a, msg: FromServer::Heartbeat },
            ServerAction::Deliver { to: b, msg: FromServer::Heartbeat },
            log("Killing ann"),
            ServerAction::Deliver { to: a, msg: FromServer::Shutdown },
            ServerAction::Disconnect { addr: a },
        ]
    );
    assert_eq!(p.len(), 1);
    assert_eq!(p.peer(0).addr(), b);
}

#[test]
fn a_peer_expiring_exactly_now_survives_the_tick() {
    let mut p = server();
    join(&mut p, "ann", v4(2, 1), 0);
    let acts = p.step(ServerEvent::Tick { now: 5000 });
    assert_eq!(acts.len(), 1);
    assert_eq!(p.len(), 1);
}

#[test]
fn the_server_address_gets_no_heartbeat_or_shutdown() {
    let me = v4(1, 7272);
    let mut p = Processor::new(me);
    join(&mut p, "self", me, 0);
    let acts = p.step(ServerEvent::Tick { now: 10000 });
    assert_eq!(acts, vec![log("Killing self"), ServerAction::Disconnect { addr: me }]);
    assert_eq!(p.len(), 0);
}

#[test]
fn shutdown_tells_every_peer() {
    let mut p = server();
    let (a, b) = (v4(2, 1), v4(3, 1));
    join(&mut p, "ann", a, 0);
    join(&mut p, "bob", b, 0);
    let acts = p.step(ServerEvent::Shutdown);
    assert_eq!(
        acts,
        vec![
            log("server processor shutting down"),
            ServerAction::Deliver { to: a, msg: FromServer::Shutdown },
            ServerAction::Deliver { to: b, msg: FromServer::Shutdown },
        ]
    );
    assert_eq!(p.len(), 2);
}

#[test]
fn accepts_refuses_instants_that_overflow() {
    let mut p = server();
    let a = v4(2, 1);
    let far = ServerEvent::Received {
        message: ToServer::Join { name: "ann".to_string() },
        from: a,
        now: u64::MAX - 1,
    };
    assert!(!p.accepts(&far));
    join(&mut p, "ann", a, u64::MAX - EXPIRATION_TIME);
    let ka = ServerEvent::Received { message: ToServer::KeepAlive, from: a, now: 0 };
    assert!(!p.accepts(&ka));
    assert!(p.accepts(&ServerEvent::Tick { now: u64::MAX }));
}

#[test]
fn bind_address_defaults_to_any_port() {
    assert_eq!(bind_address(None), "0.0.0.0:0");
    assert_eq!(bind_address(Some("1.2.3.4:5".to_string())), "1.2.3.4:5");
    assert_eq!(WRITER_POOL_SIZE, 10);
}

#[test]
fn server_args_default_to_the_default_address() {
    assert_eq!(Args::default().address, "0.0.0.0:7272");
}

#[test]
fn a_silent_peer_is_dropped_at_the_first_tick_past_its_expiry() {
    let mut p = server();
    let a = v4(2, 1);
    join(&mut p, "ann", a, 1000);
    assert_eq!(p.step(ServerEvent::Tick { now: 3000 }).len(), 1);
    assert_eq!(p.step(ServerEvent::Tick { now: 6000 }).len(), 1);
    let acts = p.step(ServerEvent::Tick { now: 9000 });
    assert!(acts.contains(&ServerAction::Deliver { to: a, msg: FromServer::Shutdown }));
    assert!(acts.contains(&ServerAction::Disconnect { addr: a }));
    assert_eq!(p.len(), 0);
}

#[test]
fn a_peer_that_answers_every_heartbeat_stays() {
    let mut p = server();
    let a = v4(2, 1);
    join(&mut p, "ann", a, 0);
    for k in 1..=10u64 {
        let acts = p.step(ServerEvent::Tick { now: 3000 * k });
        assert_eq!(acts, vec![ServerAction::Deliver { to: a, msg: FromServer::Heartbeat }]);
        recv(&mut p, ToServer::KeepAlive, a, 3000 * k + 10);
        assert_eq!(p.peer(0).expires(), 5000 * (k + 1));
    }
    assert_eq!(p.len(), 1);
    assert_eq!(p.peer(0).name(), "ann");
}
