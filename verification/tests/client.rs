use udp_chat::client::args::Args;
use udp_chat::client::session::{
    read_name, Client, ClientAction, ClientError, ClientEvent, JoinEvent,
};
use udp_chat::common::addr::PeerAddr;
use udp_chat::common::event::{FromServer, ToServer};

fn addr(port: u16) -> PeerAddr {
    PeerAddr { is_v6: false, ip: 0x7f00_0001, port, flowinfo: 0, scope_id: 0 }
}

fn client() -> Client {
    Client::new(addr(5000), addr(7272), "ann".to_string()).unwrap()
}

fn send(msg: ToServer, must_succeed: bool) -> ClientAction {
    ClientAction::Send { to: addr(7272), msg, must_succeed }
}

#[test]
fn read_name_trims_whitespace() {
    assert_eq!(read_name("  bob \n"), "bob");
    assert_eq!(read_name("\t\u{3000}x y\u{a0}"), "x y");
    assert_eq!(read_name(" \r\n"), "");
}

#[test]
fn empty_name_is_refused() {
    let r = Client::new(addr(1), addr(2), read_name("   \n"));
    assert!(matches!(r, Err(ClientError::EmptyName)));
    assert_eq!(ClientError::EmptyName.describe(), "name cannot be empty");
    assert_eq!(ClientError::Timeout.describe(), "deadline has elapsed");
}

#[test]
fn new_client_keeps_its_parts() {
    let c = client();
    assert_eq!(c.name(), "ann");
    assert_eq!(c.local_address(), addr(5000));
    assert_eq!(c.remote_address(), addr(7272));
    assert_eq!(c.join_request(), ToServer::Join { name: "ann".to_string() });
}

#[test]
fn join_outcomes() {
    assert_eq!(
        Client::join_outcome(&JoinEvent::Answered { msg: Some(FromServer::Ack) }),
        (Some("Connection established!".to_string()), Ok(()))
    );
    assert_eq!(
        Client::join_outcome(&JoinEvent::Answered { msg: Some(FromServer::Ping) }),
        (None, Ok(()))
    );
    assert_eq!(Client::join_outcome(&JoinEvent::Answered { msg: None }), (None, Ok(())));
    assert_eq!(
        Client::join_outcome(&JoinEvent::Shutdown),
        (Some("Shutting down".to_string()), Ok(()))
    );
    assert_eq!(
        Client::join_outcome(&JoinEvent::TimedOut),
        (Some("Timeout expired".to_string()), Err(ClientError::Timeout))
    );
}

#[test]
fn typed_line_is_sent_as_a_message() {
    let acts = client().handle(ClientEvent::Line { line: "hi".to_string() });
    assert_eq!(acts, vec![send(ToServer::Message { message: "hi".to_string() }, false)]);
}

#[test]
fn user_shutdown_leaves_then_finishes() {
    let acts = client().handle(ClientEvent::Shutdown);
    assert_eq!(acts, vec![send(ToServer::Leave, false), ClientAction::Finish]);
}

#[test]
fn server_messages() {
    let c = client();
    assert_eq!(
        c.handle(ClientEvent::Received { msg: FromServer::Message { message: "bob: yo".to_string() } }),
        vec![ClientAction::Print { line: "bob: yo".to_string() }]
    );
    assert_eq!(
        c.handle(ClientEvent::Received { msg: FromServer::Shutdown }),
        vec![ClientAction::Print { line: "shutting down!".to_string() }, ClientAction::Finish]
    );
    assert_eq!(
        c.handle(ClientEvent::Received { msg: FromServer::Heartbeat }),
        vec![send(ToServer::KeepAlive, true)]
    );
    assert_eq!(
        c.handle(ClientEvent::Received { msg: FromServer::Ack }),
        vec![ClientAction::Print { line: "ack".to_string() }]
    );
    assert!(c.handle(ClientEvent::Received { msg: FromServer::Ping }).is_empty());
    assert!(c.handle(ClientEvent::ReadFailed).is_empty());
}

#[test]
fn client_args_hold_address_and_port() {
    let a = Args { address: "127.0.0.1:7272".to_string(), port: 9 };
    assert_eq!(a.clone(), a);
}
