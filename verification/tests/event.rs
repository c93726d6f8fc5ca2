use udp_chat::common::event::{FromServer, ToServer, DEFAULT_ADDRESS, UDP_PACKET_SIZE};

#[test]
fn size_of_to_server() {
    // The size needs to be smaller than the size of a UDP packet
    let size = std::mem::size_of::<ToServer>();
    assert!(size <= UDP_PACKET_SIZE as usize)
}

#[test]
fn size_of_from_server() {
    // The size needs to be smaller than the size of a UDP packet
    let size = std::mem::size_of::<FromServer>();
    assert!(size <= UDP_PACKET_SIZE as usize)
}

#[test]
fn join_builds_a_join_request() {
    assert_eq!(ToServer::join("ann".to_string()), ToServer::Join { name: "ann".to_string() });
}

#[test]
fn message_builds_a_chat_line() {
    assert_eq!(
        FromServer::message("hi".to_string()),
        FromServer::Message { message: "hi".to_string() }
    );
}

#[test]
fn duplicate_copies_every_variant() {
    for m in [
        FromServer::Message { message: "x".to_string() },
        FromServer::Ping,
        FromServer::Heartbeat,
        FromServer::Ack,
        FromServer::Shutdown,
    ] {
        assert_eq!(m.duplicate(), m);
    }
    for m in [
        ToServer::Join { name: "a".to_string() },
        ToServer::Message { message: "b".to_string() },
        ToServer::Leave,
        ToServer::KeepAlive,
    ] {
        assert_eq!(m.duplicate(), m);
    }
}

#[test]
fn default_address_and_packet_size() {
    assert_eq!(DEFAULT_ADDRESS, "0.0.0.0:7272");
    assert_eq!(UDP_PACKET_SIZE, 512);
}
