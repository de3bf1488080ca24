use rustaria::handshake::{
    ClientHandshake, ConnectionError, HandshakeEvent, HandshakeState, PeerAddr, RemoteServer, SocketEvent,
};

const KERNEL: (u8, u8, u8) = (0, 1, 2);

fn start() -> ClientHandshake {
    let (hs, hello) = ClientHandshake::new(KERNEL, vec![9, 9, 9, 9]);
    assert_eq!(hello, vec![69]);
    assert_eq!(hs.state, HandshakeState::AwaitConnect);
    hs
}

#[test]
fn matching_server_is_joined() {
    let mut hs = start();
    assert_eq!(hs.step(HandshakeEvent::Connect), None);
    assert_eq!(hs.state, HandshakeState::AwaitKernelVersion);
    assert_eq!(hs.step(HandshakeEvent::Packet(vec![0, 1, 2])), Some(vec![1]));
    assert_eq!(hs.state, HandshakeState::AwaitHash);
    assert_eq!(hs.step(HandshakeEvent::Packet(vec![9, 9, 9, 9])), Some(vec![0]));
    assert_eq!(hs.state, HandshakeState::Connected);
    assert_eq!(hs.step(HandshakeEvent::Other), None);
    assert_eq!(hs.state, HandshakeState::Connected);
}

#[test]
fn no_connect_is_invalid_handshake() {
    let mut hs = start();
    assert_eq!(hs.step(HandshakeEvent::Packet(vec![1])), None);
    assert_eq!(hs.state, HandshakeState::Failed(ConnectionError::InvalidHandshake));
}

#[test]
fn other_kernel_is_refused() {
    let mut hs = start();
    hs.step(HandshakeEvent::Connect);
    assert_eq!(hs.step(HandshakeEvent::Packet(vec![0, 2, 2, 7])), Some(vec![0]));
    assert_eq!(hs.state, HandshakeState::Failed(ConnectionError::DifferentServerKernelVersion((0, 2, 2))));
}

#[test]
fn missing_version_is_invalid_handshake() {
    let mut hs = start();
    hs.step(HandshakeEvent::Connect);
    assert_eq!(hs.step(HandshakeEvent::Other), None);
    assert_eq!(hs.state, HandshakeState::Failed(ConnectionError::InvalidHandshake));
}

#[test]
fn missing_hash() {
    let mut hs = start();
    hs.step(HandshakeEvent::Connect);
    hs.step(HandshakeEvent::Packet(vec![0, 1, 2]));
    assert_eq!(hs.step(HandshakeEvent::Other), None);
    assert_eq!(hs.state, HandshakeState::Failed(ConnectionError::MissingRegistryHash));
}

#[test]
fn other_hash_asks_for_mods_then_fails() {
    let mut hs = start();
    hs.step(HandshakeEvent::Connect);
    hs.step(HandshakeEvent::Packet(vec![0, 1, 2]));
    assert_eq!(hs.step(HandshakeEvent::Packet(vec![9, 9, 9])), Some(vec![1]));
    assert_eq!(hs.state, HandshakeState::AwaitModList);
    assert_eq!(hs.step(HandshakeEvent::ModList(true)), None);
    assert_eq!(hs.state, HandshakeState::Failed(ConnectionError::InvalidMods));
}

#[test]
fn undecodable_mod_list_fails() {
    let mut hs = start();
    hs.step(HandshakeEvent::Connect);
    hs.step(HandshakeEvent::Packet(vec![0, 1, 2]));
    hs.step(HandshakeEvent::Packet(vec![1]));
    assert_eq!(hs.state, HandshakeState::AwaitModList);
    assert_eq!(hs.step(HandshakeEvent::ModList(false)), None);
    assert_eq!(hs.state, HandshakeState::Failed(ConnectionError::InvalidModList));
}

#[test]
fn raw_packet_for_mod_list_counts_as_undecoded() {
    let mut hs = start();
    hs.step(HandshakeEvent::Connect);
    hs.step(HandshakeEvent::Packet(vec![0, 1, 2]));
    hs.step(HandshakeEvent::Packet(vec![1]));
    assert_eq!(hs.step(HandshakeEvent::Packet(vec![7])), None);
    assert_eq!(hs.state, HandshakeState::Failed(ConnectionError::InvalidModList));
}

#[test]
fn missing_mod_list() {
    let mut hs = start();
    hs.step(HandshakeEvent::Connect);
    hs.step(HandshakeEvent::Packet(vec![0, 1, 2]));
    hs.step(HandshakeEvent::Packet(vec![1]));
    assert_eq!(hs.step(HandshakeEvent::Other), None);
    assert_eq!(hs.state, HandshakeState::Failed(ConnectionError::MissingModList));
}

const SERVER: PeerAddr = PeerAddr { ip: 0xffff_7f00_0001, port: 42069 };
const STRANGER: PeerAddr = PeerAddr { ip: 0xffff_0a00_0002, port: 1234 };

#[test]
fn receive_keeps_decoded_packets_from_the_server() {
    let mut server = RemoteServer::new(SERVER);
    let events = vec![
        SocketEvent::Packet { from: SERVER, payload: Some("chunk") },
        SocketEvent::Packet { from: STRANGER, payload: Some("spoof") },
        SocketEvent::Packet { from: SERVER, payload: None },
        SocketEvent::Timeout(SERVER),
        SocketEvent::Disconnect(STRANGER),
        SocketEvent::Connect(STRANGER),
        SocketEvent::Packet { from: SERVER, payload: Some("entity") },
    ];
    assert_eq!(server.receive(events), vec!["chunk", "entity"]);
    assert!(!server.shutdown);
}

#[test]
fn receive_stops_at_the_servers_disconnect() {
    let mut server = RemoteServer::new(SERVER);
    let events = vec![
        SocketEvent::Packet { from: SERVER, payload: Some(1u8) },
        SocketEvent::Disconnect(SERVER),
        SocketEvent::Packet { from: SERVER, payload: Some(2u8) },
    ];
    assert_eq!(server.receive(events), Vec::<u8>::new());
    assert!(server.shutdown);
    assert_eq!(server.receive(Vec::<SocketEvent<u8>>::new()), Vec::<u8>::new());
    assert!(server.shutdown);
}
