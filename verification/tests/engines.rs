use tell_lib::addr::Addr;
use tell_lib::adapter::AdapterConfig;
use tell_lib::err::{LibErr, TellErr};
use tell_lib::event::UdpAdapterEvent;
use tell_lib::id::Id;
use tell_lib::packet::{ClientPacket, DisconnectReason, Packet, PacketType, ServerPacket};
use tell_lib::server::Server;

fn chef() -> Id {
    Id::new("Chef".to_owned()).unwrap()
}

fn ann() -> Id {
    Id::new("Ann".to_owned()).unwrap()
}

fn addr(n: u16) -> Addr {
    Addr::new(3, 5000 + n)
}

#[test]
fn server_refuses_server_traffic_as_payload() {
    let (server, mut table) = Server::setup(chef(), AdapterConfig { port: 1, max_conns: 4 });
    let packet = Packet::server(ann(), ServerPacket::PeerConnected(ann()));
    let mut events = vec![UdpAdapterEvent::Payload(addr(1), packet)];
    let (cmds, res) = server.poll(&mut table, &mut events, 0);
    assert!(cmds.is_empty());
    assert!(matches!(res, Err(TellErr::Lib(LibErr::InvalidPacketType(_)))));
}

#[test]
fn server_ignores_non_client_connect_events() {
    let (server, mut table) = Server::setup(chef(), AdapterConfig { port: 1, max_conns: 4 });
    let packet = Packet::new(ann(), PacketType::Heartbeat);
    let mut events = vec![UdpAdapterEvent::PeerConnect(addr(1), packet)];
    let (cmds, res) = server.poll(&mut table, &mut events, 0);
    res.unwrap();
    assert!(cmds.is_empty());
    assert_eq!(table.conn_count(), 0);
}

#[test]
fn server_refuses_disconnect_for_unknown_address() {
    let (server, mut table) = Server::setup(chef(), AdapterConfig { port: 1, max_conns: 4 });
    let mut events = vec![UdpAdapterEvent::PeerDisconnect(
        addr(7),
        None,
        DisconnectReason::Manual,
    )];
    let (_, res) = server.poll(&mut table, &mut events, 0);
    assert_eq!(res.unwrap_err(), TellErr::Lib(LibErr::PeerNotConnected(addr(7))));
}

#[test]
fn server_registers_connect_and_announces_it() {
    let (server, mut table) = Server::setup(chef(), AdapterConfig { port: 1, max_conns: 4 });
    let who = ann();
    let packet = Packet::client(who.clone(), ClientPacket::Connect);
    let mut events = vec![UdpAdapterEvent::PeerConnect(addr(1), packet)];
    let (cmds, res) = server.poll(&mut table, &mut events, 50);
    res.unwrap();
    assert_eq!(table.conn_count(), 1);
    assert_eq!(table.get_conn(addr(1)).unwrap().id(), Some(&who));
    assert_eq!(cmds.len(), 1);
    assert!(matches!(
        &cmds[0].1,
        PacketType::Server(ServerPacket::PeerConnected(id)) if id == &who
    ));
}

#[test]
fn first_failure_abandons_the_rest_of_the_batch() {
    let (server, mut table) = Server::setup(chef(), AdapterConfig { port: 1, max_conns: 4 });
    let bad = UdpAdapterEvent::PeerDisconnect(addr(9), None, DisconnectReason::Manual);
    let fine = UdpAdapterEvent::PeerConnect(
        addr(1),
        Packet::client(ann(), ClientPacket::Connect),
    );
    let mut events = vec![bad, fine];
    let (cmds, res) = server.poll(&mut table, &mut events, 0);
    assert!(res.is_err());
    assert!(cmds.is_empty());
    // The later, valid event was never handled.
    assert_eq!(table.conn_count(), 0);
}

#[test]
fn client_refuses_peer_connect_events() {
    let (mut engine, mut table) = tell_lib::client::Client::new(ann(), 9);
    engine.connect(&mut table, addr(1), 0).unwrap();
    let packet = Packet::client(chef(), ClientPacket::Connect);
    let mut events = vec![UdpAdapterEvent::PeerConnect(addr(2), packet)];
    let (_, res) = engine.poll(&mut table, &mut events);
    assert!(matches!(res, Err(TellErr::Lib(LibErr::InvalidPacketType(_)))));
}

#[test]
fn client_poll_requires_a_connection() {
    let (mut engine, mut table) = tell_lib::client::Client::new(ann(), 9);
    let packet = Packet::server(chef(), ServerPacket::PeerConnected(ann()));
    let mut events = vec![UdpAdapterEvent::Payload(addr(1), packet)];
    let (_, res) = engine.poll(&mut table, &mut events);
    assert_eq!(res.unwrap_err(), TellErr::Lib(LibErr::NotConnected));
}

#[test]
fn client_tracks_peer_joins_and_leaves_during_handshake() {
    let (mut engine, mut table) = tell_lib::client::Client::new(ann(), 9);
    engine.connect(&mut table, addr(1), 0).unwrap();
    let bob = Id::new("Bob".to_owned()).unwrap();
    // Still unbound: informational join news lands in the peer set.
    let join = Packet::server(chef(), ServerPacket::PeerConnected(bob.clone()));
    let mut events = vec![UdpAdapterEvent::Payload(addr(1), join)];
    engine.poll(&mut table, &mut events).1.unwrap();
    assert_eq!(engine.peers(), &vec![bob.clone()]);
    // And leave news removes it again.
    let leave = Packet::server(
        chef(),
        ServerPacket::PeerDisconnected(bob, DisconnectReason::Manual),
    );
    let mut events = vec![UdpAdapterEvent::Payload(addr(1), leave)];
    engine.poll(&mut table, &mut events).1.unwrap();
    assert!(engine.peers().is_empty());
}

#[test]
fn handshake_rejection_resets_the_client() {
    let me = ann();
    let (mut engine, mut table) = tell_lib::client::Client::new(me.clone(), 9);
    engine.connect(&mut table, addr(1), 0).unwrap();
    assert!(engine.connecting());
    assert_eq!(table.conn_count(), 1);
    // A rejection is a departure notice naming this client exactly.
    let reject = Packet::server(
        chef(),
        ServerPacket::PeerDisconnected(me, DisconnectReason::Manual),
    );
    let mut events = vec![UdpAdapterEvent::Payload(addr(1), reject)];
    engine.poll(&mut table, &mut events).1.unwrap();
    assert!(!engine.connecting());
    assert_eq!(table.conn_count(), 0);
}
