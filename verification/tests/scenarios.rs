//! End-to-end runs of both protocol engines over a simulated wire: commands
//! are resolved against the sender's table, encoded with the sender's
//! builder, carried as plain bytes, and fed to the receiver's adapter
//! bookkeeping, exactly as the application's socket loop would do.

use tell_lib::addr::Addr;
use tell_lib::adapter::{
    handle_received, maintain_conns, resolve_send_mode, AdapterConfig, SendCommand,
    UDP_TIMEOUT_NANOS,
};
use tell_lib::builder::{PacketBuilder, PacketReader};
use tell_lib::client::Client;
use tell_lib::conn::ConnectionState;
use tell_lib::err::{LibErr, TellErr};
use tell_lib::event::UdpAdapterEvent;
use tell_lib::id::Id;
use tell_lib::packet::{DisconnectReason, PacketType, ServerPacket, TargetMode};
use tell_lib::server::Server;
use tell_lib::shared_state::UdpSharedState;

fn server_addr() -> Addr {
    Addr::new(1, 22089)
}

/// Resolve, encode and "send" a batch of commands: each delivery is the
/// target address plus the bytes on the wire.
fn transmit(
    table: &mut UdpSharedState,
    builder: &PacketBuilder,
    cmds: Vec<SendCommand>,
    now: u128,
) -> Vec<(Addr, Vec<u8>)> {
    let mut out = Vec::new();
    for SendCommand(mode, packet) in cmds {
        let addrs = resolve_send_mode(table, mode);
        let bytes = builder.serialize(packet).unwrap();
        for a in addrs {
            table.record_send(a, bytes.len(), now);
            out.push((a, bytes.clone()));
        }
    }
    out
}

/// One receive on the given endpoint: decode and run the adapter's inbound
/// bookkeeping, yielding the event its engine will see, if any.
fn receive(
    table: &mut UdpSharedState,
    from: Addr,
    bytes: &Vec<u8>,
    now: u128,
) -> Option<UdpAdapterEvent> {
    let packet = PacketReader::new().deserialize(bytes).unwrap();
    handle_received(table, from, bytes.len(), packet, now)
}

struct TestClient {
    addr: Addr,
    engine: Client,
    table: UdpSharedState,
    builder: PacketBuilder,
}

fn new_client(name: &str, port: u16) -> TestClient {
    let id = Id::new(name.to_owned()).unwrap();
    let (engine, table) = Client::new(id.clone(), port);
    TestClient { addr: Addr::new(2, port), engine, table, builder: PacketBuilder::new(id) }
}

/// Run one client's handshake against the server; deliveries aimed at other
/// clients (join announcements) are dropped here, as their sockets would
/// simply queue them.
fn establish(
    server: &Server,
    s_table: &mut UdpSharedState,
    s_builder: &PacketBuilder,
    c: &mut TestClient,
    now: u128,
) {
    let cmd = c.engine.connect(&mut c.table, server_addr(), now).unwrap();
    let deliveries = transmit(&mut c.table, &c.builder, vec![cmd], now);
    let mut s_events = Vec::new();
    for (target, bytes) in deliveries {
        assert_eq!(target, server_addr());
        if let Some(ev) = receive(s_table, c.addr, &bytes, now) {
            s_events.push(ev);
        }
    }
    let (cmds, res) = server.poll(s_table, &mut s_events, now);
    res.unwrap();
    let mut c_events = Vec::new();
    for (target, bytes) in transmit(s_table, s_builder, cmds, now) {
        if target == c.addr {
            if let Some(ev) = receive(&mut c.table, server_addr(), &bytes, now) {
                c_events.push(ev);
            }
        }
    }
    let (_, res) = c.engine.poll(&mut c.table, &mut c_events);
    res.unwrap();
    assert!(c.engine.connected(&c.table).is_some());
}

/// Carry a chat command from a client through the server to every addressed
/// client, polling each recipient.
fn relay_message(
    server: &Server,
    s_table: &mut UdpSharedState,
    s_builder: &PacketBuilder,
    sender_idx: usize,
    cmd: SendCommand,
    clients: &mut [&mut TestClient],
    now: u128,
) {
    let deliveries = {
        let sender = &mut *clients[sender_idx];
        transmit(&mut sender.table, &sender.builder, vec![cmd], now)
    };
    let mut s_events = Vec::new();
    for (target, bytes) in deliveries {
        assert_eq!(target, server_addr());
        let from = clients[sender_idx].addr;
        if let Some(ev) = receive(s_table, from, &bytes, now) {
            s_events.push(ev);
        }
    }
    let (cmds, res) = server.poll(s_table, &mut s_events, now);
    res.unwrap();
    for (target, bytes) in transmit(s_table, s_builder, cmds, now) {
        for c in clients.iter_mut() {
            if c.addr == target {
                let mut evs = Vec::new();
                if let Some(ev) = receive(&mut c.table, server_addr(), &bytes, now) {
                    evs.push(ev);
                }
                let (_, res) = c.engine.poll(&mut c.table, &mut evs);
                res.unwrap();
            }
        }
    }
}

#[test]
fn handshake_establishes_one_bound_connection() {
    let chef = Id::new("Chef".to_owned()).unwrap();
    let (server, mut s_table) = Server::setup(chef.clone(), AdapterConfig {
        port: 22089,
        max_conns: 3,
    });
    let s_builder = PacketBuilder::new(chef);
    let mut ann = new_client("Ann", 33089);

    establish(&server, &mut s_table, &s_builder, &mut ann, 100);

    assert_eq!(s_table.conn_count(), 1);
    let conn = s_table.get_conn(ann.addr).unwrap();
    assert_eq!(conn.conn_state(), ConnectionState::Established);
    assert_eq!(conn.id().unwrap().name(), "Ann");
    // The client observed its own join announcement: handshake confirmed.
    assert_eq!(ann.engine.connected(&ann.table).unwrap().name(), "Chef");
}

#[test]
fn broadcast_message_reaches_every_chat_log() {
    let chef = Id::new("Chef".to_owned()).unwrap();
    let (server, mut s_table) = Server::setup(chef.clone(), AdapterConfig {
        port: 22089,
        max_conns: 3,
    });
    let s_builder = PacketBuilder::new(chef);
    let mut ann = new_client("Ann", 33089);
    let mut bob = new_client("Bob", 33090);
    establish(&server, &mut s_table, &s_builder, &mut ann, 100);
    establish(&server, &mut s_table, &s_builder, &mut bob, 100);

    let cmd = ann.engine.message(TargetMode::Broadcast, "hi".to_owned()).unwrap();
    relay_message(&server, &mut s_table, &s_builder, 0, cmd, &mut [&mut ann, &mut bob], 200);

    for c in [&ann, &bob] {
        let log = c.engine.chat_log();
        assert_eq!(log.len(), 1);
        assert_eq!(log[0].0.name(), "Ann");
        assert_eq!(log[0].1, "hi");
    }
}

#[test]
fn multicast_message_reaches_only_the_named_peer() {
    let chef = Id::new("Chef".to_owned()).unwrap();
    let (server, mut s_table) = Server::setup(chef.clone(), AdapterConfig {
        port: 22089,
        max_conns: 4,
    });
    let s_builder = PacketBuilder::new(chef);
    let mut ann = new_client("Ann", 33089);
    let mut bob = new_client("Bob", 33090);
    let mut cara = new_client("Cara", 33091);
    establish(&server, &mut s_table, &s_builder, &mut ann, 100);
    establish(&server, &mut s_table, &s_builder, &mut bob, 100);
    establish(&server, &mut s_table, &s_builder, &mut cara, 100);

    // Ann learns Bob's exact identity (name and token) from a peer-list
    // request, as the command-line front end would.
    let cmd = ann.engine.send_packet(tell_lib::packet::ClientPacket::RequestPeers).unwrap();
    let deliveries = transmit(&mut ann.table, &ann.builder, vec![cmd], 150);
    let mut s_events = Vec::new();
    for (_, bytes) in deliveries {
        if let Some(ev) = receive(&mut s_table, ann.addr, &bytes, 150) {
            s_events.push(ev);
        }
    }
    let (cmds, res) = server.poll(&mut s_table, &mut s_events, 150);
    res.unwrap();
    let mut peer_lists = Vec::new();
    for (target, bytes) in transmit(&mut s_table, &s_builder, cmds, 150) {
        assert_eq!(target, ann.addr);
        let mut evs = Vec::new();
        if let Some(ev) = receive(&mut ann.table, server_addr(), &bytes, 150) {
            evs.push(ev);
        }
        let (mut replies, res) = ann.engine.poll(&mut ann.table, &mut evs);
        res.unwrap();
        peer_lists.append(&mut replies);
    }
    let peers = peer_lists.pop().unwrap();
    let bob_id = peers.iter().find(|p| p.name() == "Bob").unwrap().clone();

    let cmd = ann
        .engine
        .message(TargetMode::Multicast(vec![bob_id]), "psst".to_owned())
        .unwrap();
    relay_message(
        &server,
        &mut s_table,
        &s_builder,
        0,
        cmd,
        &mut [&mut ann, &mut bob, &mut cara],
        200,
    );

    assert_eq!(bob.engine.chat_log().len(), 1);
    assert_eq!(bob.engine.chat_log()[0].1, "psst");
    assert!(ann.engine.chat_log().is_empty());
    assert!(cara.engine.chat_log().is_empty());
}

#[test]
fn silenced_client_times_out_and_departure_is_announced() {
    let chef = Id::new("Chef".to_owned()).unwrap();
    let (server, mut s_table) = Server::setup(chef.clone(), AdapterConfig {
        port: 22089,
        max_conns: 3,
    });
    let s_builder = PacketBuilder::new(chef);
    let mut ann = new_client("Ann", 33089);
    let mut bob = new_client("Bob", 33090);
    establish(&server, &mut s_table, &s_builder, &mut ann, 100);
    establish(&server, &mut s_table, &s_builder, &mut bob, 100);

    // Bob's socket falls silent; Ann stays chatty.
    let later = 100 + UDP_TIMEOUT_NANOS;
    s_table.record_recv(ann.addr, 46, later - 1);

    let (_, events) = maintain_conns(&s_table, later);
    assert_eq!(events.len(), 1);
    let mut events = events;
    let (cmds, res) = server.poll(&mut s_table, &mut events, later);
    res.unwrap();

    // The server no longer knows Bob's address.
    assert!(s_table.get_conn(bob.addr).is_none());
    assert_eq!(s_table.conn_count(), 1);

    // The remaining client observes the timeout departure on its wire.
    let mut seen = false;
    for (target, bytes) in transmit(&mut s_table, &s_builder, cmds, later) {
        assert_eq!(target, ann.addr);
        let packet = PacketReader::new().deserialize(&bytes).unwrap();
        match packet.payload {
            PacketType::Server(ServerPacket::PeerDisconnected(id, reason)) => {
                assert_eq!(id.name(), "Bob");
                assert_eq!(reason, DisconnectReason::Timeout);
                seen = true;
            },
            other => panic!("unexpected broadcast: {:?}", other),
        }
    }
    assert!(seen);
}

#[test]
fn client_commands_require_a_connection() {
    let mut ann = new_client("Ann", 33089);
    let err = ann
        .engine
        .message(TargetMode::Broadcast, "hi".to_owned())
        .unwrap_err();
    assert_eq!(err, TellErr::Lib(LibErr::NotConnected));
    let err = ann.engine.disconnect(&mut ann.table).unwrap_err();
    assert_eq!(err, TellErr::Lib(LibErr::NotConnected));

    ann.engine.connect(&mut ann.table, server_addr(), 5).unwrap();
    let err = ann
        .engine
        .connect(&mut ann.table, server_addr(), 5)
        .unwrap_err();
    assert_eq!(err, TellErr::Lib(LibErr::PeerAlreadyConnected(server_addr())));

    // Disconnecting tears the local record down again.
    ann.engine.disconnect(&mut ann.table).unwrap();
    assert!(!ann.engine.connecting());
    assert_eq!(ann.table.conn_count(), 0);
}
