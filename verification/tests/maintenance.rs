use tell_lib::addr::Addr;
use tell_lib::adapter::{
    handle_received, maintain_conns, resolve_send_mode, AdapterConfig, SendMode,
    UDP_HEARTBEAT_INTERVAL_NANOS, UDP_TIMEOUT_NANOS,
};
use tell_lib::conn::UdpConnection;
use tell_lib::event::UdpAdapterEvent;
use tell_lib::id::Id;
use tell_lib::packet::{ClientPacket, DisconnectReason, Packet, PacketType};
use tell_lib::shared_state::UdpSharedState;

fn addr(n: u16) -> Addr {
    Addr::new(0x0A000001, 4000 + n)
}

fn table_with_one(now: u128) -> (UdpSharedState, Id) {
    let mut t = UdpSharedState::new(AdapterConfig { port: 7000, max_conns: 4 });
    let ann = Id::new("Ann".to_owned()).unwrap();
    t.add_conn(UdpConnection::incoming(addr(1), ann.clone(), now)).unwrap();
    (t, ann)
}

#[test]
fn quiet_connection_needs_no_maintenance() {
    let (t, _) = table_with_one(1_000);
    let (heartbeats, events) = maintain_conns(&t, 1_000 + UDP_HEARTBEAT_INTERVAL_NANOS - 1);
    assert!(heartbeats.is_empty());
    assert!(events.is_empty());
}

#[test]
fn idle_outbound_side_is_due_a_heartbeat() {
    let (t, _) = table_with_one(1_000);
    let now = 1_000 + UDP_HEARTBEAT_INTERVAL_NANOS;
    let (heartbeats, events) = maintain_conns(&t, now);
    assert_eq!(heartbeats, vec![addr(1)]);
    // Not yet stale on the inbound side.
    assert!(events.is_empty());
}

#[test]
fn heartbeat_transmission_updates_send_metrics_like_any_send() {
    let (mut t, _) = table_with_one(1_000);
    let now = 1_000 + UDP_HEARTBEAT_INTERVAL_NANOS;
    let (heartbeats, _) = maintain_conns(&t, now);
    for a in heartbeats {
        t.record_send(a, 46, now);
    }
    let m = t.get_conn(addr(1)).unwrap().send_metrics();
    assert_eq!(m.packets_transfer, 1);
    assert_eq!(m.bytes_transfer, 46);
    assert_eq!(m.last_transfer, now);
    // Once recorded, the connection is no longer due a heartbeat.
    let (heartbeats, _) = maintain_conns(&t, now);
    assert!(heartbeats.is_empty());
}

#[test]
fn stale_inbound_side_times_out_exactly_once_per_pass() {
    let (t, ann) = table_with_one(1_000);
    let now = 1_000 + UDP_TIMEOUT_NANOS;
    let (_, events) = maintain_conns(&t, now);
    assert_eq!(events.len(), 1);
    match &events[0] {
        UdpAdapterEvent::PeerDisconnect(a, id, reason) => {
            assert_eq!(*a, addr(1));
            assert_eq!(id.as_ref(), Some(&ann));
            assert_eq!(*reason, DisconnectReason::Timeout);
        },
        other => panic!("unexpected event: {:?}", other),
    }
    // While it stays stale, each pass raises the event again, still once.
    let (_, events) = maintain_conns(&t, now + 1);
    assert_eq!(events.len(), 1);
}

#[test]
fn inbound_traffic_resets_staleness() {
    let (mut t, _) = table_with_one(1_000);
    let now = 1_000 + UDP_TIMEOUT_NANOS;
    t.record_recv(addr(1), 10, now - 5);
    let (_, events) = maintain_conns(&t, now);
    assert!(events.is_empty());
}

#[test]
fn received_payload_becomes_an_event_and_updates_metrics() {
    let (mut t, ann) = table_with_one(1_000);
    let packet = Packet::client(ann, ClientPacket::RequestPeers);
    let ev = handle_received(&mut t, addr(1), 33, packet, 2_000);
    match ev {
        Some(UdpAdapterEvent::Payload(a, p)) => {
            assert_eq!(a, addr(1));
            assert!(matches!(p.payload, PacketType::Client(ClientPacket::RequestPeers)));
        },
        other => panic!("unexpected event: {:?}", other),
    }
    let m = t.get_conn(addr(1)).unwrap().recv_metrics();
    assert_eq!(m.packets_transfer, 1);
    assert_eq!(m.bytes_transfer, 33);
    assert_eq!(m.last_transfer, 2_000);
}

#[test]
fn heartbeats_never_become_events_nor_open_connections() {
    let (mut t, ann) = table_with_one(1_000);
    // Known address: bookkeeping only.
    let ev = handle_received(&mut t, addr(1), 46, Packet::new(ann.clone(), PacketType::Heartbeat), 2_000);
    assert!(ev.is_none());
    assert_eq!(t.get_conn(addr(1)).unwrap().recv_metrics().packets_transfer, 1);
    // Unknown address: ignored entirely.
    let ev = handle_received(&mut t, addr(7), 46, Packet::new(ann, PacketType::Heartbeat), 2_000);
    assert!(ev.is_none());
    assert_eq!(t.conn_count(), 1);
}

#[test]
fn unknown_sender_is_a_new_connection_attempt() {
    let (mut t, ann) = table_with_one(1_000);
    let packet = Packet::client(ann, ClientPacket::Connect);
    let ev = handle_received(&mut t, addr(9), 60, packet, 2_000);
    assert!(matches!(ev, Some(UdpAdapterEvent::PeerConnect(a, _)) if a == addr(9)));
    // The table itself is untouched; registering is the engine's decision.
    assert_eq!(t.conn_count(), 1);
}

#[test]
fn send_modes_resolve_to_address_sets() {
    let (t, _) = table_with_one(0);
    assert_eq!(resolve_send_mode(&t, SendMode::Broadcast), vec![addr(1)]);
    assert_eq!(
        resolve_send_mode(&t, SendMode::Multicast(vec![addr(5), addr(6)])),
        vec![addr(5), addr(6)]
    );
    assert_eq!(resolve_send_mode(&t, SendMode::Unicast(addr(2))), vec![addr(2)]);
}
