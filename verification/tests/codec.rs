use tell_lib::builder::{PacketBuilder, PacketReader};
use tell_lib::err::TellErr;
use tell_lib::id::Id;
use tell_lib::packet::{ClientPacket, DisconnectReason, PacketType, ServerPacket, TargetMode};

fn bob() -> Id {
    Id::new("Bob".to_owned()).unwrap()
}

fn alice() -> Id {
    Id::new("Alice".to_owned()).unwrap()
}

#[test]
fn serialize() {
    let builder = PacketBuilder::new(bob());
    let packet = PacketType::Server(ServerPacket::PeerConnected(alice()));
    let bytes = builder.serialize(packet).unwrap();
    // header: id("Bob") = 8 + 3 + 16 = 27, timestamp 16 -> 43
    // payload: tag 1, tag 0, id("Alice") = 8 + 5 + 16 = 29 -> 31
    assert_eq!(bytes.len(), 74);
}

#[test]
fn deserialize() {
    let builder = PacketBuilder::new(bob());
    let packet = PacketType::Server(ServerPacket::PeerConnected(alice()));
    let bytes = builder.serialize(packet.clone()).unwrap();
    assert_eq!(bytes.len(), 74);
    let reader = PacketReader::new();
    let de_packet = reader.deserialize(&bytes).unwrap();
    assert_eq!(packet, de_packet.payload);
}

#[test]
fn round_trip_every_client_variant() {
    let reader = PacketReader::new();
    let builder = PacketBuilder::new(bob());
    let payloads = vec![
        ClientPacket::Connect,
        ClientPacket::Disconnect,
        ClientPacket::RequestPeers,
        ClientPacket::Message(TargetMode::Broadcast, "hi there".to_owned()),
        ClientPacket::Message(TargetMode::Multicast(vec![alice(), bob()]), "psst".to_owned()),
        ClientPacket::Message(TargetMode::Unicast(alice()), String::new()),
    ];
    for p in payloads {
        let packet = PacketType::Client(p);
        let bytes = builder.serialize(packet.clone()).unwrap();
        let back = reader.deserialize(&bytes).unwrap();
        assert_eq!(packet, back.payload);
        assert_eq!(back.header.source(), &bob_with_sign(&builder));
    }
}

// The builder stamps its own identity; recover it for the comparison by
// encoding a packet and reading the header back.
fn bob_with_sign(builder: &PacketBuilder) -> Id {
    let bytes = builder.serialize(PacketType::Heartbeat).unwrap();
    PacketReader::new()
        .deserialize(&bytes)
        .unwrap()
        .header
        .source()
        .clone()
}

#[test]
fn round_trip_every_server_variant() {
    let reader = PacketReader::new();
    let builder = PacketBuilder::new(alice());
    let payloads = vec![
        ServerPacket::PeerConnected(bob()),
        ServerPacket::PeerDisconnected(bob(), DisconnectReason::Manual),
        ServerPacket::PeerDisconnected(bob(), DisconnectReason::Timeout),
        ServerPacket::PeerTimedOut(bob()),
        ServerPacket::Message {
            source: bob(),
            target_mode: TargetMode::Multicast(vec![alice()]),
            text: "héllo wörld — ünïcode".to_owned(),
        },
        ServerPacket::RequestReply(vec![]),
        ServerPacket::RequestReply(vec![alice(), bob(), alice()]),
    ];
    for p in payloads {
        let packet = PacketType::Server(p);
        let bytes = builder.serialize(packet.clone()).unwrap();
        let back = reader.deserialize(&bytes).unwrap();
        assert_eq!(packet, back.payload);
    }
}

#[test]
fn round_trip_heartbeat() {
    let builder = PacketBuilder::new(bob());
    let bytes = builder.serialize(PacketType::Heartbeat).unwrap();
    let back = PacketReader::new().deserialize(&bytes).unwrap();
    assert_eq!(PacketType::Heartbeat, back.payload);
}

#[test]
fn truncated_bytes_fail_decoding() {
    let builder = PacketBuilder::new(bob());
    let bytes = builder
        .serialize(PacketType::Client(ClientPacket::Connect))
        .unwrap();
    let reader = PacketReader::new();
    for cut in [0, 1, 7, 8, 20, bytes.len() - 1] {
        let truncated: Vec<u8> = bytes[..cut].to_vec();
        assert_eq!(reader.deserialize(&truncated).unwrap_err(), TellErr::Decode);
    }
}

#[test]
fn unknown_tag_fails_decoding() {
    let builder = PacketBuilder::new(bob());
    let mut bytes = builder
        .serialize(PacketType::Client(ClientPacket::Connect))
        .unwrap();
    let last = bytes.len() - 1;
    bytes[last] = 99;
    assert_eq!(PacketReader::new().deserialize(&bytes).unwrap_err(), TellErr::Decode);
}

#[test]
fn trailing_bytes_are_ignored() {
    let builder = PacketBuilder::new(bob());
    let packet = PacketType::Client(ClientPacket::RequestPeers);
    let mut bytes = builder.serialize(packet.clone()).unwrap();
    bytes.push(0xAB);
    bytes.push(0xCD);
    let back = PacketReader::new().deserialize(&bytes).unwrap();
    assert_eq!(packet, back.payload);
}
