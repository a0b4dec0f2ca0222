//! The wire data model: packets, their payload variants, and target modes.

use vstd::prelude::*;
use crate::header::{PacketHeader, PacketHeaderView};
use crate::id::{Id, IdView};

verus! {

/// How a chat message's recipients are selected.
#[derive(Debug, Clone, PartialEq)]
pub enum TargetMode {
    /// Every known peer.
    Broadcast,
    /// Exactly the named identities.
    Multicast(Vec<Id>),
    /// One identity.
    Unicast(Id),
}

/// The mathematical value of a [`TargetMode`].
pub ghost enum TargetModeView {
    Broadcast,
    Multicast(Seq<IdView>),
    Unicast(IdView),
}

impl View for TargetMode {
    type V = TargetModeView;

    open spec fn view(&self) -> TargetModeView {
        match self {
            TargetMode::Broadcast => TargetModeView::Broadcast,
            TargetMode::Multicast(ids) => TargetModeView::Multicast(ids.deep_view()),
            TargetMode::Unicast(id) => TargetModeView::Unicast(id@),
        }
    }
}

impl DeepView for TargetMode {
    type V = TargetModeView;

    open spec fn deep_view(&self) -> TargetModeView {
        self.view()
    }
}

/// What a client sends to the server.
#[derive(Debug, Clone, PartialEq)]
pub enum ClientPacket {
    /// Open a connection; the sender's identity is in the header.
    Connect,
    /// Close the connection deliberately.
    Disconnect,
    /// A chat message and how to fan it out.
    Message(TargetMode, String),
    /// Ask for the identities of every established peer.
    RequestPeers,
}

/// The mathematical value of a [`ClientPacket`].
pub ghost enum ClientPacketView {
    Connect,
    Disconnect,
    Message(TargetModeView, Seq<char>),
    RequestPeers,
}

impl View for ClientPacket {
    type V = ClientPacketView;

    open spec fn view(&self) -> ClientPacketView {
        match self {
            ClientPacket::Connect => ClientPacketView::Connect,
            ClientPacket::Disconnect => ClientPacketView::Disconnect,
            ClientPacket::Message(tm, text) => ClientPacketView::Message(tm@, text@),
            ClientPacket::RequestPeers => ClientPacketView::RequestPeers,
        }
    }
}

impl DeepView for ClientPacket {
    type V = ClientPacketView;

    open spec fn deep_view(&self) -> ClientPacketView {
        self.view()
    }
}

/// Why a peer left.
#[derive(Debug, Clone, Copy, PartialEq, Eq, Structural)]
pub enum DisconnectReason {
    /// The peer asked to leave.
    Manual,
    /// The peer fell silent for longer than the timeout-grace threshold.
    Timeout,
}

/// What the server sends to clients.
#[derive(Debug, Clone, PartialEq)]
pub enum ServerPacket {
    /// A peer joined (also confirms the addressee's own handshake).
    PeerConnected(Id),
    /// A peer left, and why (also rejects the addressee's own handshake).
    PeerDisconnected(Id, DisconnectReason),
    /// A peer fell silent.
    PeerTimedOut(Id),
    /// A chat message relayed from `source`.
    Message { source: Id, target_mode: TargetMode, text: String },
    /// The reply to a peer-list request.
    RequestReply(Vec<Id>),
}

/// The mathematical value of a [`ServerPacket`].
pub ghost enum ServerPacketView {
    PeerConnected(IdView),
    PeerDisconnected(IdView, DisconnectReason),
    PeerTimedOut(IdView),
    Message { source: IdView, target_mode: TargetModeView, text: Seq<char> },
    RequestReply(Seq<IdView>),
}

impl View for ServerPacket {
    type V = ServerPacketView;

    open spec fn view(&self) -> ServerPacketView {
        match self {
            ServerPacket::PeerConnected(id) => ServerPacketView::PeerConnected(id@),
            ServerPacket::PeerDisconnected(id, reason) => ServerPacketView::PeerDisconnected(
                id@,
                *reason,
            ),
            ServerPacket::PeerTimedOut(id) => ServerPacketView::PeerTimedOut(id@),
            ServerPacket::Message { source, target_mode, text } => ServerPacketView::Message {
                source: source@,
                target_mode: target_mode@,
                text: text@,
            },
            ServerPacket::RequestReply(ids) => ServerPacketView::RequestReply(ids.deep_view()),
        }
    }
}

impl DeepView for ServerPacket {
    type V = ServerPacketView;

    open spec fn deep_view(&self) -> ServerPacketView {
        self.view()
    }
}

/// A packet's payload: one closed variant set.
#[derive(Debug, Clone, PartialEq)]
pub enum PacketType {
    Client(ClientPacket),
    Server(ServerPacket),
    /// Liveness-only traffic; never surfaced as an application event.
    Heartbeat,
}

/// The mathematical value of a [`PacketType`].
pub ghost enum PacketTypeView {
    Client(ClientPacketView),
    Server(ServerPacketView),
    Heartbeat,
}

impl View for PacketType {
    type V = PacketTypeView;

    open spec fn view(&self) -> PacketTypeView {
        match self {
            PacketType::Client(p) => PacketTypeView::Client(p@),
            PacketType::Server(p) => PacketTypeView::Server(p@),
            PacketType::Heartbeat => PacketTypeView::Heartbeat,
        }
    }
}

impl DeepView for PacketType {
    type V = PacketTypeView;

    open spec fn deep_view(&self) -> PacketTypeView {
        self.view()
    }
}

impl PacketType {
    /// The client payload inside, if this is client traffic.
    pub fn client(self) -> (r: Option<ClientPacket>)
        ensures
            match self@ {
                PacketTypeView::Client(p) => r matches Some(cp) && cp@ == p,
                _ => r is None,
            },
    {
        match self {
            PacketType::Client(packet) => Some(packet),
            _ => None,
        }
    }

    /// The server payload inside, if this is server traffic.
    pub fn server(self) -> (r: Option<ServerPacket>)
        ensures
            match self@ {
                PacketTypeView::Server(p) => r matches Some(sp) && sp@ == p,
                _ => r is None,
            },
    {
        match self {
            PacketType::Server(packet) => Some(packet),
            _ => None,
        }
    }
}

/// The mathematical value of a [`Packet`].
pub ghost struct PacketView {
    pub header: PacketHeaderView,
    pub payload: PacketTypeView,
}

/// One wire packet: header plus payload.
#[derive(Debug, Clone)]
pub struct Packet {
    pub header: PacketHeader,
    pub payload: PacketType,
}

impl View for Packet {
    type V = PacketView;

    open spec fn view(&self) -> PacketView {
        PacketView { header: self.header@, payload: self.payload@ }
    }
}

impl DeepView for Packet {
    type V = PacketView;

    open spec fn deep_view(&self) -> PacketView {
        self.view()
    }
}

impl Packet {
    /// A packet sent now by `source`: the header takes a fresh clock reading.
    pub fn new(source: Id, payload: PacketType) -> (p: Self)
        ensures
            p@.header.source == source@,
            p@.payload == payload@,
    {
        Self { header: PacketHeader::new(source), payload }
    }

    /// A client packet sent now by `source`.
    pub fn client(source: Id, payload: ClientPacket) -> (p: Self)
        ensures
            p@.header.source == source@,
            p@.payload == PacketTypeView::Client(payload@),
    {
        Self::new(source, PacketType::Client(payload))
    }

    /// A server packet sent now by `source`.
    pub fn server(source: Id, payload: ServerPacket) -> (p: Self)
        ensures
            p@.header.source == source@,
            p@.payload == PacketTypeView::Server(payload@),
    {
        Self::new(source, PacketType::Server(payload))
    }

    pub fn header(&self) -> (r: &PacketHeader)
        ensures
            r@ == self@.header,
    {
        &self.header
    }

    pub fn payload(&self) -> (r: &PacketType)
        ensures
            r@ == self@.payload,
    {
        &self.payload
    }
}

} // verus!
