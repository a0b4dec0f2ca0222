//! Events the adapter publishes onto its inbound event queue.

use vstd::prelude::*;
use crate::addr::Addr;
use crate::id::{Id, IdView};
use crate::packet::{DisconnectReason, Packet, PacketView};

verus! {

/// The mathematical value of a [`UdpAdapterEvent`].
pub ghost enum UdpAdapterEventView {
    PeerConnect(Addr, PacketView),
    PeerDisconnect(Addr, Option<IdView>, DisconnectReason),
    Payload(Addr, PacketView),
}

/// One observation made by the adapter, delivered to a protocol engine in
/// the order the adapter made it.
#[derive(Debug, Clone)]
pub enum UdpAdapterEvent {
    /// A non-heartbeat packet arrived from an address the table does not
    /// know: a new-connection attempt.
    PeerConnect(Addr, Packet),
    /// A connection fell silent past the timeout-grace threshold, or left;
    /// the identity is the one bound to the connection, if any.
    PeerDisconnect(Addr, Option<Id>, DisconnectReason),
    /// A non-heartbeat packet arrived on a known connection.
    Payload(Addr, Packet),
}

impl View for UdpAdapterEvent {
    type V = UdpAdapterEventView;

    open spec fn view(&self) -> UdpAdapterEventView {
        match self {
            UdpAdapterEvent::PeerConnect(a, p) => UdpAdapterEventView::PeerConnect(*a, p@),
            UdpAdapterEvent::PeerDisconnect(a, id, r) => UdpAdapterEventView::PeerDisconnect(
                *a,
                id.deep_view(),
                *r,
            ),
            UdpAdapterEvent::Payload(a, p) => UdpAdapterEventView::Payload(*a, p@),
        }
    }
}

impl DeepView for UdpAdapterEvent {
    type V = UdpAdapterEventView;

    open spec fn deep_view(&self) -> UdpAdapterEventView {
        self.view()
    }
}

} // verus!
