//! Per-packet header: source identity and send-time timestamp.

use vstd::prelude::*;
use crate::id::{Id, IdView};
use crate::util::timestamp;

verus! {

/// The mathematical value of a [`PacketHeader`].
pub ghost struct PacketHeaderView {
    pub source: IdView,
    pub timestamp: u128,
}

/// Header carried by every packet: who sent it, and the sender's clock at
/// send time. Created once per outbound packet, never mutated.
#[derive(Debug)]
pub struct PacketHeader {
    source: Id,
    timestamp: u128,
}

impl View for PacketHeader {
    type V = PacketHeaderView;

    closed spec fn view(&self) -> PacketHeaderView {
        PacketHeaderView { source: self.source@, timestamp: self.timestamp }
    }
}

impl DeepView for PacketHeader {
    type V = PacketHeaderView;

    open spec fn deep_view(&self) -> PacketHeaderView {
        self.view()
    }
}

impl Clone for PacketHeader {
    fn clone(&self) -> (r: Self)
        ensures
            r@ == self@,
    {
        PacketHeader { source: self.source.clone(), timestamp: self.timestamp }
    }
}

impl PacketHeader {
    /// A header for a packet sent now by `source`: the timestamp is a fresh
    /// clock reading.
    pub fn new(source: Id) -> (h: PacketHeader)
        ensures
            h@.source == source@,
    {
        PacketHeader { source, timestamp: timestamp() }
    }

    /// A header with every field given; the decoder rebuilds received
    /// headers through this.
    pub fn from_parts(source: Id, timestamp: u128) -> (h: PacketHeader)
        ensures
            h@ == (PacketHeaderView { source: source@, timestamp }),
    {
        PacketHeader { source, timestamp }
    }

    /// The identity this packet came from.
    pub fn source(&self) -> (r: &Id)
        ensures
            r@ == self@.source,
    {
        &self.source
    }

    /// The sender's clock reading at send time.
    pub fn timestamp(&self) -> (r: u128)
        ensures
            r == self@.timestamp,
    {
        self.timestamp
    }
}

} // verus!
