//! The codec's packet-level facade: stamp outbound payloads with this
//! node's identity and a send-time header, and read whole packets back out
//! of received bytes.

use vstd::prelude::*;
use crate::codec::{decode_packet, dec_packet, encode_packet, enc_packet, wf_packet};
use crate::err::{TResult, TellErr};
use crate::header::PacketHeaderView;
use crate::id::{Id, IdView};
use crate::packet::{Packet, PacketType, PacketView};

verus! {

/// Turns outbound payloads into wire bytes, stamping each with this node's
/// identity and a fresh send-time header.
#[derive(Debug)]
pub struct PacketBuilder {
    id: Id,
}

impl View for PacketBuilder {
    type V = IdView;

    closed spec fn view(&self) -> IdView {
        self.id@
    }
}

impl Clone for PacketBuilder {
    fn clone(&self) -> (r: Self)
        ensures
            r@ == self@,
    {
        PacketBuilder { id: self.id.clone() }
    }
}

impl PacketBuilder {
    pub fn new(id: Id) -> (b: PacketBuilder)
        ensures
            b@ == id@,
    {
        PacketBuilder { id }
    }

    /// Encode `packet` as one wire datagram from this node: the bytes are
    /// the encoding of a packet whose source is this node's identity, whose
    /// timestamp is the clock reading taken now, and whose payload is
    /// exactly `packet`. Encoding never fails.
    pub fn serialize(&self, packet: PacketType) -> (r: TResult<Vec<u8>>)
        ensures
            r is Ok,
            r matches Ok(bytes) ==> exists|ts: u128|
                bytes@ == #[trigger] enc_packet(
                    (PacketView {
                        header: PacketHeaderView { source: self@, timestamp: ts },
                        payload: packet@,
                    }),
                ),
    {
        let p = self.gen_packet(packet);
        let bytes = encode_packet(&p);
        proof {
            assert(bytes@ == enc_packet(
                PacketView {
                    header: PacketHeaderView { source: self@, timestamp: p@.header.timestamp },
                    payload: p@.payload,
                },
            ));
        }
        Ok(bytes)
    }

    fn gen_packet(&self, packet: PacketType) -> (p: Packet)
        ensures
            p@.header.source == self@,
            p@.payload == packet@,
    {
        Packet::new(self.id.clone(), packet)
    }
}

/// Reads whole packets back out of received bytes.
#[derive(Debug, Clone)]
pub struct PacketReader {}

impl PacketReader {
    pub fn new() -> PacketReader {
        PacketReader {  }
    }

    /// Decode the packet at the front of `buf`: succeeds exactly where a
    /// packet parses, and then returns exactly the packet value the bytes
    /// encode; bytes past it are ignored, as for a reader consuming the
    /// front of a buffer.
    pub fn deserialize(&self, buf: &Vec<u8>) -> (r: TResult<Packet>)
        ensures
            match dec_packet(buf@) {
                Some(v) => r matches Ok(p) && p@ == v.0,
                None => r matches Err(TellErr::Decode),
            },
    {
        decode_packet(buf)
    }
}

} // verus!
