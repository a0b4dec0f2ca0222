//! The library's error taxonomy.
//!
//! Protocol-layer failures are plain values and are returned synchronously to
//! the caller that raised them. I/O and channel failures belong to the
//! application shell, which wraps this type in its own.

use vstd::prelude::*;
use crate::addr::Addr;

verus! {

/// Protocol-layer failures.
#[derive(Debug, Clone, PartialEq)]
pub enum LibErr {
    /// A packet carried a timestamp the receiver refuses (expected, received).
    InvalidTimestamp(u128, u128),
    /// An identity name outside the accepted length range.
    InvalidName(String),
    /// A packet whose payload kind is not valid in the state it arrived in.
    InvalidPacketType(String),
    /// The address is already present in the connection table.
    PeerAlreadyConnected(Addr),
    /// The address is not present in the connection table.
    PeerNotConnected(Addr),
    /// The connection table already holds this many entries.
    MaxConnectionsReached(usize),
    /// The client has no remote address set.
    NotConnected,
}

/// The mathematical value of a [`LibErr`]. The diagnostic text inside
/// `InvalidPacketType` carries no protocol meaning, so the view drops it.
pub ghost enum LibErrView {
    InvalidTimestamp(u128, u128),
    InvalidName(Seq<char>),
    InvalidPacketType,
    PeerAlreadyConnected(Addr),
    PeerNotConnected(Addr),
    MaxConnectionsReached(int),
    NotConnected,
}

impl View for LibErr {
    type V = LibErrView;

    open spec fn view(&self) -> LibErrView {
        match self {
            LibErr::InvalidTimestamp(a, b) => LibErrView::InvalidTimestamp(*a, *b),
            LibErr::InvalidName(n) => LibErrView::InvalidName(n@),
            LibErr::InvalidPacketType(_) => LibErrView::InvalidPacketType,
            LibErr::PeerAlreadyConnected(a) => LibErrView::PeerAlreadyConnected(*a),
            LibErr::PeerNotConnected(a) => LibErrView::PeerNotConnected(*a),
            LibErr::MaxConnectionsReached(n) => LibErrView::MaxConnectionsReached(*n as int),
            LibErr::NotConnected => LibErrView::NotConnected,
        }
    }
}

/// Every failure a library call can return: a protocol failure, or a
/// rejection of bytes that do not decode to a packet.
#[derive(Debug, Clone, PartialEq)]
pub enum TellErr {
    Lib(LibErr),
    Decode,
}

/// The mathematical value of a [`TellErr`].
pub ghost enum TellErrView {
    Lib(LibErrView),
    Decode,
}

impl View for TellErr {
    type V = TellErrView;

    open spec fn view(&self) -> TellErrView {
        match self {
            TellErr::Lib(e) => TellErrView::Lib(e@),
            TellErr::Decode => TellErrView::Decode,
        }
    }
}

pub type TResult<T> = Result<T, TellErr>;

} // verus!
