//! Per-remote-address session records and their state machine.

use vstd::prelude::*;
use crate::addr::Addr;
use crate::err::TResult;
use crate::id::{Id, IdView};
use crate::util::{Metrics, metrics_transferred};

verus! {

/// Lifecycle of a connection. No transition leads back to `Connecting`: a
/// regression requires removing and re-creating the connection.
#[derive(Debug, Clone, Copy, PartialEq, Eq, Structural)]
pub enum ConnectionState {
    /// We initiated; the peer has not confirmed yet.
    Connecting,
    /// A receive-side acknowledgment step; modelled but not entered today:
    /// connections created on the receiving side go straight to
    /// `Established`.
    Approving,
    /// The remote identity is confirmed; the peer is eligible for delivery.
    Established,
}

/// The interface a connection offers, kept as a named contract in case a
/// second transport is ever added beside UDP.
pub trait Connection {
    fn addr(&self) -> Addr;

    fn conn_state(&self) -> ConnectionState;

    fn id(&self) -> Option<&Id>;

    fn send_metrics(&self) -> Metrics;

    fn recv_metrics(&self) -> Metrics;
}

/// Metrics as they read at creation time `now`.
pub open spec fn fresh_metrics(now: u128) -> Metrics {
    Metrics { bytes_transfer: 0, packets_transfer: 0, last_transfer: now }
}

/// The value of an incoming connection created at `now`, bound to `id`.
pub open spec fn incoming_conn(addr: Addr, id: IdView, now: u128) -> ConnView {
    ConnView {
        addr,
        conn_state: ConnectionState::Established,
        id: Some(id),
        send_m: fresh_metrics(now),
        recv_m: fresh_metrics(now),
    }
}

/// The value of an outgoing connection created at `now`, not yet bound.
pub open spec fn outgoing_conn(addr: Addr, now: u128) -> ConnView {
    ConnView {
        addr,
        conn_state: ConnectionState::Connecting,
        id: None,
        send_m: fresh_metrics(now),
        recv_m: fresh_metrics(now),
    }
}

/// The mathematical value of a [`UdpConnection`].
pub ghost struct ConnView {
    pub addr: Addr,
    pub conn_state: ConnectionState,
    pub id: Option<IdView>,
    pub send_m: Metrics,
    pub recv_m: Metrics,
}

/// One UDP session record: remote address, lifecycle state, the bound peer
/// identity once known, and one metrics record per direction.
#[derive(Debug)]
pub struct UdpConnection {
    addr: Addr,
    conn_state: ConnectionState,
    id: Option<Id>,
    send_m: Metrics,
    recv_m: Metrics,
}

impl View for UdpConnection {
    type V = ConnView;

    closed spec fn view(&self) -> ConnView {
        ConnView {
            addr: self.addr,
            conn_state: self.conn_state,
            id: self.id.deep_view(),
            send_m: self.send_m,
            recv_m: self.recv_m,
        }
    }
}

impl DeepView for UdpConnection {
    type V = ConnView;

    open spec fn deep_view(&self) -> ConnView {
        self.view()
    }
}

impl UdpConnection {
    /// A fresh record whose metrics both read `now` as their last transfer.
    pub fn new(addr: Addr, conn_state: ConnectionState, id: Option<Id>, now: u128) -> (c: Self)
        ensures
            c@ == (ConnView {
                addr,
                conn_state,
                id: id.deep_view(),
                send_m: Metrics { bytes_transfer: 0, packets_transfer: 0, last_transfer: now },
                recv_m: Metrics { bytes_transfer: 0, packets_transfer: 0, last_transfer: now },
            }),
    {
        Self { addr, conn_state, id, send_m: Metrics::new(now), recv_m: Metrics::new(now) }
    }

    /// A connection we initiated: no identity bound yet.
    pub fn outgoing(addr: Addr, now: u128) -> (c: Self)
        ensures
            c@.addr == addr,
            c@.conn_state == ConnectionState::Connecting,
            c@.id is None,
            c@.send_m == (Metrics { bytes_transfer: 0, packets_transfer: 0, last_transfer: now }),
            c@.recv_m == (Metrics { bytes_transfer: 0, packets_transfer: 0, last_transfer: now }),
    {
        Self::new(addr, ConnectionState::Connecting, None, now)
    }

    /// A connection a peer opened towards us: its identity came with the
    /// opening packet, so it is established at once.
    pub fn incoming(addr: Addr, id: Id, now: u128) -> (c: Self)
        ensures
            c@.addr == addr,
            c@.conn_state == ConnectionState::Established,
            c@.id == Some(id@),
            c@.send_m == (Metrics { bytes_transfer: 0, packets_transfer: 0, last_transfer: now }),
            c@.recv_m == (Metrics { bytes_transfer: 0, packets_transfer: 0, last_transfer: now }),
    {
        Self::new(addr, ConnectionState::Established, Some(id), now)
    }

    /// Bind the peer identity and move to `Established`, from any state.
    pub fn connect(&mut self, id: Id) -> (r: TResult<()>)
        ensures
            r is Ok,
            final(self)@ == (ConnView {
                conn_state: ConnectionState::Established,
                id: Some(id@),
                ..old(self)@
            }),
    {
        self.conn_state = ConnectionState::Established;
        self.id = Some(id);
        Ok(())
    }

    /// Move to `Established` without touching the bound identity.
    pub fn approve(&mut self) -> (r: TResult<()>)
        ensures
            r is Ok,
            final(self)@ == (ConnView { conn_state: ConnectionState::Established, ..old(self)@ }),
    {
        self.conn_state = ConnectionState::Established;
        Ok(())
    }

    /// Record an outbound transfer of `size` bytes at `now`; heartbeats go
    /// through here exactly like any other send.
    pub fn send(&mut self, size: usize, now: u128)
        ensures
            final(self)@ == (ConnView {
                send_m: metrics_transferred(old(self)@.send_m, size, now),
                ..old(self)@
            }),
    {
        self.send_m.transfer(size, now)
    }

    /// Record an inbound transfer of `size` bytes at `now`.
    pub fn recv(&mut self, size: usize, now: u128)
        ensures
            final(self)@ == (ConnView {
                recv_m: metrics_transferred(old(self)@.recv_m, size, now),
                ..old(self)@
            }),
    {
        self.recv_m.transfer(size, now)
    }

    pub fn addr(&self) -> (r: Addr)
        ensures
            r == self@.addr,
    {
        self.addr
    }

    pub fn conn_state(&self) -> (r: ConnectionState)
        ensures
            r == self@.conn_state,
    {
        self.conn_state
    }

    pub fn id(&self) -> (r: Option<&Id>)
        ensures
            match r {
                Some(i) => self@.id == Some(i@),
                None => self@.id is None,
            },
    {
        self.id.as_ref()
    }

    pub fn send_metrics(&self) -> (r: Metrics)
        ensures
            r == self@.send_m,
    {
        self.send_m
    }

    pub fn recv_metrics(&self) -> (r: Metrics)
        ensures
            r == self@.recv_m,
    {
        self.recv_m
    }
}

impl Connection for UdpConnection {
    fn addr(&self) -> Addr {
        self.addr
    }

    fn conn_state(&self) -> ConnectionState {
        self.conn_state
    }

    fn id(&self) -> Option<&Id> {
        self.id.as_ref()
    }

    fn send_metrics(&self) -> Metrics {
        self.send_m
    }

    fn recv_metrics(&self) -> Metrics {
        self.recv_m
    }
}

} // verus!
