//! The adapter's per-iteration bookkeeping, as pure functions.
//!
//! The real adapter loop — socket, thread, channels — lives in the
//! application. Each iteration it drains queued send commands, attempts one
//! receive, and maintains liveness; every decision those steps take is a
//! function here, over the connection table, plain bytes and a clock reading
//! passed in as a value.

use vstd::prelude::*;
use crate::addr::Addr;
use crate::conn::{ConnView, ConnectionState};
use crate::event::{UdpAdapterEvent, UdpAdapterEventView};
use crate::id::Id;
use crate::packet::{DisconnectReason, Packet, PacketType, PacketTypeView};
use crate::shared_state::{TableView, UdpSharedState, recv_recorded};

verus! {

/// Receive buffer budget per datagram, in bytes; receive buffers are sized
/// to twice this.
pub const UDP_READ_BUF_SIZE: usize = 508;

/// Outbound idle threshold: a connection quiet on the send side this long
/// (in nanoseconds) is due a heartbeat.
pub const UDP_HEARTBEAT_INTERVAL_NANOS: u128 = 1_250_000_000;

/// Grace applied on top of the heartbeat interval before inbound silence
/// counts against a peer.
pub const UDP_HEARTBEAT_INTERVAL_GRACE_NANOS: u128 = UDP_HEARTBEAT_INTERVAL_NANOS * 3;

/// Inbound staleness threshold: grace with one further safety margin, about
/// 4.7 times the heartbeat interval, so transient loss does not cause false
/// disconnects.
pub const UDP_TIMEOUT_NANOS: u128 = UDP_HEARTBEAT_INTERVAL_GRACE_NANOS * 5 / 4;

/// Construction parameters for one adapter.
#[derive(Debug, Clone, Copy, PartialEq, Eq, Structural)]
pub struct AdapterConfig {
    pub port: u16,
    pub max_conns: u16,
}

/// How a queued send resolves to concrete addresses.
#[derive(Debug, Clone, PartialEq)]
pub enum SendMode {
    /// Every address the table knows.
    Broadcast,
    /// Exactly the given addresses.
    Multicast(Vec<Addr>),
    /// One address, known to the table or not: sends to unknown addresses
    /// still transmit, which is how connections are first opened.
    Unicast(Addr),
}

/// The mathematical value of a [`SendMode`].
pub ghost enum SendModeView {
    Broadcast,
    Multicast(Seq<Addr>),
    Unicast(Addr),
}

impl View for SendMode {
    type V = SendModeView;

    open spec fn view(&self) -> SendModeView {
        match self {
            SendMode::Broadcast => SendModeView::Broadcast,
            SendMode::Multicast(addrs) => SendModeView::Multicast(addrs@),
            SendMode::Unicast(a) => SendModeView::Unicast(*a),
        }
    }
}

impl DeepView for SendMode {
    type V = SendModeView;

    open spec fn deep_view(&self) -> SendModeView {
        self.view()
    }
}

/// One queued outbound send: where, and what payload.
#[derive(Debug, Clone, PartialEq)]
pub struct SendCommand(pub SendMode, pub PacketType);

/// The mathematical value of a [`SendCommand`].
pub ghost struct SendCommandView {
    pub mode: SendModeView,
    pub packet: PacketTypeView,
}

impl View for SendCommand {
    type V = SendCommandView;

    open spec fn view(&self) -> SendCommandView {
        SendCommandView { mode: self.0@, packet: self.1@ }
    }
}

impl DeepView for SendCommand {
    type V = SendCommandView;

    open spec fn deep_view(&self) -> SendCommandView {
        self.view()
    }
}

/// Resolve a send mode to the concrete address set it stands for:
/// `Broadcast` is every known address, `Multicast` the given list, `Unicast`
/// the one address.
pub fn resolve_send_mode(table: &UdpSharedState, mode: SendMode) -> (r: Vec<Addr>)
    ensures
        match mode@ {
            SendModeView::Broadcast => r@.len() == table@.conns.len() && forall|i: int|
                0 <= i < r@.len() ==> r@[i] == (#[trigger] table@.conns[i]).addr,
            SendModeView::Multicast(addrs) => r@ == addrs,
            SendModeView::Unicast(a) => r@ == seq![a],
        },
{
    match mode {
        SendMode::Broadcast => table.conn_addrs(),
        SendMode::Multicast(addrs) => addrs,
        SendMode::Unicast(addr) => {
            let mut v: Vec<Addr> = Vec::new();
            v.push(addr);
            proof {
                assert(v@ =~= seq![addr]);
            }
            v
        },
    }
}

/// One received datagram, already decoded: record inbound metrics on the
/// known connection, and translate the packet into the event the protocol
/// engine sees. Heartbeats are bookkeeping only and never become an event,
/// and never open a connection; any other packet from an unknown address is
/// a new-connection attempt.
pub fn handle_received(
    table: &mut UdpSharedState,
    addr: Addr,
    size: usize,
    packet: Packet,
    now: u128,
) -> (r: Option<UdpAdapterEvent>)
    requires
        old(table)@.wf(),
    ensures
        final(table)@.wf(),
        final(table)@ == recv_recorded(old(table)@, addr, size, now),
        packet@.payload is Heartbeat ==> r is None,
        !(packet@.payload is Heartbeat) && old(table)@.has_addr(addr) ==> (r matches Some(ev)
            && ev@ == UdpAdapterEventView::Payload(addr, packet@)),
        !(packet@.payload is Heartbeat) && !old(table)@.has_addr(addr) ==> (r matches Some(ev)
            && ev@ == UdpAdapterEventView::PeerConnect(addr, packet@)),
{
    let known = match table.get_conn(addr) {
        Some(_) => true,
        None => false,
    };
    table.record_recv(addr, size, now);
    match packet.payload() {
        PacketType::Heartbeat => None,
        _ => {
            if known {
                Some(UdpAdapterEvent::Payload(addr, packet))
            } else {
                Some(UdpAdapterEvent::PeerConnect(addr, packet))
            }
        },
    }
}

/// Has this connection been quiet on the outbound side long enough to be
/// due a heartbeat?
pub open spec fn send_idle(c: ConnView, now: u128) -> bool {
    now >= c.send_m.last_transfer + UDP_HEARTBEAT_INTERVAL_NANOS
}

/// Has this connection been silent on the inbound side past the
/// timeout-grace threshold?
pub open spec fn recv_stale(c: ConnView, now: u128) -> bool {
    now >= c.recv_m.last_transfer + UDP_TIMEOUT_NANOS
}

/// The addresses due a heartbeat this pass, in table order.
pub open spec fn heartbeat_addrs_spec(conns: Seq<ConnView>, now: u128) -> Seq<Addr>
    decreases conns.len(),
{
    if conns.len() == 0 {
        Seq::empty()
    } else {
        let prefix = heartbeat_addrs_spec(conns.drop_last(), now);
        if send_idle(conns.last(), now) {
            prefix.push(conns.last().addr)
        } else {
            prefix
        }
    }
}

/// The timeout events raised this pass, in table order: one
/// `PeerDisconnect(Timeout)` per stale connection, carrying its bound
/// identity.
pub open spec fn timeout_events_spec(conns: Seq<ConnView>, now: u128) -> Seq<UdpAdapterEventView>
    decreases conns.len(),
{
    if conns.len() == 0 {
        Seq::empty()
    } else {
        let prefix = timeout_events_spec(conns.drop_last(), now);
        if recv_stale(conns.last(), now) {
            prefix.push(
                UdpAdapterEventView::PeerDisconnect(
                    conns.last().addr,
                    conns.last().id,
                    DisconnectReason::Timeout,
                ),
            )
        } else {
            prefix
        }
    }
}

/// One maintenance pass: the addresses due a heartbeat, and one timeout
/// event per connection whose inbound side has gone stale. The connection is
/// not removed here — removal is the protocol engine's decision when it
/// handles the event. The caller records each heartbeat transmission through
/// the table's send bookkeeping, exactly like any other send.
pub fn maintain_conns(table: &UdpSharedState, now: u128) -> (r: (
    Vec<Addr>,
    Vec<UdpAdapterEvent>,
))
    ensures
        r.0@ == heartbeat_addrs_spec(table@.conns, now),
        r.1.deep_view() == timeout_events_spec(table@.conns, now),
{
    let mut heartbeats: Vec<Addr> = Vec::new();
    let mut events: Vec<UdpAdapterEvent> = Vec::new();
    let mut i: usize = 0;
    let n = table.conn_count();
    proof {
        assert(heartbeats@ =~= heartbeat_addrs_spec(table@.conns.take(0), now));
        assert(events.deep_view() =~= timeout_events_spec(table@.conns.take(0), now));
    }
    while i < n
        invariant
            i <= n,
            n == table@.conns.len(),
            heartbeats@ == heartbeat_addrs_spec(table@.conns.take(i as int), now),
            events.deep_view() == timeout_events_spec(table@.conns.take(i as int), now),
        decreases n - i,
    {
        let c = table.conn_at(i);
        let ghost prev_events = events.deep_view();
        let sm = c.send_metrics();
        if now >= sm.last_transfer && now - sm.last_transfer >= UDP_HEARTBEAT_INTERVAL_NANOS {
            heartbeats.push(c.addr());
        }
        let rm = c.recv_metrics();
        if now >= rm.last_transfer && now - rm.last_transfer >= UDP_TIMEOUT_NANOS {
            let id = match c.id() {
                Some(i) => Some(i.clone()),
                None => None,
            };
            events.push(UdpAdapterEvent::PeerDisconnect(c.addr(), id, DisconnectReason::Timeout));
        }
        proof {
            assert(table@.conns.take(i + 1).drop_last() =~= table@.conns.take(i as int));
            assert(table@.conns.take(i + 1).last() == table@.conns[i as int]);
            assert(heartbeats@ =~= heartbeat_addrs_spec(table@.conns.take(i + 1), now));
            assert(events.deep_view() =~= timeout_events_spec(table@.conns.take(i + 1), now));
        }
        i = i + 1;
    }
    proof {
        assert(table@.conns.take(table@.conns.len() as int) =~= table@.conns);
    }
    (heartbeats, events)
}

/// How many of these events are a timeout disconnect for `a`.
pub open spec fn count_timeout_for(evs: Seq<UdpAdapterEventView>, a: Addr) -> nat
    decreases evs.len(),
{
    if evs.len() == 0 {
        0
    } else {
        count_timeout_for(evs.drop_last(), a) + (match evs.last() {
            UdpAdapterEventView::PeerDisconnect(ea, _, DisconnectReason::Timeout) => if ea == a {
                1nat
            } else {
                0nat
            },
            _ => 0nat,
        })
    }
}

proof fn lemma_count_timeout_push(evs: Seq<UdpAdapterEventView>, ev: UdpAdapterEventView, a: Addr)
    ensures
        count_timeout_for(evs.push(ev), a) == count_timeout_for(evs, a) + (match ev {
            UdpAdapterEventView::PeerDisconnect(ea, _, DisconnectReason::Timeout) => if ea == a {
                1nat
            } else {
                0nat
            },
            _ => 0nat,
        }),
{
    assert(evs.push(ev).drop_last() =~= evs);
    assert(evs.push(ev).last() == ev);
}

proof fn lemma_timeout_count(conns: Seq<ConnView>, now: u128, a: Addr)
    requires
        forall|i: int, j: int|
            0 <= i < j < conns.len() ==> (#[trigger] conns[i]).addr != (#[trigger] conns[j]).addr,
    ensures
        count_timeout_for(timeout_events_spec(conns, now), a) == (if exists|i: int|
            0 <= i < conns.len() && (#[trigger] conns[i]).addr == a && recv_stale(conns[i], now) {
            1nat
        } else {
            0nat
        }),
    decreases conns.len(),
{
    if conns.len() > 0 {
        let pre = conns.drop_last();
        let last = conns.last();
        lemma_timeout_count(pre, now, a);
        if recv_stale(last, now) {
            lemma_count_timeout_push(
                timeout_events_spec(pre, now),
                UdpAdapterEventView::PeerDisconnect(last.addr, last.id, DisconnectReason::Timeout),
                a,
            );
        }
        if last.addr == a {
            assert forall|i: int| 0 <= i < pre.len() implies !((#[trigger] pre[i]).addr == a
                && recv_stale(pre[i], now)) by {
                assert(conns[i].addr != conns[conns.len() - 1].addr);
            }
            if recv_stale(last, now) {
                assert(conns[conns.len() - 1].addr == a && recv_stale(
                    conns[conns.len() - 1],
                    now,
                ));
            } else {
                assert forall|i: int| 0 <= i < conns.len() implies !((#[trigger] conns[i]).addr
                    == a && recv_stale(conns[i], now)) by {
                    if i < conns.len() - 1 {
                        assert(pre[i] == conns[i]);
                    }
                }
            }
        } else {
            assert((exists|i: int|
                0 <= i < conns.len() && (#[trigger] conns[i]).addr == a && recv_stale(
                    conns[i],
                    now,
                )) <==> (exists|i: int|
                0 <= i < pre.len() && (#[trigger] pre[i]).addr == a && recv_stale(pre[i], now)))
                by {
                if exists|i: int|
                    0 <= i < conns.len() && (#[trigger] conns[i]).addr == a && recv_stale(
                        conns[i],
                        now,
                    ) {
                    let i = choose|i: int|
                        0 <= i < conns.len() && (#[trigger] conns[i]).addr == a && recv_stale(
                            conns[i],
                            now,
                        );
                    assert(i < conns.len() - 1);
                    assert(pre[i].addr == a && recv_stale(pre[i], now));
                }
            }
        }
    }
}

/// Liveness law: a maintenance pass raises exactly one timeout event for the
/// address of a connection whose inbound side is stale, and none for any
/// other address.
pub proof fn lemma_timeout_exactly_once(t: TableView, now: u128, a: Addr)
    requires
        t.wf(),
    ensures
        t.has_addr(a) && recv_stale(t.at_addr(a), now) ==> count_timeout_for(
            timeout_events_spec(t.conns, now),
            a,
        ) == 1,
        !(t.has_addr(a) && recv_stale(t.at_addr(a), now)) ==> count_timeout_for(
            timeout_events_spec(t.conns, now),
            a,
        ) == 0,
{
    lemma_timeout_count(t.conns, now, a);
    if t.has_addr(a) {
        let i = t.idx_of(a);
        assert(0 <= i < t.conns.len() && t.conns[i].addr == a);
        if !recv_stale(t.at_addr(a), now) {
            assert forall|j: int| 0 <= j < t.conns.len() implies !((#[trigger] t.conns[j]).addr
                == a && recv_stale(t.conns[j], now)) by {
                if t.conns[j].addr == a {
                    crate::shared_state::lemma_idx_of_unique(t, j);
                }
            }
        }
    }
}

proof fn lemma_heartbeat_mem(conns: Seq<ConnView>, now: u128, a: Addr)
    ensures
        heartbeat_addrs_spec(conns, now).contains(a) <==> exists|i: int|
            0 <= i < conns.len() && (#[trigger] conns[i]).addr == a && send_idle(conns[i], now),
    decreases conns.len(),
{
    if conns.len() > 0 {
        let pre = conns.drop_last();
        let last = conns.last();
        lemma_heartbeat_mem(pre, now, a);
        let hs = heartbeat_addrs_spec(conns, now);
        let hpre = heartbeat_addrs_spec(pre, now);
        if send_idle(last, now) {
            assert(hs == hpre.push(last.addr));
        }
        if hs.contains(a) {
            let k = choose|k: int| 0 <= k < hs.len() && hs[k] == a;
            if send_idle(last, now) && k == hs.len() - 1 {
                assert(conns[conns.len() - 1].addr == a && send_idle(conns[conns.len() - 1], now));
            } else {
                assert(hpre[k] == a);
                assert(hpre.contains(a));
                let i = choose|i: int|
                    0 <= i < pre.len() && (#[trigger] pre[i]).addr == a && send_idle(pre[i], now);
                assert(conns[i].addr == a && send_idle(conns[i], now));
            }
        }
        if exists|i: int|
            0 <= i < conns.len() && (#[trigger] conns[i]).addr == a && send_idle(conns[i], now) {
            let i = choose|i: int|
                0 <= i < conns.len() && (#[trigger] conns[i]).addr == a && send_idle(
                    conns[i],
                    now,
                );
            if i == conns.len() - 1 {
                assert(hs.contains(a)) by {
                    assert(hs.last() == a);
                }
            } else {
                assert(pre[i].addr == a && send_idle(pre[i], now));
                assert(hpre.contains(a));
                let k = choose|k: int| 0 <= k < hpre.len() && hpre[k] == a;
                if send_idle(last, now) {
                    assert(hs[k] == a);
                } else {
                    assert(hs[k] == a);
                }
            }
        }
    }
}

/// Heartbeat law: a maintenance pass lists an address for a heartbeat
/// exactly when the table holds a connection at that address whose outbound
/// side has been idle past the heartbeat interval.
pub proof fn lemma_heartbeat_due(t: TableView, now: u128, a: Addr)
    requires
        t.wf(),
    ensures
        heartbeat_addrs_spec(t.conns, now).contains(a) <==> (t.has_addr(a) && send_idle(
            t.at_addr(a),
            now,
        )),
{
    lemma_heartbeat_mem(t.conns, now, a);
    if t.has_addr(a) {
        let i = t.idx_of(a);
        assert(0 <= i < t.conns.len() && t.conns[i].addr == a);
    }
    if exists|i: int|
        0 <= i < t.conns.len() && (#[trigger] t.conns[i]).addr == a && send_idle(t.conns[i], now) {
        let i = choose|i: int|
            0 <= i < t.conns.len() && (#[trigger] t.conns[i]).addr == a && send_idle(
                t.conns[i],
                now,
            );
        crate::shared_state::lemma_idx_of_unique(t, i);
    }
}

} // verus!
