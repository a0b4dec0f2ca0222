//! The server protocol engine: a state machine from adapter events to
//! connection-table changes and outbound send commands.
//!
//! The engine holds no peer state of its own — the connection table holds it
//! all — so every function here takes the table by reference; the
//! application locks the shared table and passes it in, performs the
//! returned send commands, and hands back the next events.

use vstd::prelude::*;
use crate::addr::Addr;
use crate::adapter::{AdapterConfig, SendCommand, SendCommandView, SendMode, SendModeView};
use crate::conn::{ConnView, ConnectionState, UdpConnection, incoming_conn};
use crate::err::{LibErr, LibErrView, TResult, TellErr, TellErrView};
use crate::event::{UdpAdapterEvent, UdpAdapterEventView};
use crate::id::{Id, IdView};
use crate::packet::{ClientPacket, ClientPacketView, DisconnectReason, Packet, PacketType,
    PacketTypeView, ServerPacket, ServerPacketView, TargetMode, TargetModeView};
use crate::shared_state::{TableView, UdpSharedState, established_ids_spec, first_established_addr,
    multicast_addrs_spec};

verus! {

/// What one server step produces: the table afterwards, the send commands
/// raised, and the step's outcome.
pub ghost struct ServerOutcome {
    pub table: TableView,
    pub cmds: Seq<SendCommandView>,
    pub result: Result<(), TellErrView>,
}

/// A command sending `packet` by `mode`.
pub open spec fn server_cmd(mode: SendModeView, packet: ServerPacketView) -> SendCommandView {
    SendCommandView { mode, packet: PacketTypeView::Server(packet) }
}

/// A `PeerConnect` event carrying a client payload: `Connect` registers an
/// established incoming connection under the connection table's rules and
/// announces the newcomer to everyone; anything else is refused.
pub open spec fn server_connect_step(
    t: TableView,
    addr: Addr,
    source: IdView,
    cp: ClientPacketView,
    now: u128,
) -> ServerOutcome {
    match cp {
        ClientPacketView::Connect => {
            if t.has_addr(addr) {
                ServerOutcome {
                    table: t,
                    cmds: Seq::empty(),
                    result: Err(TellErrView::Lib(LibErrView::PeerAlreadyConnected(addr))),
                }
            } else if t.conns.len() >= t.config.max_conns {
                ServerOutcome {
                    table: t,
                    cmds: Seq::empty(),
                    result: Err(
                        TellErrView::Lib(LibErrView::MaxConnectionsReached(t.conns.len() as int)),
                    ),
                }
            } else {
                ServerOutcome {
                    table: t.with_conns(t.conns.push(incoming_conn(addr, source, now))),
                    cmds: seq![
                        server_cmd(SendModeView::Broadcast, ServerPacketView::PeerConnected(source)),
                    ],
                    result: Ok(()),
                }
            }
        },
        _ => ServerOutcome {
            table: t,
            cmds: Seq::empty(),
            result: Err(TellErrView::Lib(LibErrView::InvalidPacketType)),
        },
    }
}

/// A departure, deliberate or by timeout: the connection is removed — an
/// unknown address is refused — and, when it had reached `Established`, its
/// identity is announced as gone; one that never established leaves
/// silently, since peers never learned its identity.
pub open spec fn server_disconnect_step(
    t: TableView,
    addr: Addr,
    reason: DisconnectReason,
) -> ServerOutcome {
    if !t.has_addr(addr) {
        ServerOutcome {
            table: t,
            cmds: Seq::empty(),
            result: Err(TellErrView::Lib(LibErrView::PeerNotConnected(addr))),
        }
    } else {
        let c = t.at_addr(addr);
        let t2 = t.with_conns(t.conns.remove(t.idx_of(addr)));
        match c.id {
            Some(cid) => if c.conn_state == ConnectionState::Established {
                ServerOutcome {
                    table: t2,
                    cmds: seq![
                        server_cmd(
                            SendModeView::Broadcast,
                            ServerPacketView::PeerDisconnected(cid, reason),
                        ),
                    ],
                    result: Ok(()),
                }
            } else {
                ServerOutcome { table: t2, cmds: Seq::empty(), result: Ok(()) }
            },
            None => ServerOutcome { table: t2, cmds: Seq::empty(), result: Ok(()) },
        }
    }
}

/// A payload from a known connection: a disconnect request, a chat message
/// to fan out, or a peer-list request; anything else is refused. A chat
/// message resolves its target mode against the table: broadcast stays
/// broadcast, multicast becomes the addresses of the named established
/// peers, unicast the address of the one named peer — refused as
/// `PeerNotConnected` against the sender when no such peer is established.
pub open spec fn server_payload_step(
    t: TableView,
    addr: Addr,
    source: IdView,
    cp: ClientPacketView,
    now: u128,
) -> ServerOutcome {
    match cp {
        ClientPacketView::Disconnect => server_disconnect_step(t, addr, DisconnectReason::Manual),
        ClientPacketView::Message(tm, text) => {
            let msg = ServerPacketView::Message { source, target_mode: tm, text };
            match tm {
                TargetModeView::Broadcast => ServerOutcome {
                    table: t,
                    cmds: seq![server_cmd(SendModeView::Broadcast, msg)],
                    result: Ok(()),
                },
                TargetModeView::Multicast(ids) => ServerOutcome {
                    table: t,
                    cmds: seq![
                        server_cmd(
                            SendModeView::Multicast(multicast_addrs_spec(t.conns, ids)),
                            msg,
                        ),
                    ],
                    result: Ok(()),
                },
                TargetModeView::Unicast(target) => match first_established_addr(t.conns, target) {
                    Some(a) => ServerOutcome {
                        table: t,
                        cmds: seq![server_cmd(SendModeView::Unicast(a), msg)],
                        result: Ok(()),
                    },
                    None => ServerOutcome {
                        table: t,
                        cmds: Seq::empty(),
                        result: Err(TellErrView::Lib(LibErrView::PeerNotConnected(addr))),
                    },
                },
            }
        },
        ClientPacketView::RequestPeers => ServerOutcome {
            table: t,
            cmds: seq![
                server_cmd(
                    SendModeView::Unicast(addr),
                    ServerPacketView::RequestReply(established_ids_spec(t.conns)),
                ),
            ],
            result: Ok(()),
        },
        _ => ServerOutcome {
            table: t,
            cmds: Seq::empty(),
            result: Err(TellErrView::Lib(LibErrView::InvalidPacketType)),
        },
    }
}

/// One server step: what any single adapter event does to the table and
/// which commands it raises. A `PeerConnect` whose payload is not client
/// traffic is ignored rather than failed; a `Payload` whose payload is not
/// client traffic is refused.
pub open spec fn server_step(
    t: TableView,
    ev: UdpAdapterEventView,
    now: u128,
) -> ServerOutcome {
    match ev {
        UdpAdapterEventView::PeerConnect(addr, packet) => match packet.payload {
            PacketTypeView::Client(cp) => server_connect_step(
                t,
                addr,
                packet.header.source,
                cp,
                now,
            ),
            _ => ServerOutcome { table: t, cmds: Seq::empty(), result: Ok(()) },
        },
        UdpAdapterEventView::PeerDisconnect(addr, _id, reason) => server_disconnect_step(
            t,
            addr,
            reason,
        ),
        UdpAdapterEventView::Payload(addr, packet) => match packet.payload {
            PacketTypeView::Client(cp) => server_payload_step(
                t,
                addr,
                packet.header.source,
                cp,
                now,
            ),
            _ => ServerOutcome {
                table: t,
                cmds: Seq::empty(),
                result: Err(TellErrView::Lib(LibErrView::InvalidPacketType)),
            },
        },
    }
}

/// A whole poll: events are handled in order; the first failure ends the
/// batch, keeping the table changes and commands made up to and including
/// the failing step, and the remaining events are abandoned.
pub open spec fn server_poll_steps(
    t: TableView,
    evs: Seq<UdpAdapterEventView>,
    now: u128,
) -> ServerOutcome
    decreases evs.len(),
{
    if evs.len() == 0 {
        ServerOutcome { table: t, cmds: Seq::empty(), result: Ok(()) }
    } else {
        let first = server_step(t, evs[0], now);
        if first.result is Err {
            first
        } else {
            let rest = server_poll_steps(first.table, evs.skip(1), now);
            ServerOutcome { table: rest.table, cmds: first.cmds + rest.cmds, result: rest.result }
        }
    }
}

/// A failing server step raises no commands.
proof fn lemma_server_step_err_no_cmds(t: TableView, ev: UdpAdapterEventView, now: u128)
    ensures
        server_step(t, ev, now).result is Err ==> server_step(t, ev, now).cmds
            == Seq::<SendCommandView>::empty(),
{
}

/// The server protocol engine. Its only own state is this node's identity;
/// all peer state lives in the connection table.
#[derive(Debug)]
pub struct Server {
    id: Id,
}

impl View for Server {
    type V = IdView;

    closed spec fn view(&self) -> IdView {
        self.id@
    }
}

impl Server {
    /// A server engine plus the fresh connection table its adapter will
    /// share with it.
    pub fn setup(id: Id, config: AdapterConfig) -> (r: (Server, UdpSharedState))
        ensures
            r.0@ == id@,
            r.1@.running,
            r.1@.conns == Seq::<ConnView>::empty(),
            r.1@.config == config,
            r.1@.wf(),
    {
        (Server { id }, UdpSharedState::new(config))
    }

    /// A command carrying server traffic by the given mode.
    pub fn send_packet(&self, send_mode: SendMode, packet: ServerPacket) -> (r: SendCommand)
        ensures
            r@ == server_cmd(send_mode@, packet@),
    {
        SendCommand(send_mode, PacketType::Server(packet))
    }

    /// A command announcing server traffic to every known address.
    pub fn send_broadcast(&self, packet: ServerPacket) -> (r: SendCommand)
        ensures
            r@ == server_cmd(SendModeView::Broadcast, packet@),
    {
        self.send_packet(SendMode::Broadcast, packet)
    }

    /// Handle one adapter event: exactly the step [`server_step`] describes.
    pub fn handle_event(&self, table: &mut UdpSharedState, ev: UdpAdapterEvent, now: u128) -> (r:
        TResult<Vec<SendCommand>>)
        requires
            old(table)@.wf(),
        ensures
            final(table)@.wf(),
            ({
                let out = server_step(old(table)@, ev@, now);
                &&& final(table)@ == out.table
                &&& match (r, out.result) {
                    (Ok(cmds), Ok(())) => cmds.deep_view() == out.cmds,
                    (Err(e), Err(ev_)) => e@ == ev_,
                    _ => false,
                }
            }),
    {
        match ev {
            UdpAdapterEvent::PeerConnect(addr, packet) => {
                let Packet { header, payload } = packet;
                match payload.client() {
                    Some(client_packet) => self.handle_connect_event(
                        table,
                        addr,
                        header.source().clone(),
                        client_packet,
                        now,
                    ),
                    None => Ok(Vec::new()),
                }
            },
            UdpAdapterEvent::PeerDisconnect(addr, _id, reason) => self.handle_disconnect_event(
                table,
                addr,
                reason,
            ),
            UdpAdapterEvent::Payload(addr, packet) => {
                let Packet { header, payload } = packet;
                match payload.client() {
                    Some(client_packet) => self.handle_payload_event(
                        table,
                        addr,
                        header.source().clone(),
                        client_packet,
                        now,
                    ),
                    None => Err(
                        TellErr::Lib(
                            LibErr::InvalidPacketType("Expected client type packet".to_owned()),
                        ),
                    ),
                }
            },
        }
    }

    fn handle_connect_event(
        &self,
        table: &mut UdpSharedState,
        addr: Addr,
        id: Id,
        packet: ClientPacket,
        now: u128,
    ) -> (r: TResult<Vec<SendCommand>>)
        requires
            old(table)@.wf(),
        ensures
            final(table)@.wf(),
            ({
                let out = server_connect_step(old(table)@, addr, id@, packet@, now);
                &&& final(table)@ == out.table
                &&& match (r, out.result) {
                    (Ok(cmds), Ok(())) => cmds.deep_view() == out.cmds,
                    (Err(e), Err(ev_)) => e@ == ev_,
                    _ => false,
                }
            }),
    {
        match packet {
            ClientPacket::Connect => {
                match table.add_conn(UdpConnection::incoming(addr, id.clone(), now)) {
                    Err(e) => Err(e),
                    Ok(()) => {
                        let cmd = self.send_broadcast(ServerPacket::PeerConnected(id));
                        let mut cmds: Vec<SendCommand> = Vec::new();
                        cmds.push(cmd);
                        proof {
                            assert(cmds.deep_view() =~= server_connect_step(
                                old(table)@,
                                addr,
                                id@,
                                packet@,
                                now,
                            ).cmds);
                        }
                        Ok(cmds)
                    },
                }
            },
            _ => Err(
                TellErr::Lib(LibErr::InvalidPacketType("Expected connect packet".to_owned())),
            ),
        }
    }

    fn handle_disconnect_event(
        &self,
        table: &mut UdpSharedState,
        addr: Addr,
        reason: DisconnectReason,
    ) -> (r: TResult<Vec<SendCommand>>)
        requires
            old(table)@.wf(),
        ensures
            final(table)@.wf(),
            ({
                let out = server_disconnect_step(old(table)@, addr, reason);
                &&& final(table)@ == out.table
                &&& match (r, out.result) {
                    (Ok(cmds), Ok(())) => cmds.deep_view() == out.cmds,
                    (Err(e), Err(ev_)) => e@ == ev_,
                    _ => false,
                }
            }),
    {
        match table.remove_conn(addr) {
            None => Err(TellErr::Lib(LibErr::PeerNotConnected(addr))),
            Some(conn) => {
                let mut cmds: Vec<SendCommand> = Vec::new();
                if conn.conn_state() == ConnectionState::Established {
                    match conn.id() {
                        Some(cid) => {
                            let cmd = self.send_broadcast(
                                ServerPacket::PeerDisconnected(cid.clone(), reason),
                            );
                            cmds.push(cmd);
                        },
                        None => {},
                    }
                }
                proof {
                    assert(cmds.deep_view() =~= server_disconnect_step(
                        old(table)@,
                        addr,
                        reason,
                    ).cmds);
                }
                Ok(cmds)
            },
        }
    }

    fn handle_payload_event(
        &self,
        table: &mut UdpSharedState,
        addr: Addr,
        id: Id,
        packet: ClientPacket,
        now: u128,
    ) -> (r: TResult<Vec<SendCommand>>)
        requires
            old(table)@.wf(),
        ensures
            final(table)@.wf(),
            ({
                let out = server_payload_step(old(table)@, addr, id@, packet@, now);
                &&& final(table)@ == out.table
                &&& match (r, out.result) {
                    (Ok(cmds), Ok(())) => cmds.deep_view() == out.cmds,
                    (Err(e), Err(ev_)) => e@ == ev_,
                    _ => false,
                }
            }),
    {
        match packet {
            ClientPacket::Disconnect => self.handle_disconnect_event(
                table,
                addr,
                DisconnectReason::Manual,
            ),
            ClientPacket::Message(target_mode, text) => {
                let send_mode = match &target_mode {
                    TargetMode::Broadcast => SendMode::Broadcast,
                    TargetMode::Multicast(ids) => SendMode::Multicast(table.multicast_addrs(ids)),
                    TargetMode::Unicast(target) => match table.addr_of(target) {
                        Some(a) => SendMode::Unicast(a),
                        None => {
                            return Err(TellErr::Lib(LibErr::PeerNotConnected(addr)));
                        },
                    },
                };
                let cmd = self.send_packet(
                    send_mode,
                    ServerPacket::Message { source: id, target_mode, text },
                );
                let mut cmds: Vec<SendCommand> = Vec::new();
                cmds.push(cmd);
                proof {
                    assert(cmds.deep_view() =~= server_payload_step(
                        old(table)@,
                        addr,
                        id@,
                        packet@,
                        now,
                    ).cmds);
                }
                Ok(cmds)
            },
            ClientPacket::RequestPeers => {
                let ids = table.established_ids();
                let cmd = self.send_packet(
                    SendMode::Unicast(addr),
                    ServerPacket::RequestReply(ids),
                );
                let mut cmds: Vec<SendCommand> = Vec::new();
                cmds.push(cmd);
                proof {
                    assert(cmds.deep_view() =~= server_payload_step(
                        old(table)@,
                        addr,
                        id@,
                        packet@,
                        now,
                    ).cmds);
                }
                Ok(cmds)
            },
            ClientPacket::Connect => Err(
                TellErr::Lib(
                    LibErr::InvalidPacketType("Expected disconnect/message/request".to_owned()),
                ),
            ),
        }
    }

    /// Drain a batch of adapter events in order, collecting the commands
    /// they raise. The first protocol failure ends the batch: commands
    /// raised before it (and the table changes of every handled event,
    /// including the failing one) are kept, the remaining events are
    /// abandoned, and the failure is returned beside the commands.
    pub fn poll(&self, table: &mut UdpSharedState, events: &mut Vec<UdpAdapterEvent>, now: u128) -> (r:
        (Vec<SendCommand>, TResult<()>))
        requires
            old(table)@.wf(),
        ensures
            final(table)@.wf(),
            final(events)@.len() == 0,
            ({
                let out = server_poll_steps(old(table)@, old(events).deep_view(), now);
                &&& final(table)@ == out.table
                &&& r.0.deep_view() == out.cmds
                &&& match (r.1, out.result) {
                    (Ok(()), Ok(())) => true,
                    (Err(e), Err(ev_)) => e@ == ev_,
                    _ => false,
                }
            }),
    {
        let ghost orig_events = old(events).deep_view();
        let ghost orig_table = old(table)@;
        let mut out: Vec<SendCommand> = Vec::new();
        proof {
            assert(out.deep_view() =~= Seq::<SendCommandView>::empty());
            assert(Seq::<SendCommandView>::empty() + server_poll_steps(
                orig_table,
                orig_events,
                now,
            ).cmds =~= server_poll_steps(orig_table, orig_events, now).cmds);
        }
        loop
            invariant
                table@.wf(),
                orig_table == old(table)@,
                orig_events == old(events).deep_view(),
                ({
                    let full = server_poll_steps(orig_table, orig_events, now);
                    let rest = server_poll_steps(table@, events.deep_view(), now);
                    &&& full.table == rest.table
                    &&& full.cmds == out.deep_view() + rest.cmds
                    &&& full.result == rest.result
                }),
            decreases events@.len(),
        {
            if events.len() == 0 {
                proof {
                    assert(events.deep_view() =~= Seq::<UdpAdapterEventView>::empty());
                    assert(out.deep_view() + Seq::<SendCommandView>::empty() =~= out.deep_view());
                }
                return (out, Ok(()));
            }
            let ghost evs_before = events.deep_view();
            let ghost t_before = table@;
            let ev = events.remove(0);
            proof {
                assert(evs_before[0] == ev@);
                assert(evs_before.skip(1) =~= events.deep_view());
            }
            match self.handle_event(table, ev, now) {
                Ok(mut cmds) => {
                    let ghost out_before = out.deep_view();
                    let ghost new_cmds = cmds.deep_view();
                    out.append(&mut cmds);
                    proof {
                        assert(out.deep_view() =~= out_before + new_cmds);
                        assert((out_before + new_cmds) + server_poll_steps(
                            table@,
                            events.deep_view(),
                            now,
                        ).cmds =~= out_before + (new_cmds + server_poll_steps(
                            table@,
                            events.deep_view(),
                            now,
                        ).cmds));
                    }
                },
                Err(e) => {
                    *events = Vec::new();
                    proof {
                        lemma_server_step_err_no_cmds(t_before, ev@, now);
                        assert(out.deep_view() + Seq::<SendCommandView>::empty()
                            =~= out.deep_view());
                    }
                    return (out, Err(e));
                },
            }
        }
    }
}

} // verus!
