//! The client protocol engine: a state machine from adapter events to local
//! chat state, peer-set changes and outbound send commands.
//!
//! The application locks the shared connection table and passes it in,
//! performs the returned send commands, and hands back the next events.

use vstd::prelude::*;
use crate::addr::Addr;
use crate::adapter::{AdapterConfig, SendCommand, SendCommandView, SendMode, SendModeView};
use crate::conn::{ConnView, ConnectionState, UdpConnection, outgoing_conn};
use crate::err::{LibErr, LibErrView, TResult, TellErr, TellErrView};
use crate::event::{UdpAdapterEvent, UdpAdapterEventView};
use crate::id::{Id, IdView};
use crate::packet::{ClientPacket, ClientPacketView, Packet, PacketType, PacketTypeView,
    ServerPacket, ServerPacketView, TargetMode};
use crate::shared_state::{TableView, UdpSharedState, contains_id};

verus! {

/// The mathematical value of a [`Client`].
pub ghost struct ClientView {
    pub id: IdView,
    pub peers: Seq<IdView>,
    pub chat_log: Seq<(IdView, Seq<char>)>,
    pub remote_addr: Option<Addr>,
}

/// What one client step produces: the client and table afterwards, the peer
/// lists surfaced to the caller, and the step's outcome.
pub ghost struct ClientOutcome {
    pub client: ClientView,
    pub table: TableView,
    pub replies: Seq<Seq<IdView>>,
    pub result: Result<(), TellErrView>,
}

/// A command sending `packet` to the one remote address.
pub open spec fn client_cmd(addr: Addr, packet: ClientPacketView) -> SendCommandView {
    SendCommandView { mode: SendModeView::Unicast(addr), packet: PacketTypeView::Client(packet) }
}

/// The identity bound to the client's remote connection, if the handshake
/// has completed.
pub open spec fn client_connected_id(cv: ClientView, t: TableView) -> Option<IdView> {
    match cv.remote_addr {
        Some(ra) => if t.has_addr(ra) {
            t.at_addr(ra).id
        } else {
            None
        },
        None => None,
    }
}

/// `t` with the entry for `addr` removed, where one exists; a missing entry
/// is tolerated.
pub open spec fn table_removed(t: TableView, addr: Addr) -> TableView {
    if t.has_addr(addr) {
        t.with_conns(t.conns.remove(t.idx_of(addr)))
    } else {
        t
    }
}

/// `s` without its first occurrence of `id`, if any.
pub open spec fn remove_first_id(s: Seq<IdView>, id: IdView) -> Seq<IdView>
    decreases s.len(),
{
    if s.len() == 0 {
        Seq::empty()
    } else if s[0] == id {
        s.skip(1)
    } else {
        seq![s[0]] + remove_first_id(s.skip(1), id)
    }
}

proof fn lemma_remove_first_absent(s: Seq<IdView>, id: IdView)
    requires
        forall|j: int| 0 <= j < s.len() ==> s[j] != id,
    ensures
        remove_first_id(s, id) == s,
    decreases s.len(),
{
    if s.len() > 0 {
        assert(forall|j: int| 0 <= j < s.skip(1).len() ==> s.skip(1)[j] != id);
        lemma_remove_first_absent(s.skip(1), id);
        assert(seq![s[0]] + s.skip(1) =~= s);
    }
}

proof fn lemma_remove_first_at(s: Seq<IdView>, id: IdView, i: int)
    requires
        0 <= i < s.len(),
        s[i] == id,
        forall|j: int| 0 <= j < i ==> s[j] != id,
    ensures
        remove_first_id(s, id) == s.remove(i),
    decreases i,
{
    if i == 0 {
        assert(s.skip(1) =~= s.remove(0));
    } else {
        lemma_remove_first_at(s.skip(1), id, i - 1);
        assert(seq![s[0]] + s.skip(1).remove(i - 1) =~= s.remove(i));
    }
}

/// A steady-state payload once the handshake is bound: chat messages land in
/// the log — a unicast not addressed to this client is accepted all the
/// same — and a peer-list reply is surfaced to the caller; anything else is
/// refused. The table is untouched.
pub open spec fn client_payload_step(cv: ClientView, sp: ServerPacketView) -> (
    ClientView,
    Seq<Seq<IdView>>,
    Result<(), TellErrView>,
) {
    match sp {
        ServerPacketView::Message { source, target_mode, text } => (
            ClientView { chat_log: cv.chat_log.push((source, text)), ..cv },
            Seq::empty(),
            Ok(()),
        ),
        ServerPacketView::RequestReply(ids) => (cv, seq![ids], Ok(())),
        _ => (cv, Seq::empty(), Err(TellErrView::Lib(LibErrView::InvalidPacketType))),
    }
}

/// A handshake-phase payload, before any identity is bound: `PeerConnected`
/// addressed to this client confirms the handshake, binding the server's
/// identity to the pending connection; addressed to another identity it is
/// informational peer-join news. `PeerDisconnected` addressed to this client
/// rejects the handshake and resets the pending connection; otherwise it is
/// peer-leave news. Anything else is refused.
pub open spec fn client_connect_step(
    cv: ClientView,
    t: TableView,
    addr: Addr,
    source: IdView,
    sp: ServerPacketView,
) -> ClientOutcome {
    match sp {
        ServerPacketView::PeerConnected(pid) => if pid == cv.id {
            if t.has_addr(addr) {
                ClientOutcome {
                    client: cv,
                    table: t.with_conns(
                        t.conns.update(
                            t.idx_of(addr),
                            ConnView {
                                conn_state: ConnectionState::Established,
                                id: Some(source),
                                ..t.at_addr(addr)
                            },
                        ),
                    ),
                    replies: Seq::empty(),
                    result: Ok(()),
                }
            } else {
                ClientOutcome {
                    client: cv,
                    table: t,
                    replies: Seq::empty(),
                    result: Err(TellErrView::Lib(LibErrView::PeerNotConnected(addr))),
                }
            }
        } else {
            ClientOutcome {
                client: ClientView {
                    peers: if cv.peers.contains(pid) {
                        cv.peers
                    } else {
                        cv.peers.push(pid)
                    },
                    ..cv
                },
                table: t,
                replies: Seq::empty(),
                result: Ok(()),
            }
        },
        ServerPacketView::PeerDisconnected(pid, _reason) => if pid == cv.id {
            match cv.remote_addr {
                Some(ra) => ClientOutcome {
                    client: ClientView { remote_addr: None, ..cv },
                    table: table_removed(t, ra),
                    replies: Seq::empty(),
                    result: Ok(()),
                },
                None => ClientOutcome {
                    client: cv,
                    table: t,
                    replies: Seq::empty(),
                    result: Err(TellErrView::Lib(LibErrView::NotConnected)),
                },
            }
        } else {
            ClientOutcome {
                client: ClientView { peers: remove_first_id(cv.peers, pid), ..cv },
                table: t,
                replies: Seq::empty(),
                result: Ok(()),
            }
        },
        _ => ClientOutcome {
            client: cv,
            table: t,
            replies: Seq::empty(),
            result: Err(TellErrView::Lib(LibErrView::InvalidPacketType)),
        },
    }
}

/// One client step: what any single adapter event does. A client cannot be
/// connected to, so `PeerConnect` is always refused; `PeerDisconnect`
/// removes the local record, tolerating a missing one; a `Payload` is read
/// as a handshake reply until an identity is bound, and as steady-state
/// server traffic after.
pub open spec fn client_step(cv: ClientView, t: TableView, ev: UdpAdapterEventView)
    -> ClientOutcome {
    match ev {
        UdpAdapterEventView::PeerConnect(_addr, _packet) => ClientOutcome {
            client: cv,
            table: t,
            replies: Seq::empty(),
            result: Err(TellErrView::Lib(LibErrView::InvalidPacketType)),
        },
        UdpAdapterEventView::PeerDisconnect(addr, _id, _reason) => ClientOutcome {
            client: cv,
            table: table_removed(t, addr),
            replies: Seq::empty(),
            result: Ok(()),
        },
        UdpAdapterEventView::Payload(addr, packet) => match packet.payload {
            PacketTypeView::Server(sp) => match client_connected_id(cv, t) {
                Some(_) => {
                    let (c2, replies, result) = client_payload_step(cv, sp);
                    ClientOutcome { client: c2, table: t, replies, result }
                },
                None => client_connect_step(cv, t, addr, packet.header.source, sp),
            },
            _ => ClientOutcome {
                client: cv,
                table: t,
                replies: Seq::empty(),
                result: Err(TellErrView::Lib(LibErrView::InvalidPacketType)),
            },
        },
    }
}

/// A whole poll: each event requires the client to still be connecting or
/// connected — otherwise the batch fails with `NotConnected` — and the first
/// failure ends the batch, keeping the changes and surfaced replies made up
/// to it.
pub open spec fn client_poll_steps(cv: ClientView, t: TableView, evs: Seq<UdpAdapterEventView>)
    -> ClientOutcome
    decreases evs.len(),
{
    if evs.len() == 0 {
        ClientOutcome { client: cv, table: t, replies: Seq::empty(), result: Ok(()) }
    } else if cv.remote_addr is None {
        ClientOutcome {
            client: cv,
            table: t,
            replies: Seq::empty(),
            result: Err(TellErrView::Lib(LibErrView::NotConnected)),
        }
    } else {
        let first = client_step(cv, t, evs[0]);
        if first.result is Err {
            first
        } else {
            let rest = client_poll_steps(first.client, first.table, evs.skip(1));
            ClientOutcome {
                client: rest.client,
                table: rest.table,
                replies: first.replies + rest.replies,
                result: rest.result,
            }
        }
    }
}

/// A failing client step surfaces no replies.
proof fn lemma_client_step_err_no_replies(cv: ClientView, t: TableView, ev: UdpAdapterEventView)
    ensures
        client_step(cv, t, ev).result is Err ==> client_step(cv, t, ev).replies
            == Seq::<Seq<IdView>>::empty(),
{
}

/// The client protocol engine: own identity, the set of known peer
/// identities, the ordered chat log, and the pending or active remote
/// address.
#[derive(Debug)]
pub struct Client {
    id: Id,
    peers: Vec<Id>,
    chat_log: Vec<(Id, String)>,
    remote_addr: Option<Addr>,
}

impl View for Client {
    type V = ClientView;

    closed spec fn view(&self) -> ClientView {
        ClientView {
            id: self.id@,
            peers: self.peers.deep_view(),
            chat_log: Seq::new(
                self.chat_log@.len(),
                |i: int| (self.chat_log@[i].0@, self.chat_log@[i].1@),
            ),
            remote_addr: self.remote_addr,
        }
    }
}

impl Client {
    /// A client engine plus the fresh connection table its adapter will
    /// share with it; the table holds at most one peer, the server.
    pub fn new(id: Id, port: u16) -> (r: (Client, UdpSharedState))
        ensures
            r.0@ == (ClientView {
                id: id@,
                peers: Seq::empty(),
                chat_log: Seq::empty(),
                remote_addr: None,
            }),
            r.1@.running,
            r.1@.conns == Seq::<ConnView>::empty(),
            r.1@.config == (AdapterConfig { port, max_conns: 1 }),
            r.1@.wf(),
    {
        let c = Client { id, peers: Vec::new(), chat_log: Vec::new(), remote_addr: None };
        let table = UdpSharedState::new(AdapterConfig { port, max_conns: 1 });
        proof {
            assert(c@.peers =~= Seq::<IdView>::empty());
            assert(c@.chat_log =~= Seq::<(IdView, Seq<char>)>::empty());
        }
        (c, table)
    }

    /// Open a connection towards `remote_addr`: refused while another
    /// connection is pending or active; otherwise an outgoing `Connecting`
    /// record is registered and the returned command carries the
    /// handshake's `Connect` packet. A table refusal (its capacity rule)
    /// leaves the client unchanged.
    pub fn connect(&mut self, table: &mut UdpSharedState, remote_addr: Addr, now: u128) -> (r:
        TResult<SendCommand>)
        requires
            old(table)@.wf(),
        ensures
            final(table)@.wf(),
            old(self)@.remote_addr matches Some(a) ==> final(self)@ == old(self)@ && final(table)@ == old(table)@ && (r matches Err(TellErr::Lib(LibErr::PeerAlreadyConnected(b)))
                && b == a),
            old(self)@.remote_addr is None && old(table)@.has_addr(remote_addr) ==> final(self)@ == old(self)@ && final(table)@ == old(table)@ && (r matches Err(
                TellErr::Lib(LibErr::PeerAlreadyConnected(b)),
            ) && b == remote_addr),
            old(self)@.remote_addr is None && !old(table)@.has_addr(remote_addr) && old(table)@.conns.len() >= old(table)@.config.max_conns ==> final(self)@ == old(self)@
                && final(table)@ == old(table)@ && (r matches Err(
                TellErr::Lib(LibErr::MaxConnectionsReached(n)),
            ) && n == old(table)@.conns.len()),
            old(self)@.remote_addr is None && !old(table)@.has_addr(remote_addr) && old(table)@.conns.len() < old(table)@.config.max_conns ==> {
                &&& final(self)@ == (ClientView { remote_addr: Some(remote_addr), ..old(self)@ })
                &&& final(table)@ == old(table)@.with_conns(
                    old(table)@.conns.push(outgoing_conn(remote_addr, now)),
                )
                &&& (r matches Ok(cmd) && cmd@ == client_cmd(
                    remote_addr,
                    ClientPacketView::Connect,
                ))
            },
    {
        match self.remote_addr {
            Some(addr) => Err(TellErr::Lib(LibErr::PeerAlreadyConnected(addr))),
            None => {
                match table.add_conn(UdpConnection::outgoing(remote_addr, now)) {
                    Err(e) => Err(e),
                    Ok(()) => {
                        self.remote_addr = Some(remote_addr);
                        Ok(
                            SendCommand(
                                SendMode::Unicast(remote_addr),
                                PacketType::Client(ClientPacket::Connect),
                            ),
                        )
                    },
                }
            },
        }
    }

    /// Forget the pending or active connection: the remote address is
    /// cleared and its table record removed, a missing record tolerated.
    /// Refused when no connection is set.
    pub fn reset_connection(&mut self, table: &mut UdpSharedState) -> (r: TResult<()>)
        requires
            old(table)@.wf(),
        ensures
            final(table)@.wf(),
            old(self)@.remote_addr is None ==> final(self)@ == old(self)@ && final(table)@ == old(table)@ && (r matches Err(TellErr::Lib(LibErr::NotConnected))),
            old(self)@.remote_addr matches Some(ra) ==> {
                &&& final(self)@ == (ClientView { remote_addr: None, ..old(self)@ })
                &&& final(table)@ == table_removed(old(table)@, ra)
                &&& r is Ok
            },
    {
        match self.remote_addr {
            None => Err(TellErr::Lib(LibErr::NotConnected)),
            Some(addr) => {
                self.remote_addr = None;
                let _removed = table.remove_conn(addr);
                Ok(())
            },
        }
    }

    /// Leave deliberately: the returned command carries the `Disconnect`
    /// packet for the server, and the local connection is reset. Refused
    /// when no connection is set.
    pub fn disconnect(&mut self, table: &mut UdpSharedState) -> (r: TResult<SendCommand>)
        requires
            old(table)@.wf(),
        ensures
            final(table)@.wf(),
            old(self)@.remote_addr is None ==> final(self)@ == old(self)@ && final(table)@ == old(table)@ && (r matches Err(TellErr::Lib(LibErr::NotConnected))),
            old(self)@.remote_addr matches Some(ra) ==> {
                &&& final(self)@ == (ClientView { remote_addr: None, ..old(self)@ })
                &&& final(table)@ == table_removed(old(table)@, ra)
                &&& (r matches Ok(cmd) && cmd@ == client_cmd(ra, ClientPacketView::Disconnect))
            },
    {
        let cmd = match self.send_packet(ClientPacket::Disconnect) {
            Err(e) => {
                return Err(e);
            },
            Ok(cmd) => cmd,
        };
        match self.reset_connection(table) {
            Err(e) => Err(e),
            Ok(()) => Ok(cmd),
        }
    }

    /// Is a connection pending or active right now?
    pub fn connecting(&self) -> (r: bool)
        ensures
            r == (self@.remote_addr is Some),
    {
        self.remote_addr.is_some()
    }

    /// The server identity bound to the connection, once the handshake has
    /// completed.
    pub fn connected(&self, table: &UdpSharedState) -> (r: Option<Id>)
        requires
            table@.wf(),
        ensures
            r.deep_view() == client_connected_id(self@, table@),
    {
        match self.remote_addr {
            None => None,
            Some(addr) => match table.get_conn(addr) {
                None => None,
                Some(conn) => match conn.id() {
                    Some(id) => Some(id.clone()),
                    None => None,
                },
            },
        }
    }

    /// A command carrying a chat message for the server to fan out; refused
    /// when no connection is set.
    pub fn message(&self, target_mode: TargetMode, text: String) -> (r: TResult<SendCommand>)
        ensures
            self@.remote_addr is None ==> (r matches Err(TellErr::Lib(LibErr::NotConnected))),
            self@.remote_addr matches Some(ra) ==> (r matches Ok(cmd) && cmd@ == client_cmd(
                ra,
                ClientPacketView::Message(target_mode@, text@),
            )),
    {
        self.send_packet(ClientPacket::Message(target_mode, text))
    }

    /// A command carrying `packet` to the remote address; refused when no
    /// connection is set.
    pub fn send_packet(&self, packet: ClientPacket) -> (r: TResult<SendCommand>)
        ensures
            self@.remote_addr is None ==> (r matches Err(TellErr::Lib(LibErr::NotConnected))),
            self@.remote_addr matches Some(ra) ==> (r matches Ok(cmd) && cmd@ == client_cmd(
                ra,
                packet@,
            )),
    {
        match self.remote_addr {
            Some(addr) => Ok(SendCommand(SendMode::Unicast(addr), PacketType::Client(packet))),
            None => Err(TellErr::Lib(LibErr::NotConnected)),
        }
    }

    /// The identities this client knows beside itself.
    pub fn peers(&self) -> (r: &Vec<Id>)
        ensures
            r.deep_view() == self@.peers,
    {
        &self.peers
    }

    /// The chat messages seen so far, oldest first, each with its sender.
    pub fn chat_log(&self) -> (r: &Vec<(Id, String)>)
        ensures
            r@.len() == self@.chat_log.len(),
            forall|i: int|
                0 <= i < r@.len() ==> (#[trigger] r@[i]).0@ == self@.chat_log[i].0 && r@[i].1@
                    == self@.chat_log[i].1,
    {
        &self.chat_log
    }

    /// Handle one adapter event: exactly the step [`client_step`] describes.
    pub fn handle_event(&mut self, table: &mut UdpSharedState, ev: UdpAdapterEvent) -> (r:
        TResult<Vec<Vec<Id>>>)
        requires
            old(table)@.wf(),
        ensures
            final(table)@.wf(),
            ({
                let out = client_step(old(self)@, old(table)@, ev@);
                &&& final(self)@ == out.client
                &&& final(table)@ == out.table
                &&& match (r, out.result) {
                    (Ok(replies), Ok(())) => replies.deep_view() == out.replies,
                    (Err(e), Err(ev_)) => e@ == ev_,
                    _ => false,
                }
            }),
    {
        match ev {
            UdpAdapterEvent::PeerConnect(_addr, _packet) => Err(
                TellErr::Lib(
                    LibErr::InvalidPacketType("Client received connection packet".to_owned()),
                ),
            ),
            UdpAdapterEvent::PeerDisconnect(addr, _id, _reason) => {
                let _removed = table.remove_conn(addr);
                Ok(Vec::new())
            },
            UdpAdapterEvent::Payload(addr, packet) => {
                let Packet { header, payload } = packet;
                match payload.server() {
                    None => Err(
                        TellErr::Lib(
                            LibErr::InvalidPacketType("Expected server type packet".to_owned()),
                        ),
                    ),
                    Some(server_packet) => {
                        let bound = self.connected(table);
                        match bound {
                            Some(_) => self.handle_payload(server_packet),
                            None => self.handle_connect_event(
                                table,
                                addr,
                                header.source().clone(),
                                server_packet,
                            ),
                        }
                    },
                }
            },
        }
    }

    fn handle_payload(&mut self, packet: ServerPacket) -> (r: TResult<Vec<Vec<Id>>>)
        ensures
            ({
                let (c2, replies_, result) = client_payload_step(old(self)@, packet@);
                &&& final(self)@ == c2
                &&& match (r, result) {
                    (Ok(replies), Ok(())) => replies.deep_view() == replies_,
                    (Err(e), Err(ev_)) => e@ == ev_,
                    _ => false,
                }
            }),
    {
        match packet {
            ServerPacket::Message { source, target_mode: _, text } => {
                self.chat_log.push((source, text));
                proof {
                    assert(self@.chat_log =~= old(self)@.chat_log.push(
                        (self.chat_log@.last().0@, self.chat_log@.last().1@),
                    ));
                }
                Ok(Vec::new())
            },
            ServerPacket::RequestReply(ids) => {
                let mut replies: Vec<Vec<Id>> = Vec::new();
                replies.push(ids);
                proof {
                    assert(replies.deep_view() =~= seq![replies@[0].deep_view()]);
                }
                Ok(replies)
            },
            _ => Err(
                TellErr::Lib(
                    LibErr::InvalidPacketType("Expected server request or message packet".to_owned()),
                ),
            ),
        }
    }

    fn handle_connect_event(
        &mut self,
        table: &mut UdpSharedState,
        addr: Addr,
        source_id: Id,
        packet: ServerPacket,
    ) -> (r: TResult<Vec<Vec<Id>>>)
        requires
            old(table)@.wf(),
        ensures
            final(table)@.wf(),
            ({
                let out = client_connect_step(old(self)@, old(table)@, addr, source_id@, packet@);
                &&& final(self)@ == out.client
                &&& final(table)@ == out.table
                &&& match (r, out.result) {
                    (Ok(replies), Ok(())) => replies.deep_view() == out.replies,
                    (Err(e), Err(ev_)) => e@ == ev_,
                    _ => false,
                }
            }),
    {
        match packet {
            ServerPacket::PeerConnected(id) => {
                if &self.id == &id {
                    match table.connect_conn(addr, source_id) {
                        Err(e) => Err(e),
                        Ok(()) => Ok(Vec::new()),
                    }
                } else {
                    if !contains_id(&self.peers, &id) {
                        let ghost prev = self.peers.deep_view();
                        self.peers.push(id);
                        proof {
                            assert(self.peers.deep_view() =~= prev.push(
                                self.peers@.last().deep_view(),
                            ));
                        }
                    }
                    Ok(Vec::new())
                }
            },
            ServerPacket::PeerDisconnected(id, _reason) => {
                if &self.id == &id {
                    match self.reset_connection(table) {
                        Err(e) => Err(e),
                        Ok(()) => Ok(Vec::new()),
                    }
                } else {
                    self.remove_peer(&id);
                    Ok(Vec::new())
                }
            },
            _ => Err(
                TellErr::Lib(
                    LibErr::InvalidPacketType("Expected peer connected packet".to_owned()),
                ),
            ),
        }
    }

    /// Drop the first record of `id` from the known peers, if any.
    fn remove_peer(&mut self, id: &Id)
        ensures
            final(self)@ == (ClientView {
                peers: remove_first_id(old(self)@.peers, id@),
                ..old(self)@
            }),
    {
        let mut i: usize = 0;
        while i < self.peers.len()
            invariant
                i <= self@.peers.len(),
                self@ == old(self)@,
                forall|j: int| 0 <= j < i ==> self.peers.deep_view()[j] != id@,
            decreases self@.peers.len() - i,
        {
            if &self.peers[i] == id {
                let ghost prev = self.peers.deep_view();
                let _ = self.peers.remove(i);
                proof {
                    assert(self.peers.deep_view() =~= prev.remove(i as int));
                    lemma_remove_first_at(prev, id@, i as int);
                }
                return ;
            }
            i = i + 1;
        }
        proof {
            lemma_remove_first_absent(self.peers.deep_view(), id@);
        }
    }

    /// Drain a batch of adapter events in order. Each event requires a
    /// pending or active connection — a batch reaching an event without one
    /// fails with `NotConnected` — and the first failure ends the batch,
    /// keeping the changes made up to it and abandoning the rest. The `Ok`
    /// value carries the peer lists that `RequestReply` packets surfaced.
    pub fn poll(&mut self, table: &mut UdpSharedState, events: &mut Vec<UdpAdapterEvent>) -> (r: (
        Vec<Vec<Id>>,
        TResult<()>,
    ))
        requires
            old(table)@.wf(),
        ensures
            final(table)@.wf(),
            final(events)@.len() == 0,
            ({
                let out = client_poll_steps(old(self)@, old(table)@, old(events).deep_view());
                &&& final(self)@ == out.client
                &&& final(table)@ == out.table
                &&& r.0.deep_view() == out.replies
                &&& match (r.1, out.result) {
                    (Ok(()), Ok(())) => true,
                    (Err(e), Err(ev_)) => e@ == ev_,
                    _ => false,
                }
            }),
    {
        let ghost orig_client = old(self)@;
        let ghost orig_table = old(table)@;
        let ghost orig_events = old(events).deep_view();
        let mut out: Vec<Vec<Id>> = Vec::new();
        proof {
            assert(out.deep_view() =~= Seq::<Seq<IdView>>::empty());
            assert(Seq::<Seq<IdView>>::empty() + client_poll_steps(
                orig_client,
                orig_table,
                orig_events,
            ).replies =~= client_poll_steps(orig_client, orig_table, orig_events).replies);
        }
        loop
            invariant
                table@.wf(),
                orig_client == old(self)@,
                orig_table == old(table)@,
                orig_events == old(events).deep_view(),
                ({
                    let full = client_poll_steps(orig_client, orig_table, orig_events);
                    let rest = client_poll_steps(self@, table@, events.deep_view());
                    &&& full.client == rest.client
                    &&& full.table == rest.table
                    &&& full.replies == out.deep_view() + rest.replies
                    &&& full.result == rest.result
                }),
            decreases events@.len(),
        {
            if events.len() == 0 {
                proof {
                    assert(events.deep_view() =~= Seq::<UdpAdapterEventView>::empty());
                    assert(out.deep_view() + Seq::<Seq<IdView>>::empty() =~= out.deep_view());
                }
                return (out, Ok(()));
            }
            let ghost evs_before = events.deep_view();
            let ghost t_before = table@;
            let ghost c_before = self@;
            if !self.connecting() {
                *events = Vec::new();
                proof {
                    assert(out.deep_view() + Seq::<Seq<IdView>>::empty() =~= out.deep_view());
                }
                return (out, Err(TellErr::Lib(LibErr::NotConnected)));
            }
            let ev = events.remove(0);
            proof {
                assert(evs_before[0] == ev@);
                assert(evs_before.skip(1) =~= events.deep_view());
            }
            match self.handle_event(table, ev) {
                Ok(mut replies) => {
                    let ghost out_before = out.deep_view();
                    let ghost new_replies = replies.deep_view();
                    out.append(&mut replies);
                    proof {
                        assert(out.deep_view() =~= out_before + new_replies);
                        assert((out_before + new_replies) + client_poll_steps(
                            self@,
                            table@,
                            events.deep_view(),
                        ).replies =~= out_before + (new_replies + client_poll_steps(
                            self@,
                            table@,
                            events.deep_view(),
                        ).replies));
                    }
                },
                Err(e) => {
                    *events = Vec::new();
                    proof {
                        lemma_client_step_err_no_replies(c_before, t_before, ev@);
                        assert(out.deep_view() + Seq::<Seq<IdView>>::empty() =~= out.deep_view());
                    }
                    return (out, Err(e));
                },
            }
        }
    }
}

} // verus!
