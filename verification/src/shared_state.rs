//! The connection table: the one piece of state the adapter loop and the
//! protocol engines share.
//!
//! The application wraps it in a mutex; everything here is the plain data
//! and the operations the design allows on it, so every path that touches a
//! connection is verified against the table's invariant: one entry per
//! address.

use vstd::prelude::*;
use crate::addr::Addr;
use crate::adapter::AdapterConfig;
use crate::conn::{ConnView, Connection, ConnectionState, UdpConnection};
use crate::err::{LibErr, TResult, TellErr};
use crate::id::{Id, IdView};
use crate::util::{Metrics, metrics_transferred};

verus! {

/// The interface a shared state manager offers, kept as a named contract
/// beside the one UDP implementation.
pub trait SharedState {
    fn running(&self) -> bool;

    fn shutdown(&mut self);

    fn send_metrics(&self) -> Metrics;

    fn recv_metrics(&self) -> Metrics;
}

/// The mathematical value of a [`UdpSharedState`].
pub ghost struct TableView {
    pub running: bool,
    pub conns: Seq<ConnView>,
    pub config: AdapterConfig,
}

impl TableView {
    /// The table's invariant: no two entries share an address.
    pub open spec fn wf(self) -> bool {
        forall|i: int, j: int|
            0 <= i < j < self.conns.len() ==> (#[trigger] self.conns[i]).addr != (
            #[trigger] self.conns[j]).addr
    }

    /// Does the table hold an entry for `a`?
    pub open spec fn has_addr(self, a: Addr) -> bool {
        exists|i: int| 0 <= i < self.conns.len() && (#[trigger] self.conns[i]).addr == a
    }

    /// The index of the entry for `a` (meaningful when `has_addr(a)`).
    pub open spec fn idx_of(self, a: Addr) -> int {
        choose|i: int| 0 <= i < self.conns.len() && (#[trigger] self.conns[i]).addr == a
    }

    /// The entry for `a` (meaningful when `has_addr(a)`).
    pub open spec fn at_addr(self, a: Addr) -> ConnView {
        self.conns[self.idx_of(a)]
    }

    /// This table with its entries replaced.
    pub open spec fn with_conns(self, conns: Seq<ConnView>) -> TableView {
        TableView { conns, ..self }
    }
}

/// In a well-formed table the entry index for an address is the only one
/// carrying that address.
pub proof fn lemma_idx_of_unique(t: TableView, i: int)
    requires
        t.wf(),
        0 <= i < t.conns.len(),
    ensures
        t.has_addr(t.conns[i].addr),
        t.idx_of(t.conns[i].addr) == i,
{
    let a = t.conns[i].addr;
    assert(t.has_addr(a));
    let j = t.idx_of(a);
    assert(0 <= j < t.conns.len() && t.conns[j].addr == a);
    if i < j {
        assert(t.conns[i].addr != t.conns[j].addr);
    } else if j < i {
        assert(t.conns[j].addr != t.conns[i].addr);
    }
}

/// The identities of all established entries, in table order.
pub open spec fn established_ids_spec(conns: Seq<ConnView>) -> Seq<IdView>
    decreases conns.len(),
{
    if conns.len() == 0 {
        Seq::empty()
    } else {
        let prefix = established_ids_spec(conns.drop_last());
        let c = conns.last();
        match c.id {
            Some(i) => if c.conn_state == ConnectionState::Established {
                prefix.push(i)
            } else {
                prefix
            },
            None => prefix,
        }
    }
}

/// The addresses of all established entries whose identity is among
/// `targets`, in table order; unknown target identities resolve to nothing.
pub open spec fn multicast_addrs_spec(conns: Seq<ConnView>, targets: Seq<IdView>) -> Seq<Addr>
    decreases conns.len(),
{
    if conns.len() == 0 {
        Seq::empty()
    } else {
        let prefix = multicast_addrs_spec(conns.drop_last(), targets);
        let c = conns.last();
        match c.id {
            Some(i) => if c.conn_state == ConnectionState::Established && targets.contains(i) {
                prefix.push(c.addr)
            } else {
                prefix
            },
            None => prefix,
        }
    }
}

/// What the table becomes once an outbound transfer is recorded against
/// `addr`: the entry's send metrics advance; an unknown address changes
/// nothing.
pub open spec fn send_recorded(t: TableView, addr: Addr, size: usize, now: u128) -> TableView {
    if t.has_addr(addr) {
        t.with_conns(
            t.conns.update(
                t.idx_of(addr),
                ConnView { send_m: metrics_transferred(t.at_addr(addr).send_m, size, now), ..t.at_addr(addr) },
            ),
        )
    } else {
        t
    }
}

/// What the table becomes once an inbound transfer is recorded against
/// `addr`.
pub open spec fn recv_recorded(t: TableView, addr: Addr, size: usize, now: u128) -> TableView {
    if t.has_addr(addr) {
        t.with_conns(
            t.conns.update(
                t.idx_of(addr),
                ConnView { recv_m: metrics_transferred(t.at_addr(addr).recv_m, size, now), ..t.at_addr(addr) },
            ),
        )
    } else {
        t
    }
}

/// Is `c` an established entry bound to `id`?
pub open spec fn is_established_with(c: ConnView, id: IdView) -> bool {
    c.conn_state == ConnectionState::Established && c.id == Some(id)
}

/// The address of the first established entry bound to `id`, if any.
pub open spec fn first_established_addr(conns: Seq<ConnView>, id: IdView) -> Option<Addr>
    decreases conns.len(),
{
    if conns.len() == 0 {
        None
    } else if is_established_with(conns[0], id) {
        Some(conns[0].addr)
    } else {
        first_established_addr(conns.skip(1), id)
    }
}

/// The table from address to per-peer connection state, the liveness flag
/// of the adapter loop, and the adapter's configuration.
#[derive(Debug)]
pub struct UdpSharedState {
    running: bool,
    conns: Vec<UdpConnection>,
    config: AdapterConfig,
}

impl View for UdpSharedState {
    type V = TableView;

    closed spec fn view(&self) -> TableView {
        TableView { running: self.running, conns: self.conns.deep_view(), config: self.config }
    }
}

impl UdpSharedState {
    /// An empty, running table.
    pub fn new(config: AdapterConfig) -> (t: Self)
        ensures
            t@.running,
            t@.conns == Seq::<ConnView>::empty(),
            t@.config == config,
            t@.wf(),
    {
        let t = Self { running: true, conns: Vec::new(), config };
        proof {
            assert(t@.conns =~= Seq::<ConnView>::empty());
        }
        t
    }

    /// Is the adapter loop still meant to run?
    pub fn running(&self) -> (r: bool)
        ensures
            r == self@.running,
    {
        self.running
    }

    /// Ask the adapter loop to stop at the end of its current iteration.
    pub fn shutdown(&mut self)
        ensures
            final(self)@ == (TableView { running: false, ..old(self)@ }),
    {
        self.running = false;
    }

    /// The adapter's configuration.
    pub fn config(&self) -> (r: AdapterConfig)
        ensures
            r == self@.config,
    {
        self.config
    }

    /// How many entries the table holds.
    pub fn conn_count(&self) -> (r: usize)
        ensures
            r == self@.conns.len(),
    {
        self.conns.len()
    }

    /// The index of the entry for `addr`, if one exists.
    fn find_idx(&self, addr: Addr) -> (r: Option<usize>)
        ensures
            match r {
                Some(i) => i < self@.conns.len() && self@.conns[i as int].addr == addr,
                None => !self@.has_addr(addr),
            },
    {
        let mut i: usize = 0;
        while i < self.conns.len()
            invariant
                i <= self@.conns.len(),
                forall|j: int| 0 <= j < i ==> (#[trigger] self@.conns[j]).addr != addr,
            decreases self@.conns.len() - i,
        {
            if self.conns[i].addr() == addr {
                return Some(i);
            }
            i = i + 1;
        }
        None
    }

    /// The entry at table position `i`.
    pub fn conn_at(&self, i: usize) -> (r: &UdpConnection)
        requires
            i < self@.conns.len(),
        ensures
            r@ == self@.conns[i as int],
    {
        &self.conns[i]
    }

    /// The entry for `addr`, if one exists.
    pub fn get_conn(&self, addr: Addr) -> (r: Option<&UdpConnection>)
        requires
            self@.wf(),
        ensures
            match r {
                Some(c) => self@.has_addr(addr) && c@ == self@.at_addr(addr),
                None => !self@.has_addr(addr),
            },
    {
        match self.find_idx(addr) {
            None => None,
            Some(i) => {
                proof {
                    lemma_idx_of_unique(self@, i as int);
                }
                Some(&self.conns[i])
            },
        }
    }

    /// Insert `conn`, refusing a duplicate address and refusing to grow past
    /// the configured maximum.
    pub fn add_conn(&mut self, conn: UdpConnection) -> (r: TResult<()>)
        requires
            old(self)@.wf(),
        ensures
            final(self)@.wf(),
            old(self)@.has_addr(conn@.addr) ==> final(self)@ == old(self)@ && (r matches Err(
                TellErr::Lib(LibErr::PeerAlreadyConnected(a)),
            ) && a == conn@.addr),
            !old(self)@.has_addr(conn@.addr) && old(self)@.conns.len() >= old(
                self,
            )@.config.max_conns ==> final(self)@ == old(self)@ && (r matches Err(
                TellErr::Lib(LibErr::MaxConnectionsReached(n)),
            ) && n == old(self)@.conns.len()),
            !old(self)@.has_addr(conn@.addr) && old(self)@.conns.len() < old(
                self,
            )@.config.max_conns ==> r is Ok && final(self)@ == old(self)@.with_conns(
                old(self)@.conns.push(conn@),
            ),
    {
        match self.find_idx(conn.addr()) {
            Some(_) => Err(TellErr::Lib(LibErr::PeerAlreadyConnected(conn.addr()))),
            None => {
                if self.conns.len() >= self.config.max_conns as usize {
                    Err(TellErr::Lib(LibErr::MaxConnectionsReached(self.conns.len())))
                } else {
                    self.conns.push(conn);
                    proof {
                        assert(self@.conns =~= old(self)@.conns.push(conn@));
                    }
                    Ok(())
                }
            },
        }
    }

    /// Remove and return the entry for `addr`, if one exists.
    pub fn remove_conn(&mut self, addr: Addr) -> (r: Option<UdpConnection>)
        requires
            old(self)@.wf(),
        ensures
            final(self)@.wf(),
            final(self)@.running == old(self)@.running,
            final(self)@.config == old(self)@.config,
            !old(self)@.has_addr(addr) ==> r is None && final(self)@ == old(self)@,
            old(self)@.has_addr(addr) ==> (r matches Some(c) && c@ == old(self)@.at_addr(addr))
                && final(self)@.conns == old(self)@.conns.remove(old(self)@.idx_of(addr)),
            !final(self)@.has_addr(addr),
    {
        match self.find_idx(addr) {
            None => None,
            Some(i) => {
                proof {
                    lemma_idx_of_unique(self@, i as int);
                }
                let c = self.conns.remove(i);
                proof {
                    assert(self@.conns =~= old(self)@.conns.remove(i as int));
                    assert forall|k: int| 0 <= k < self@.conns.len() implies (
                    #[trigger] self@.conns[k]).addr != addr by {
                        if k < i {
                            assert(self@.conns[k] == old(self)@.conns[k]);
                        } else {
                            assert(self@.conns[k] == old(self)@.conns[k + 1]);
                        }
                    }
                }
                Some(c)
            },
        }
    }

    /// A snapshot of every known address, in table order; this is what
    /// `Broadcast` resolves to.
    pub fn conn_addrs(&self) -> (r: Vec<Addr>)
        ensures
            r@.len() == self@.conns.len(),
            forall|i: int| 0 <= i < r@.len() ==> r@[i] == (#[trigger] self@.conns[i]).addr,
    {
        let mut out: Vec<Addr> = Vec::new();
        let mut i: usize = 0;
        while i < self.conns.len()
            invariant
                i <= self@.conns.len(),
                out@.len() == i,
                forall|j: int| 0 <= j < i ==> out@[j] == (#[trigger] self@.conns[j]).addr,
            decreases self@.conns.len() - i,
        {
            out.push(self.conns[i].addr());
            i = i + 1;
        }
        out
    }

    /// Bind `id` to the entry for `addr` and mark it established, failing
    /// when no such entry exists.
    pub fn connect_conn(&mut self, addr: Addr, id: Id) -> (r: TResult<()>)
        requires
            old(self)@.wf(),
        ensures
            final(self)@.wf(),
            !old(self)@.has_addr(addr) ==> final(self)@ == old(self)@ && (r matches Err(
                TellErr::Lib(LibErr::PeerNotConnected(a)),
            ) && a == addr),
            old(self)@.has_addr(addr) ==> r is Ok && final(self)@ == old(self)@.with_conns(
                old(self)@.conns.update(
                    old(self)@.idx_of(addr),
                    ConnView {
                        conn_state: ConnectionState::Established,
                        id: Some(id@),
                        ..old(self)@.at_addr(addr)
                    },
                ),
            ),
    {
        match self.find_idx(addr) {
            None => Err(TellErr::Lib(LibErr::PeerNotConnected(addr))),
            Some(i) => {
                proof {
                    lemma_idx_of_unique(self@, i as int);
                }
                let mut c = self.conns.remove(i);
                let _ = c.connect(id);
                self.conns.insert(i, c);
                proof {
                    assert(self@.conns =~= old(self)@.conns.update(i as int, c@));
                    lemma_update_keeps_wf(old(self)@, i as int, c@);
                }
                Ok(())
            },
        }
    }

    /// Record an outbound transfer on the entry for `addr`, if one exists;
    /// sends to unknown addresses leave the table unchanged.
    pub fn record_send(&mut self, addr: Addr, size: usize, now: u128)
        requires
            old(self)@.wf(),
        ensures
            final(self)@.wf(),
            final(self)@ == send_recorded(old(self)@, addr, size, now),
    {
        match self.find_idx(addr) {
            None => {},
            Some(i) => {
                proof {
                    lemma_idx_of_unique(self@, i as int);
                }
                let mut c = self.conns.remove(i);
                c.send(size, now);
                self.conns.insert(i, c);
                proof {
                    assert(self@.conns =~= old(self)@.conns.update(i as int, c@));
                    lemma_update_keeps_wf(old(self)@, i as int, c@);
                }
            },
        }
    }

    /// Record an inbound transfer on the entry for `addr`, if one exists.
    pub fn record_recv(&mut self, addr: Addr, size: usize, now: u128)
        requires
            old(self)@.wf(),
        ensures
            final(self)@.wf(),
            final(self)@ == recv_recorded(old(self)@, addr, size, now),
    {
        match self.find_idx(addr) {
            None => {},
            Some(i) => {
                proof {
                    lemma_idx_of_unique(self@, i as int);
                }
                let mut c = self.conns.remove(i);
                c.recv(size, now);
                self.conns.insert(i, c);
                proof {
                    assert(self@.conns =~= old(self)@.conns.update(i as int, c@));
                    lemma_update_keeps_wf(old(self)@, i as int, c@);
                }
            },
        }
    }

    /// The identities of every established connection, in table order.
    pub fn established_ids(&self) -> (r: Vec<Id>)
        ensures
            r.deep_view() == established_ids_spec(self@.conns),
    {
        let mut out: Vec<Id> = Vec::new();
        let mut i: usize = 0;
        proof {
            assert(out.deep_view() =~= established_ids_spec(self@.conns.take(0)));
        }
        while i < self.conns.len()
            invariant
                i <= self@.conns.len(),
                out.deep_view() == established_ids_spec(self@.conns.take(i as int)),
            decreases self@.conns.len() - i,
        {
            let ghost prev = out.deep_view();
            let c = &self.conns[i];
            if c.conn_state() == ConnectionState::Established {
                match c.id() {
                    Some(id) => out.push(id.clone()),
                    None => {},
                }
            }
            proof {
                assert(self@.conns.take(i + 1).drop_last() =~= self@.conns.take(i as int));
                assert(self@.conns.take(i + 1).last() == self@.conns[i as int]);
                assert(out.deep_view() =~= established_ids_spec(self@.conns.take(i + 1)));
            }
            i = i + 1;
        }
        proof {
            assert(self@.conns.take(self@.conns.len() as int) =~= self@.conns);
        }
        out
    }

    /// The addresses of every established connection whose identity is among
    /// `targets`; identities that match nothing are silently dropped.
    pub fn multicast_addrs(&self, targets: &Vec<Id>) -> (r: Vec<Addr>)
        ensures
            r@ == multicast_addrs_spec(self@.conns, targets.deep_view()),
    {
        let mut out: Vec<Addr> = Vec::new();
        let mut i: usize = 0;
        proof {
            assert(out@ =~= multicast_addrs_spec(self@.conns.take(0), targets.deep_view()));
        }
        while i < self.conns.len()
            invariant
                i <= self@.conns.len(),
                out@ == multicast_addrs_spec(self@.conns.take(i as int), targets.deep_view()),
            decreases self@.conns.len() - i,
        {
            let c = &self.conns[i];
            if c.conn_state() == ConnectionState::Established {
                match c.id() {
                    Some(id) => {
                        if contains_id(targets, id) {
                            out.push(c.addr());
                        }
                    },
                    None => {},
                }
            }
            proof {
                assert(self@.conns.take(i + 1).drop_last() =~= self@.conns.take(i as int));
                assert(self@.conns.take(i + 1).last() == self@.conns[i as int]);
                assert(out@ =~= multicast_addrs_spec(self@.conns.take(i + 1), targets.deep_view()));
            }
            i = i + 1;
        }
        proof {
            assert(self@.conns.take(self@.conns.len() as int) =~= self@.conns);
        }
        out
    }

    /// The address of the first established connection bound to `id`, if
    /// any.
    pub fn addr_of(&self, id: &Id) -> (r: Option<Addr>)
        ensures
            r == first_established_addr(self@.conns, id@),
    {
        proof {
            assert(self@.conns.skip(0) =~= self@.conns);
        }
        self.addr_of_from(id, 0)
    }

    fn addr_of_from(&self, id: &Id, i: usize) -> (r: Option<Addr>)
        requires
            i <= self@.conns.len(),
        ensures
            r == first_established_addr(self@.conns.skip(i as int), id@),
        decreases self@.conns.len() - i,
    {
        if i == self.conns.len() {
            return None;
        }
        proof {
            assert(self@.conns.skip(i as int)[0] == self@.conns[i as int]);
            assert(self@.conns.skip(i as int).skip(1) =~= self@.conns.skip(i + 1));
        }
        let c = &self.conns[i];
        if c.conn_state() == ConnectionState::Established {
            match c.id() {
                Some(cid) => {
                    if cid == id {
                        proof {
                            assert(is_established_with(self@.conns[i as int], id@));
                        }
                        return Some(c.addr());
                    }
                },
                None => {},
            }
        }
        proof {
            assert(!is_established_with(self@.conns[i as int], id@));
        }
        self.addr_of_from(id, i + 1)
    }
}

/// Replacing an entry without changing its address preserves the table
/// invariant.
proof fn lemma_update_keeps_wf(t: TableView, i: int, c: ConnView)
    requires
        t.wf(),
        0 <= i < t.conns.len(),
        c.addr == t.conns[i].addr,
    ensures
        t.with_conns(t.conns.update(i, c)).wf(),
{
}

/// Does `ids` hold an identity with the same value as `id`?
pub fn contains_id(ids: &Vec<Id>, id: &Id) -> (r: bool)
    ensures
        r == ids.deep_view().contains(id@),
{
    let mut i: usize = 0;
    while i < ids.len()
        invariant
            i <= ids@.len(),
            forall|j: int| 0 <= j < i ==> ids.deep_view()[j] != id@,
        decreases ids@.len() - i,
    {
        if &ids[i] == id {
            proof {
                assert(ids.deep_view()[i as int] == id@);
            }
            return true;
        }
        i = i + 1;
    }
    false
}

} // verus!
