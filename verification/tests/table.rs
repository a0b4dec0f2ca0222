use tell_lib::addr::Addr;
use tell_lib::adapter::AdapterConfig;
use tell_lib::conn::{ConnectionState, UdpConnection};
use tell_lib::err::{LibErr, TellErr};
use tell_lib::id::Id;
use tell_lib::shared_state::UdpSharedState;

fn table(max_conns: u16) -> UdpSharedState {
    UdpSharedState::new(AdapterConfig { port: 7000, max_conns })
}

fn addr(n: u16) -> Addr {
    Addr::new(0x7F000001, 9000 + n)
}

#[test]
fn capacity_is_enforced() {
    let mut t = table(2);
    t.add_conn(UdpConnection::outgoing(addr(1), 0)).unwrap();
    t.add_conn(UdpConnection::outgoing(addr(2), 0)).unwrap();
    let err = t
        .add_conn(UdpConnection::outgoing(addr(3), 0))
        .unwrap_err();
    assert_eq!(err, TellErr::Lib(LibErr::MaxConnectionsReached(2)));
    assert_eq!(t.conn_count(), 2);
}

#[test]
fn duplicate_addresses_are_refused() {
    let mut t = table(8);
    t.add_conn(UdpConnection::outgoing(addr(1), 0)).unwrap();
    let err = t
        .add_conn(UdpConnection::outgoing(addr(1), 0))
        .unwrap_err();
    assert_eq!(err, TellErr::Lib(LibErr::PeerAlreadyConnected(addr(1))));
    assert_eq!(t.conn_count(), 1);
}

#[test]
fn remove_returns_the_connection() {
    let mut t = table(8);
    let ann = Id::new("Ann".to_owned()).unwrap();
    t.add_conn(UdpConnection::incoming(addr(1), ann.clone(), 5)).unwrap();
    let removed = t.remove_conn(addr(1)).unwrap();
    assert_eq!(removed.addr(), addr(1));
    assert_eq!(removed.conn_state(), ConnectionState::Established);
    assert_eq!(removed.id(), Some(&ann));
    assert_eq!(t.conn_count(), 0);
    assert!(t.remove_conn(addr(1)).is_none());
}

#[test]
fn addresses_snapshot_in_table_order() {
    let mut t = table(8);
    t.add_conn(UdpConnection::outgoing(addr(3), 0)).unwrap();
    t.add_conn(UdpConnection::outgoing(addr(1), 0)).unwrap();
    assert_eq!(t.conn_addrs(), vec![addr(3), addr(1)]);
}

#[test]
fn connect_binds_identity_and_establishes() {
    let mut t = table(8);
    t.add_conn(UdpConnection::outgoing(addr(1), 0)).unwrap();
    assert_eq!(
        t.get_conn(addr(1)).unwrap().conn_state(),
        ConnectionState::Connecting
    );
    let chef = Id::new("Chef".to_owned()).unwrap();
    t.connect_conn(addr(1), chef.clone()).unwrap();
    let c = t.get_conn(addr(1)).unwrap();
    assert_eq!(c.conn_state(), ConnectionState::Established);
    assert_eq!(c.id(), Some(&chef));
    let err = t.connect_conn(addr(9), chef).unwrap_err();
    assert_eq!(err, TellErr::Lib(LibErr::PeerNotConnected(addr(9))));
}

#[test]
fn running_flag_toggles_once() {
    let mut t = table(1);
    assert!(t.running());
    t.shutdown();
    assert!(!t.running());
}

#[test]
fn established_lookups_match_identity_and_state() {
    let mut t = table(8);
    let ann = Id::new("Ann".to_owned()).unwrap();
    let bob = Id::new("Bob".to_owned()).unwrap();
    t.add_conn(UdpConnection::incoming(addr(1), ann.clone(), 0)).unwrap();
    t.add_conn(UdpConnection::incoming(addr(2), bob.clone(), 0)).unwrap();
    // A connection still connecting is invisible to established lookups.
    t.add_conn(UdpConnection::outgoing(addr(3), 0)).unwrap();

    assert_eq!(t.established_ids(), vec![ann.clone(), bob.clone()]);
    assert_eq!(t.multicast_addrs(&vec![bob.clone()]), vec![addr(2)]);
    assert_eq!(t.multicast_addrs(&vec![ann.clone(), bob.clone()]), vec![addr(1), addr(2)]);
    // Unknown identities are silently dropped from the set.
    let ghost_id = Id::new("Ghost".to_owned()).unwrap();
    assert_eq!(t.multicast_addrs(&vec![ghost_id.clone()]), Vec::<Addr>::new());
    assert_eq!(t.addr_of(&ann), Some(addr(1)));
    assert_eq!(t.addr_of(&ghost_id), None);
}
