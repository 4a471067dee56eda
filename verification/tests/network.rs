use std::collections::HashSet;

use futures::channel::oneshot;
use libp2p::kad::store::MemoryStore;
use libp2p::request_response::{self, ProtocolSupport};
use libp2p::{Multiaddr, PeerId, StreamProtocol};

use caf::network::{
    add_identified_addresses, get_protocol_name, get_protocol_version, NetworkConfig,
    PendingRequests, ProvidersOutcome, RoutingUpdate,
};
use caf::package::{CompressedPackageContent, Package, PackageId};

fn kademlia(local: PeerId) -> libp2p::kad::Behaviour<MemoryStore> {
    libp2p::kad::Behaviour::new(local, MemoryStore::new(local))
}

/// How many addresses the routing table holds for `peer`, where it holds it.
fn routed_addresses(kad: &mut libp2p::kad::Behaviour<MemoryStore>, peer: PeerId) -> Option<usize> {
    let bucket = kad.kbucket(peer)?;
    let found = bucket
        .iter()
        .find(|e| *e.node.key.preimage() == peer)
        .map(|e| e.node.value.len());
    found
}

fn address() -> Multiaddr {
    "/ip4/127.0.0.1/tcp/4001".parse().unwrap()
}

#[test]
fn network_config_defaults() {
    let c = NetworkConfig::new();
    assert_eq!(c.idle_connection_timeout_secs, 60);
    assert_eq!(c.client_address, "/ip4/0.0.0.0/tcp/0");
    assert_eq!(get_protocol_version(), "0.0.1");
    assert_eq!(get_protocol_name(), "/caf/0.0.1");
}

#[test]
fn dial_is_answered_when_the_connection_is_established() {
    let local = PeerId::random();
    let peer = PeerId::random();
    let mut kad = kademlia(local);
    let mut pending = PendingRequests::new();
    assert_eq!(pending.prepare_dial(&mut kad, &peer, &address()), Some(RoutingUpdate::Success));
    assert_eq!(routed_addresses(&mut kad, peer), Some(1));
    let (tx, mut rx) = oneshot::channel();
    assert!(pending.dial_started(peer, tx, Ok(())).is_ok());
    assert!(pending.is_dialing(&peer));
    assert!(!pending.is_dialing(&PeerId::random()));
    // a second dial of the same peer is not started
    assert_eq!(pending.prepare_dial(&mut kad, &peer, &address()), None);
    // a connection this node did not dial answers nothing
    assert!(pending.connection_established(&peer, false).is_ok());
    assert!(pending.is_dialing(&peer));
    assert_eq!(rx.try_recv().unwrap(), None);
    assert!(pending.connection_established(&peer, true).is_ok());
    assert!(!pending.is_dialing(&peer));
    assert_eq!(rx.try_recv().unwrap(), Some(Ok(())));
}

#[test]
fn refused_dial_is_answered_at_once() {
    let peer = PeerId::random();
    let mut pending = PendingRequests::new();
    let (tx, mut rx) = oneshot::channel();
    assert!(pending.dial_started(peer, tx, Err("no route".to_string())).is_ok());
    assert!(!pending.is_dialing(&peer));
    assert_eq!(rx.try_recv().unwrap(), Some(Err("no route".to_string())));
}

#[test]
fn refused_dial_with_the_receiver_gone_is_undelivered() {
    let peer = PeerId::random();
    let mut pending = PendingRequests::new();
    let (tx, rx) = oneshot::channel();
    drop(rx);
    assert!(pending.dial_started(peer, tx, Err("no route".to_string())).is_err());
}

#[test]
fn failed_connection_answers_the_dial_with_the_error() {
    let peer = PeerId::random();
    let other = PeerId::random();
    let mut pending = PendingRequests::new();
    let (tx, mut rx) = oneshot::channel();
    let (tx2, mut rx2) = oneshot::channel();
    pending.dial_started(peer, tx, Ok(())).unwrap();
    pending.dial_started(other, tx2, Ok(())).unwrap();
    assert!(pending.outgoing_connection_error(None, "x".to_string()).is_ok());
    assert!(pending.outgoing_connection_error(Some(peer), "refused".to_string()).is_ok());
    assert!(!pending.is_dialing(&peer));
    assert!(pending.is_dialing(&other));
    assert_eq!(rx.try_recv().unwrap(), Some(Err("refused".to_string())));
    assert_eq!(rx2.try_recv().unwrap(), None);
    drop(rx2);
    assert!(pending.outgoing_connection_error(Some(other), "refused".to_string()).is_err());
}

#[test]
fn providers_found_are_handed_over() {
    let local = PeerId::random();
    let mut kad = kademlia(local);
    let mut pending = PendingRequests::new();
    let (tx, mut rx) = oneshot::channel();
    let id = pending.start_get_providers(&mut kad, "widget".to_string(), tx);
    let mut providers = HashSet::new();
    providers.insert(PeerId::random());
    assert!(kad.query_mut(&id).is_some());
    let outcome = pending.providers_found(&mut kad, &id, providers.clone());
    assert!(matches!(outcome, ProvidersOutcome::Delivered));
    assert_eq!(rx.try_recv().unwrap(), Some(providers.clone()));
    // only the first result is wanted: the query no longer runs
    assert!(kad.query_mut(&id).is_none());
    // the query is answered once only
    let outcome = pending.providers_found(&mut kad, &id, providers);
    assert!(matches!(outcome, ProvidersOutcome::NotPending));
}

#[test]
fn providing_is_confirmed() {
    let local = PeerId::random();
    let mut kad = kademlia(local);
    let mut pending = PendingRequests::new();
    let (tx, mut rx) = oneshot::channel();
    let id = pending.start_providing(&mut kad, String::new(), tx).unwrap();
    assert!(pending.is_start_providing_pending(&id));
    assert!(pending.start_providing_done(&id).is_ok());
    assert!(!pending.is_start_providing_pending(&id));
    assert_eq!(rx.try_recv().unwrap(), Some(()));
}

#[test]
fn bootstrap_needs_a_known_peer() {
    let local = PeerId::random();
    let mut kad = kademlia(local);
    let mut pending = PendingRequests::new();
    let (tx, _rx) = oneshot::channel();
    assert!(pending.start_bootstrap(&mut kad, tx).is_err());

    let peer = PeerId::random();
    assert_eq!(add_identified_addresses(&mut kad, &peer, &vec![]), vec![]);
    assert!(pending.start_bootstrap(&mut kad, oneshot::channel().0).is_err());
    assert_eq!(
        add_identified_addresses(&mut kad, &peer, &vec![address()]),
        vec![RoutingUpdate::Success]
    );
    let (tx, mut rx) = oneshot::channel();
    let id = pending.start_bootstrap(&mut kad, tx).unwrap();
    assert!(pending.bootstrap_done(&id).is_ok());
    assert_eq!(rx.try_recv().unwrap(), Some(Ok(())));
    // answered once only
    assert!(pending.bootstrap_done(&id).is_ok());
}

fn request_ids(n: usize) -> Vec<libp2p::request_response::OutboundRequestId> {
    let mut behaviour = request_response::cbor::Behaviour::<String, String>::new(
        [(StreamProtocol::new("/caf-test/1"), ProtocolSupport::Full)],
        request_response::Config::default(),
    );
    (0..n).map(|_| behaviour.send_request(&PeerId::random(), "widget".to_string())).collect()
}

fn request_id() -> libp2p::request_response::OutboundRequestId {
    request_ids(1)[0]
}

#[test]
fn package_response_goes_to_its_request() {
    let mut pending = PendingRequests::new();
    let (tx, mut rx) = oneshot::channel();
    let id = request_id();
    pending.package_request_sent(id, tx);
    assert!(pending.is_package_request_pending(&id));
    let package = Package {
        id: PackageId { name: "widget".into(), version: "1.0".into() },
        content: CompressedPackageContent(vec![1]),
    };
    assert!(pending.package_received(&id, package.clone()).is_ok());
    assert!(!pending.is_package_request_pending(&id));
    assert_eq!(rx.try_recv().unwrap(), Some(Ok(package)));
}

#[test]
fn failed_package_request_is_answered_with_the_error() {
    let mut pending = PendingRequests::new();
    let (tx, mut rx) = oneshot::channel();
    let id = request_id();
    pending.package_request_sent(id, tx);
    assert!(pending.package_request_failed(&id, "timeout".to_string()).is_ok());
    assert_eq!(rx.try_recv().unwrap(), Some(Err("timeout".to_string())));
}

#[test]
fn answers_go_to_the_request_with_the_same_id() {
    let mut pending = PendingRequests::new();
    let (tx1, mut rx1) = oneshot::channel();
    let (tx2, mut rx2) = oneshot::channel();
    let ids = request_ids(2);
    let (first, second) = (ids[0], ids[1]);
    assert_ne!(first, second);
    pending.package_request_sent(first, tx1);
    pending.package_request_sent(second, tx2);
    assert!(pending.package_request_failed(&second, "timeout".to_string()).is_ok());
    assert!(pending.is_package_request_pending(&first));
    assert!(!pending.is_package_request_pending(&second));
    assert_eq!(rx1.try_recv().unwrap(), None);
    assert_eq!(rx2.try_recv().unwrap(), Some(Err("timeout".to_string())));
}

#[test]
fn providers_go_to_the_query_with_the_same_id() {
    let local = PeerId::random();
    let mut kad = kademlia(local);
    let mut pending = PendingRequests::new();
    let (tx1, mut rx1) = oneshot::channel();
    let (tx2, mut rx2) = oneshot::channel();
    let first = pending.start_get_providers(&mut kad, "a".to_string(), tx1);
    let second = pending.start_get_providers(&mut kad, "b".to_string(), tx2);
    let outcome = pending.providers_found(&mut kad, &second, HashSet::new());
    assert!(matches!(outcome, ProvidersOutcome::Delivered));
    assert_eq!(rx1.try_recv().unwrap(), None);
    assert_eq!(rx2.try_recv().unwrap(), Some(HashSet::new()));
    let outcome = pending.providers_found(&mut kad, &first, HashSet::new());
    assert!(matches!(outcome, ProvidersOutcome::Delivered));
    assert_eq!(rx1.try_recv().unwrap(), Some(HashSet::new()));
}

#[test]
fn providers_for_a_gone_receiver_are_undelivered() {
    let local = PeerId::random();
    let mut kad = kademlia(local);
    let mut pending = PendingRequests::new();
    let (tx, rx) = oneshot::channel();
    let id = pending.start_get_providers(&mut kad, "a".to_string(), tx);
    drop(rx);
    let outcome = pending.providers_found(&mut kad, &id, HashSet::new());
    assert!(matches!(outcome, ProvidersOutcome::Undelivered));
}

#[test]
fn providers_of_a_finished_query_report_the_missing_query() {
    let local = PeerId::random();
    let mut kad = kademlia(local);
    let mut pending = PendingRequests::new();
    let (tx, mut rx) = oneshot::channel();
    let id = pending.start_get_providers(&mut kad, "a".to_string(), tx);
    kad.query_mut(&id).unwrap().finish();
    let outcome = pending.providers_found(&mut kad, &id, HashSet::new());
    assert!(matches!(outcome, ProvidersOutcome::QueryMissing));
    assert_eq!(rx.try_recv().unwrap(), Some(HashSet::new()));
}

#[test]
fn refused_providing_leaves_nothing_waiting() {
    let local = PeerId::random();
    let mut kad = kademlia(local);
    let mut pending = PendingRequests::new();
    let (tx, _rx) = oneshot::channel();
    let r = pending.providing_started(Err("the store cannot contain any more provider records".to_string()), tx);
    assert_eq!(r, Err("the store cannot contain any more provider records".to_string()));
    let id = kad.get_providers(b"x".to_vec().into());
    assert!(!pending.is_start_providing_pending(&id));
    let (tx, mut rx) = oneshot::channel();
    assert_eq!(pending.providing_started(Ok(id), tx), Ok(id));
    assert!(pending.is_start_providing_pending(&id));
    assert!(pending.start_providing_done(&id).is_ok());
    assert_eq!(rx.try_recv().unwrap(), Some(()));
}

#[test]
fn refused_bootstrap_leaves_nothing_waiting() {
    let local = PeerId::random();
    let mut kad = kademlia(local);
    let mut pending = PendingRequests::new();
    let (tx, _rx) = oneshot::channel();
    let r = pending.bootstrap_started(Err("No known peers.".to_string()), tx);
    assert_eq!(r, Err("No known peers.".to_string()));
    let id = kad.get_providers(b"y".to_vec().into());
    let (tx, mut rx) = oneshot::channel();
    assert_eq!(pending.bootstrap_started(Ok(id), tx), Ok(id));
    assert!(pending.bootstrap_done(&id).is_ok());
    assert_eq!(rx.try_recv().unwrap(), Some(Ok(())));
}

#[test]
fn queries_are_started_for_the_package_name() {
    let local = PeerId::random();
    let mut kad = kademlia(local);
    let mut pending = PendingRequests::new();
    let (tx, _rx) = oneshot::channel();
    let id = pending.start_get_providers(&mut kad, "widget".to_string(), tx);
    match kad.query(&id).unwrap().info() {
        libp2p::kad::QueryInfo::GetProviders { key, .. } => assert_eq!(key.to_vec(), b"widget".to_vec()),
        _ => panic!("a query for providers"),
    }
    let (tx, _rx) = oneshot::channel();
    let id = pending.start_providing(&mut kad, "gadget".to_string(), tx).unwrap();
    match kad.query(&id).unwrap().info() {
        libp2p::kad::QueryInfo::AddProvider { key, .. } => assert_eq!(key.to_vec(), b"gadget".to_vec()),
        _ => panic!("a query that announces a provider"),
    }
}

#[test]
fn every_identified_address_is_handed_to_the_routing_table() {
    let local = PeerId::random();
    let peer = PeerId::random();
    let mut kad = kademlia(local);
    assert_eq!(routed_addresses(&mut kad, peer), None);
    let second: Multiaddr = "/ip4/127.0.0.1/tcp/4002".parse().unwrap();
    let updates = add_identified_addresses(&mut kad, &peer, &vec![address(), second]);
    assert_eq!(updates, vec![RoutingUpdate::Success, RoutingUpdate::Success]);
    assert_eq!(routed_addresses(&mut kad, peer), Some(2));
}

#[test]
fn providing_is_refused_only_by_a_full_store() {
    let local = PeerId::random();
    let config = libp2p::kad::store::MemoryStoreConfig {
        max_provided_keys: 1,
        ..Default::default()
    };
    let mut kad = libp2p::kad::Behaviour::new(local, MemoryStore::with_config(local, config));
    let mut pending = PendingRequests::new();
    let (tx, _rx) = oneshot::channel();
    assert!(pending.start_providing(&mut kad, "widget".to_string(), tx).is_ok());
    // the store holds as many keys as it may, and not this one
    let (tx, _rx) = oneshot::channel();
    assert!(pending.start_providing(&mut kad, "gadget".to_string(), tx).is_err());
    // a key it holds already is taken again
    let (tx, _rx) = oneshot::channel();
    assert!(pending.start_providing(&mut kad, "widget".to_string(), tx).is_ok());
}

#[test]
fn dial_addresses_that_cannot_be_routed_fail() {
    let local = PeerId::random();
    let peer = PeerId::random();
    let other = PeerId::random();
    let mut kad = kademlia(local);
    let pending = PendingRequests::new();
    // an address of another peer
    let foreign = address().with(libp2p::multiaddr::Protocol::P2p(other));
    assert_eq!(pending.prepare_dial(&mut kad, &peer, &foreign), Some(RoutingUpdate::Failed));
    assert_eq!(routed_addresses(&mut kad, peer), None);
    // the local node itself
    assert_eq!(pending.prepare_dial(&mut kad, &local, &address()), Some(RoutingUpdate::Failed));
    // an address that already names the peer is kept as it is
    let own = address().with(libp2p::multiaddr::Protocol::P2p(peer));
    assert_eq!(pending.prepare_dial(&mut kad, &peer, &own), Some(RoutingUpdate::Success));
    assert_eq!(routed_addresses(&mut kad, peer), Some(1));
}
