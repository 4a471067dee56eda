use vstd::prelude::*;

use std::collections::HashSet;

use futures::channel::oneshot::Sender;
use libp2p::kad::QueryId;
use libp2p::request_response::OutboundRequestId;
use libp2p::{Multiaddr, PeerId};

use crate::package::{bytes_equal, Package, PackageId, PackageView};
use crate::pending::{PendingTable, RequestKey};

verus! {

/// The identifier of a peer of the network.
#[verifier::external_type_specification]
#[verifier::external_body]
pub struct ExPeerId(libp2p::PeerId);

/// A network address.
#[verifier::external_type_specification]
#[verifier::external_body]
pub struct ExMultiaddr(libp2p::Multiaddr);

/// The identifier of a Kademlia query.
#[verifier::external_type_specification]
#[verifier::external_body]
pub struct ExQueryId(libp2p::kad::QueryId);

/// The identifier of a request sent to another peer.
#[verifier::external_type_specification]
#[verifier::external_body]
pub struct ExOutboundRequestId(libp2p::request_response::OutboundRequestId);

/// The sending half of a channel that carries one value.
#[verifier::external_type_specification]
#[verifier::external_body]
#[verifier::reject_recursive_types(T)]
pub struct ExSender<T>(futures::channel::oneshot::Sender<T>);

/// The Kademlia behaviour of the node.
#[verifier::external_type_specification]
#[verifier::external_body]
#[verifier::reject_recursive_types(TStore)]
pub struct ExKademlia<TStore>(libp2p::kad::Behaviour<TStore>);

/// The record store of the Kademlia behaviour.
#[verifier::external_type_specification]
#[verifier::external_body]
pub struct ExMemoryStore(libp2p::kad::store::MemoryStore);

/// The bytes of a peer id (`PeerId::to_bytes`): its multihash's code, size and
/// digest. Two ids compare equal exactly when their bytes are equal.
pub uninterp spec fn peer_id_bytes(p: PeerId) -> Seq<u8>;

/// `PeerId::to_bytes`.
#[verifier::external_body]
fn peer_id_to_bytes(p: &PeerId) -> (r: Vec<u8>)
    ensures
        r@ == peer_id_bytes(*p),
{
    p.to_bytes()
}

/// `QueryId`'s `==`, derived over the query's number: equal exactly when the
/// numbers are.
#[verifier::external_body]
fn query_ids_equal(a: &QueryId, b: &QueryId) -> (r: bool)
    ensures
        r == (*a == *b),
{
    a == b
}

/// `OutboundRequestId`'s `==`, derived over the request's number: equal
/// exactly when the numbers are.
#[verifier::external_body]
fn request_ids_equal(a: &OutboundRequestId, b: &OutboundRequestId) -> (r: bool)
    ensures
        r == (*a == *b),
{
    a == b
}

/// A peer as the key of a dial: the bytes of its id.
#[derive(Debug)]
pub struct PeerKey {
    bytes: Vec<u8>,
}

impl PeerKey {
    /// The key of the peer `peer_id`.
    pub fn of(peer_id: &PeerId) -> (k: PeerKey)
        ensures
            k.key_value() == peer_id_bytes(*peer_id),
    {
        PeerKey { bytes: peer_id_to_bytes(peer_id) }
    }
}

impl RequestKey for PeerKey {
    type Value = Seq<u8>;

    closed spec fn key_value(&self) -> Seq<u8> {
        self.bytes@
    }

    fn same_key(&self, other: &PeerKey) -> (r: bool) {
        bytes_equal(&self.bytes, &other.bytes)
    }
}

impl RequestKey for QueryId {
    type Value = QueryId;

    open spec fn key_value(&self) -> QueryId {
        *self
    }

    fn same_key(&self, other: &QueryId) -> (r: bool) {
        query_ids_equal(self, other)
    }
}

impl RequestKey for OutboundRequestId {
    type Value = OutboundRequestId;

    open spec fn key_value(&self) -> OutboundRequestId {
        *self
    }

    fn same_key(&self, other: &OutboundRequestId) -> (r: bool) {
        request_ids_equal(self, other)
    }
}

/// The dial answers sent on `s`, by their texts. A channel carries one value,
/// and sending consumes its sender, so this holds at most one.
pub uninterp spec fn result_reply_sent(s: Sender<Result<(), String>>) -> Seq<Result<(), Seq<char>>>;

/// The confirmations sent on `s`.
pub uninterp spec fn providing_reply_sent(s: Sender<()>) -> Seq<()>;

/// The sets of providers sent on `s`.
pub uninterp spec fn providers_reply_sent(s: Sender<HashSet<PeerId>>) -> Seq<HashSet<PeerId>>;

/// The packages (or error texts) sent on `s`.
pub uninterp spec fn package_reply_sent(s: Sender<Result<Package, String>>) -> Seq<
    Result<PackageView, Seq<char>>,
>;

/// An answer or error text, by its text.
pub open spec fn result_text(r: Result<(), String>) -> Result<(), Seq<char>> {
    match r {
        Ok(()) => Ok(()),
        Err(e) => Err(e@),
    }
}

/// A package answer, by its view.
pub open spec fn package_result_view(r: Result<Package, String>) -> Result<PackageView, Seq<char>> {
    match r {
        Ok(p) => Ok(p@),
        Err(e) => Err(e@),
    }
}

/// `oneshot::Sender::send` of a dial or bootstrap answer: where it returns
/// `Ok`, the receiving half holds the value; where the receiving half is gone,
/// nothing was sent and the value comes back.
#[verifier::external_body]
fn send_result_reply(sender: DialReply, value: Result<(), String>) -> (r: Result<(), Result<(), String>>)
    ensures
        r is Ok ==> result_reply_sent(sender) == seq![result_text(value)],
        r is Err ==> result_reply_sent(sender).len() == 0,
        r matches Err(v) ==> v == value,
{
    sender.send(value)
}

/// `oneshot::Sender::send` of a confirmation, as `send_result_reply` states it.
#[verifier::external_body]
fn send_providing_reply(sender: Sender<()>) -> (r: Result<(), ()>)
    ensures
        r is Ok ==> providing_reply_sent(sender) == seq![()],
        r is Err ==> providing_reply_sent(sender) == Seq::<()>::empty(),
{
    sender.send(())
}

/// `oneshot::Sender::send` of providers, as `send_result_reply` states it.
#[verifier::external_body]
fn send_providers_reply(sender: Sender<HashSet<PeerId>>, value: HashSet<PeerId>) -> (r: Result<
    (),
    HashSet<PeerId>,
>)
    ensures
        r is Ok ==> providers_reply_sent(sender) == seq![value],
        r is Err ==> providers_reply_sent(sender) == Seq::<HashSet<PeerId>>::empty(),
{
    sender.send(value)
}

/// `oneshot::Sender::send` of a package answer, as `send_result_reply` states it.
#[verifier::external_body]
fn send_package_reply(sender: PackageReply, value: Result<Package, String>) -> (r: Result<(), Result<Package, String>>)
    ensures
        r is Ok ==> package_reply_sent(sender) == seq![package_result_view(value)],
        r is Err ==> package_reply_sent(sender).len() == 0,
{
    sender.send(value)
}

/// For each peer (by the bytes of its id) that the routing table of `k` holds
/// an entry for, the bytes of the addresses the entry holds.
pub uninterp spec fn kad_routing_entries(k: libp2p::kad::Behaviour<libp2p::kad::store::MemoryStore>) -> Map<
    Seq<u8>,
    Set<Seq<u8>>,
>;

/// For each peer (by the bytes of its id) that waits in the routing table of
/// `k` for room in its bucket, the bytes of the addresses it waits with.
pub uninterp spec fn kad_pending_entries(k: libp2p::kad::Behaviour<libp2p::kad::store::MemoryStore>) -> Map<
    Seq<u8>,
    Set<Seq<u8>>,
>;

/// The peers (by the bytes of their ids) that the routing table of `k` has no
/// room for: the one whose key is the local node's own, and those whose bucket
/// holds as many entries as a bucket can.
pub uninterp spec fn kad_no_room(k: libp2p::kad::Behaviour<libp2p::kad::store::MemoryStore>) -> Set<Seq<u8>>;

/// The bytes of `Multiaddr::with_p2p(a, p)` where it succeeds: `a` itself
/// where it ends in `/p2p/` and `p`, `a` followed by `/p2p/` and `p` where it
/// ends in no `/p2p/` part; `None` where it ends in another peer's.
pub uninterp spec fn p2p_address(a: Multiaddr, p: PeerId) -> Option<Seq<u8>>;

/// The keys (as bytes) that the record store of `k` holds provider records
/// for.
pub uninterp spec fn kad_provider_keys(k: libp2p::kad::Behaviour<libp2p::kad::store::MemoryStore>) -> Set<Seq<u8>>;

/// The limit `max_provided_keys` that the record store of `k` was made with:
/// the number of keys it takes provider records for, at most.
pub uninterp spec fn kad_max_provided_keys(k: libp2p::kad::Behaviour<libp2p::kad::store::MemoryStore>) -> nat;

/// What the routing table `k` holds of `peer` once `address` was handed to it
/// and it reported `r`: with success, the peer's entry holds the address made
/// into a `/p2p` address of the peer; pending, the peer waits with it; failed,
/// the address names another peer, or the table has no room for the peer.
pub open spec fn address_handed(
    k: libp2p::kad::Behaviour<libp2p::kad::store::MemoryStore>,
    peer: PeerId,
    address: Multiaddr,
    r: RoutingUpdate,
) -> bool {
    let p = peer_id_bytes(peer);
    match r {
        RoutingUpdate::Success => p2p_address(address, peer) is Some && kad_routing_entries(k).contains_key(p)
            && kad_routing_entries(k)[p].contains(p2p_address(address, peer)->Some_0),
        RoutingUpdate::Pending => p2p_address(address, peer) is Some && kad_pending_entries(k).contains_key(p)
            && kad_pending_entries(k)[p].contains(p2p_address(address, peer)->Some_0),
        RoutingUpdate::Failed => p2p_address(address, peer) is None || kad_no_room(k).contains(p),
    }
}

/// Whether the routing table of `k` holds an entry, or a peer waiting for room.
pub open spec fn kad_knows_a_peer(k: libp2p::kad::Behaviour<libp2p::kad::store::MemoryStore>) -> bool {
    (exists|p: Seq<u8>| #[trigger] kad_routing_entries(k).contains_key(p))
        || (exists|p: Seq<u8>| #[trigger] kad_pending_entries(k).contains_key(p))
}

/// For each query of `k` that is running (in the behaviour's pool and not
/// finished) and looks for the providers of a record key or announces this
/// node as a provider of one, that key's bytes.
pub uninterp spec fn kad_query_keys(k: libp2p::kad::Behaviour<libp2p::kad::store::MemoryStore>) -> Map<QueryId, Seq<u8>>;

/// What `kad::Behaviour::add_address` reports of an address.
#[derive(Debug, Clone, Copy, PartialEq, Eq, Structural)]
pub enum RoutingUpdate {
    /// The peer is in the routing table and holds the address.
    Success,
    /// The peer waits for room in its bucket.
    Pending,
    /// The address was not added.
    Failed,
}

/// `kad::Behaviour::add_address`: hands `address`, made into a `/p2p` address
/// of `peer`, to the routing table, and reports what became of it (see
/// `address_handed`). Which outcome comes depends on the buckets, and on the
/// clock, which decides when a waiting peer takes the place of another.
#[verifier::external_body]
fn kad_add_address(
    kademlia: &mut libp2p::kad::Behaviour<libp2p::kad::store::MemoryStore>,
    peer: &PeerId,
    address: &Multiaddr,
) -> (r: RoutingUpdate)
    ensures
        r is Success ==> p2p_address(*address, *peer) is Some && kad_routing_entries(
            *final(kademlia),
        ).contains_key(peer_id_bytes(*peer)) && kad_routing_entries(
            *final(kademlia),
        )[peer_id_bytes(*peer)].contains(p2p_address(*address, *peer)->Some_0),
        r is Pending ==> p2p_address(*address, *peer) is Some && kad_pending_entries(
            *final(kademlia),
        ).contains_key(peer_id_bytes(*peer)) && kad_pending_entries(
            *final(kademlia),
        )[peer_id_bytes(*peer)].contains(p2p_address(*address, *peer)->Some_0),
        r is Failed ==> p2p_address(*address, *peer) is None || kad_no_room(
            *final(kademlia),
        ).contains(peer_id_bytes(*peer)),
        kad_query_keys(*final(kademlia)) == kad_query_keys(*old(kademlia)),
{
    match kademlia.add_address(peer, address.clone()) {
        libp2p::kad::RoutingUpdate::Success => RoutingUpdate::Success,
        libp2p::kad::RoutingUpdate::Pending => RoutingUpdate::Pending,
        libp2p::kad::RoutingUpdate::Failed => RoutingUpdate::Failed,
    }
}

/// `kad::Behaviour::get_providers`: starts a query for the providers of the
/// record key made of the UTF-8 bytes of `key`; the query runs under the id
/// returned.
#[verifier::external_body]
fn kad_get_providers(kademlia: &mut libp2p::kad::Behaviour<libp2p::kad::store::MemoryStore>, key: String) -> (r: QueryId)
    ensures
        kad_query_keys(*final(kademlia)) == kad_query_keys(*old(kademlia)).insert(
            r,
            vstd::utf8::encode_utf8(key@),
        ),
{
    kademlia.get_providers(key.into_bytes().into())
}

/// `kad::Behaviour::start_providing`: records this node as a provider of the
/// record key made of the UTF-8 bytes of `key` and starts the query that
/// announces it, under the id returned; the error of the record store is given
/// as its text. The store refuses exactly where it holds provider records for
/// as many keys as it may and none for this key; where it takes the key, it
/// holds records for it afterwards (whether this node's own record stays among
/// them depends on the other providers it holds, so that is not stated).
#[verifier::external_body]
fn kad_start_providing(kademlia: &mut libp2p::kad::Behaviour<libp2p::kad::store::MemoryStore>, key: String) -> (r: Result<
    QueryId,
    String,
>)
    ensures
        r matches Ok(id) ==> kad_query_keys(*final(kademlia)) == kad_query_keys(*old(kademlia)).insert(
            id,
            vstd::utf8::encode_utf8(key@),
        ),
        r is Err ==> kad_query_keys(*final(kademlia)) == kad_query_keys(*old(kademlia)),
        r is Err <==> !kad_provider_keys(*old(kademlia)).contains(vstd::utf8::encode_utf8(key@))
            && kad_provider_keys(*old(kademlia)).len() == kad_max_provided_keys(*old(kademlia)),
        r is Ok ==> kad_provider_keys(*final(kademlia)).contains(vstd::utf8::encode_utf8(key@)),
{
    match kademlia.start_providing(key.into_bytes().into()) {
        Ok(id) => Ok(id),
        Err(e) => Err(e.to_string()),
    }
}

/// `kad::Behaviour::bootstrap`: starts a bootstrap query; the error (no known
/// peers) is given as its text. It starts where the routing table holds an
/// entry; where it holds none, it starts only if a waiting peer's time to take
/// a place has come. No query for a record key is started or finished.
#[verifier::external_body]
fn kad_bootstrap(kademlia: &mut libp2p::kad::Behaviour<libp2p::kad::store::MemoryStore>) -> (r: Result<QueryId, String>)
    ensures
        kad_query_keys(*final(kademlia)) == kad_query_keys(*old(kademlia)),
        (exists|p: Seq<u8>| #[trigger] kad_routing_entries(*old(kademlia)).contains_key(p)) ==> r is Ok,
        r is Ok ==> kad_knows_a_peer(*old(kademlia)),
{
    match kademlia.bootstrap() {
        Ok(id) => Ok(id),
        Err(e) => Err(e.to_string()),
    }
}

/// `kad::Behaviour::query_mut` followed by `kad::QueryMut::finish`: where a
/// query with id `id` is running (in the behaviour's pool and not finished),
/// it is finished and `true` is returned; otherwise nothing changes and
/// `false` is returned. A finished query makes no more requests and is
/// reported and dropped at the next poll. The two calls stand together here
/// because the running query is handed out as a borrow of the behaviour.
#[verifier::external_body]
fn kad_finish_query(kademlia: &mut libp2p::kad::Behaviour<libp2p::kad::store::MemoryStore>, id: &QueryId) -> (r: bool)
    ensures
        kad_query_keys(*old(kademlia)).contains_key(*id) ==> r,
        kad_query_keys(*final(kademlia)) == kad_query_keys(*old(kademlia)).remove(*id),
{
    match kademlia.query_mut(id) {
        Some(mut query) => {
            query.finish();
            true
        },
        None => false,
    }
}

/// The network configuration: how long an idle connection stays open, in
/// seconds, and the address to listen on.
#[derive(Debug)]
pub struct NetworkConfig {
    pub idle_connection_timeout_secs: u64,
    pub client_address: String,
}

/// The default idle connection timeout, in seconds.
pub open spec fn default_idle_connection_timeout_secs() -> u64 {
    60
}

/// The default address to listen on: every interface, a port that the system picks.
pub open spec fn default_client_address() -> Seq<char> {
    "/ip4/0.0.0.0/tcp/0"@
}

impl NetworkConfig {
    /// The default configuration.
    pub fn new() -> (c: NetworkConfig)
        ensures
            c.idle_connection_timeout_secs == default_idle_connection_timeout_secs(),
            c.client_address@ == default_client_address(),
    {
        NetworkConfig {
            idle_connection_timeout_secs: 60,
            client_address: String::from_str("/ip4/0.0.0.0/tcp/0"),
        }
    }
}

/// The version of the protocol this node speaks.
pub open spec fn protocol_version() -> Seq<char> {
    "0.0.1"@
}

/// The version of the protocol this node speaks.
pub fn get_protocol_version() -> (v: String)
    ensures
        v@ == protocol_version(),
{
    String::from_str("0.0.1")
}

/// The name of the package request protocol: `/caf/` and the version.
pub fn get_protocol_name() -> (n: String)
    ensures
        n@ == "/caf/"@ + protocol_version(),
{
    let mut n = String::from_str("/caf/");
    n.append("0.0.1");
    n
}

/// What the network hands to the node: a request for a package from another
/// peer, with the channel to answer it on.
pub enum Event<Channel> {
    InboundRequest { request: PackageId, channel: Channel },
}

/// Where the answer to a dial goes: nothing, or the error's text.
pub type DialReply = Sender<Result<(), String>>;

/// Where the answer to a bootstrap goes: nothing, or the error's text.
pub type BootstrapReply = Sender<Result<(), String>>;

/// Where the confirmation of providing goes.
pub type ProvidingReply = Sender<()>;

/// Where the providers found go.
pub type ProvidersReply = Sender<HashSet<PeerId>>;

/// Where the package asked of another peer goes, or the error's text.
pub type PackageReply = Sender<Result<Package, String>>;

/// An answer that could not be delivered: the one waiting for it is gone.
#[derive(Debug)]
pub struct Undelivered;

/// What came of a report of providers found.
#[derive(Debug)]
pub enum ProvidersOutcome {
    /// No one waits for this query.
    NotPending,
    /// The providers were delivered and the query finished.
    Delivered,
    /// The one that waited is gone.
    Undelivered,
    /// The providers were delivered but no such query was running.
    QueryMissing,
}

/// The requests of the event loop that wait for an answer, as values: dials
/// by the bytes of the peer's id, queries and requests by their ids.
pub struct PendingRequestsView {
    pub dial: Map<Seq<u8>, DialReply>,
    pub bootstrap: Map<QueryId, BootstrapReply>,
    pub start_providing: Map<QueryId, ProvidingReply>,
    pub get_providers: Map<QueryId, ProvidersReply>,
    pub request_package: Map<OutboundRequestId, PackageReply>,
}

/// The requests of the event loop that wait for an answer from the network,
/// each kind under its own key.
pub struct PendingRequests {
    dial: PendingTable<PeerKey, DialReply>,
    bootstrap: PendingTable<QueryId, BootstrapReply>,
    start_providing: PendingTable<QueryId, ProvidingReply>,
    get_providers: PendingTable<QueryId, ProvidersReply>,
    request_package: PendingTable<OutboundRequestId, PackageReply>,
}

impl View for PendingRequests {
    type V = PendingRequestsView;

    closed spec fn view(&self) -> PendingRequestsView {
        PendingRequestsView {
            dial: self.dial@,
            bootstrap: self.bootstrap@,
            start_providing: self.start_providing@,
            get_providers: self.get_providers@,
            request_package: self.request_package@,
        }
    }
}

impl PendingRequests {
    /// Nothing waits yet.
    pub fn new() -> (p: PendingRequests)
        ensures
            p@.dial == Map::<Seq<u8>, DialReply>::empty(),
            p@.bootstrap == Map::<QueryId, BootstrapReply>::empty(),
            p@.start_providing == Map::<QueryId, ProvidingReply>::empty(),
            p@.get_providers == Map::<QueryId, ProvidersReply>::empty(),
            p@.request_package == Map::<OutboundRequestId, PackageReply>::empty(),
    {
        PendingRequests {
            dial: PendingTable::new(),
            bootstrap: PendingTable::new(),
            start_providing: PendingTable::new(),
            get_providers: PendingTable::new(),
            request_package: PendingTable::new(),
        }
    }

    /// Whether a dial of `peer_id` waits for its connection.
    pub fn is_dialing(&self, peer_id: &PeerId) -> (r: bool)
        ensures
            r == self@.dial.dom().contains(peer_id_bytes(*peer_id)),
    {
        self.dial.contains_key(&PeerKey::of(peer_id))
    }

    /// Whether a query to announce this node as a provider waits under `id`.
    pub fn is_start_providing_pending(&self, id: &QueryId) -> (r: bool)
        ensures
            r == self@.start_providing.dom().contains(*id),
    {
        self.start_providing.contains_key(id)
    }

    /// Whether a package request waits under `id`.
    pub fn is_package_request_pending(&self, id: &OutboundRequestId) -> (r: bool)
        ensures
            r == self@.request_package.dom().contains(*id),
    {
        self.request_package.contains_key(id)
    }

    /// The first half of a dial of `peer_id` at `peer_addr`. Where a dial of
    /// that peer waits, nothing is done (the routing table is left as it was)
    /// and `None` says the new dial is to be dropped. Otherwise the address
    /// is handed to the routing table for the peer, and what it reported is
    /// returned: the peer is to be dialed.
    pub fn prepare_dial(
        &self,
        kademlia: &mut libp2p::kad::Behaviour<libp2p::kad::store::MemoryStore>,
        peer_id: &PeerId,
        peer_addr: &Multiaddr,
    ) -> (r: Option<RoutingUpdate>)
        ensures
            r is None <==> self@.dial.dom().contains(peer_id_bytes(*peer_id)),
            r is None ==> *final(kademlia) == *old(kademlia),
            r matches Some(u) ==> address_handed(*final(kademlia), *peer_id, *peer_addr, u),
            kad_query_keys(*final(kademlia)) == kad_query_keys(*old(kademlia)),
    {
        if self.is_dialing(peer_id) {
            None
        } else {
            Some(kad_add_address(kademlia, peer_id, peer_addr))
        }
    }

    /// The second half of a dial of `peer_id`: where the dial was started,
    /// `sender` waits for the connection and nothing is sent yet; where it was
    /// refused, `sender` is sent the error at once, and an error is returned
    /// where that answer cannot be delivered.
    pub fn dial_started(
        &mut self,
        peer_id: PeerId,
        sender: DialReply,
        started: Result<(), String>,
    ) -> (r: Result<(), Undelivered>)
        ensures
            started is Ok ==> r is Ok && final(self)@ == (PendingRequestsView {
                dial: old(self)@.dial.insert(peer_id_bytes(peer_id), sender),
                ..old(self)@
            }),
            started is Err ==> final(self)@ == old(self)@,
            started is Err && r is Ok ==> result_reply_sent(sender) == seq![
                Err::<(), Seq<char>>(started->Err_0@),
            ],
            started is Err && r is Err ==> result_reply_sent(sender) == Seq::<
                Result<(), Seq<char>>,
            >::empty(),
    {
        match started {
            Ok(()) => {
                self.dial.insert(PeerKey::of(&peer_id), sender);
                Ok(())
            },
            Err(e) => deliver(send_result_reply(sender, Err(e))),
        }
    }

    /// Looks for the providers of `package_name`: a query for the record key
    /// made of its bytes is started, and `sender` waits for the providers
    /// under the query's id, which is returned.
    pub fn start_get_providers(
        &mut self,
        kademlia: &mut libp2p::kad::Behaviour<libp2p::kad::store::MemoryStore>,
        package_name: String,
        sender: ProvidersReply,
    ) -> (id: QueryId)
        ensures
            final(self)@ == (PendingRequestsView {
                get_providers: old(self)@.get_providers.insert(id, sender),
                ..old(self)@
            }),
            kad_query_keys(*final(kademlia)) == kad_query_keys(*old(kademlia)).insert(
                id,
                vstd::utf8::encode_utf8(package_name@),
            ),
    {
        let id = kad_get_providers(kademlia, package_name);
        self.get_providers.insert(id, sender);
        id
    }

    /// Announces this node as a provider of `package_name`: the record key
    /// made of its bytes goes to the record store, and the announcing query
    /// starts; `sender` waits for the confirmation under the query's id, which
    /// is returned. Whether the record store takes the record depends on what
    /// it holds already; where it refuses, nothing waits and the store's error
    /// is returned (see `providing_started`).
    pub fn start_providing(
        &mut self,
        kademlia: &mut libp2p::kad::Behaviour<libp2p::kad::store::MemoryStore>,
        package_name: String,
        sender: ProvidingReply,
    ) -> (r: Result<QueryId, String>)
        ensures
            r matches Ok(id) ==> final(self)@ == (PendingRequestsView {
                start_providing: old(self)@.start_providing.insert(id, sender),
                ..old(self)@
            }),
            r matches Ok(id) ==> kad_query_keys(*final(kademlia)) == kad_query_keys(
                *old(kademlia),
            ).insert(
                id,
                vstd::utf8::encode_utf8(package_name@),
            ),
            r is Err ==> final(self)@ == old(self)@,
            r is Err ==> kad_query_keys(*final(kademlia)) == kad_query_keys(*old(kademlia)),
            r is Err <==> !kad_provider_keys(*old(kademlia)).contains(
                vstd::utf8::encode_utf8(package_name@),
            ) && kad_provider_keys(*old(kademlia)).len() == kad_max_provided_keys(*old(kademlia)),
            r is Ok ==> kad_provider_keys(*final(kademlia)).contains(
                vstd::utf8::encode_utf8(package_name@),
            ),
    {
        let started = kad_start_providing(kademlia, package_name);
        self.providing_started(started, sender)
    }

    /// What came of announcing this node as a provider: where the query was
    /// started under an id, `sender` waits under it and the id is returned;
    /// where the store refused, nothing waits and its error is returned.
    pub fn providing_started(
        &mut self,
        started: Result<QueryId, String>,
        sender: ProvidingReply,
    ) -> (r: Result<QueryId, String>)
        ensures
            r == started,
            started matches Ok(id) ==> final(self)@ == (PendingRequestsView {
                start_providing: old(self)@.start_providing.insert(id, sender),
                ..old(self)@
            }),
            started is Err ==> final(self)@ == old(self)@,
    {
        match started {
            Ok(id) => {
                self.start_providing.insert(id, sender);
                Ok(id)
            },
            Err(e) => Err(e),
        }
    }

    /// Starts a bootstrap; `sender` waits for its end under the id of the
    /// query, which is returned. Whether it can start depends on the routing
    /// table; where no peer is known, nothing waits and the error is returned
    /// (see `bootstrap_started`).
    pub fn start_bootstrap(
        &mut self,
        kademlia: &mut libp2p::kad::Behaviour<libp2p::kad::store::MemoryStore>,
        sender: BootstrapReply,
    ) -> (r: Result<QueryId, String>)
        ensures
            r matches Ok(id) ==> final(self)@ == (PendingRequestsView {
                bootstrap: old(self)@.bootstrap.insert(id, sender),
                ..old(self)@
            }),
            r is Err ==> final(self)@ == old(self)@,
            kad_query_keys(*final(kademlia)) == kad_query_keys(*old(kademlia)),
            (exists|p: Seq<u8>| #[trigger] kad_routing_entries(*old(kademlia)).contains_key(p))
                ==> r is Ok,
            r is Ok ==> kad_knows_a_peer(*old(kademlia)),
    {
        let started = kad_bootstrap(kademlia);
        self.bootstrap_started(started, sender)
    }

    /// What came of starting a bootstrap: where the query was started under
    /// an id, `sender` waits under it and the id is returned; where it could
    /// not start, nothing waits and the error is returned.
    pub fn bootstrap_started(
        &mut self,
        started: Result<QueryId, String>,
        sender: BootstrapReply,
    ) -> (r: Result<QueryId, String>)
        ensures
            r == started,
            started matches Ok(id) ==> final(self)@ == (PendingRequestsView {
                bootstrap: old(self)@.bootstrap.insert(id, sender),
                ..old(self)@
            }),
            started is Err ==> final(self)@ == old(self)@,
    {
        match started {
            Ok(id) => {
                self.bootstrap.insert(id, sender);
                Ok(id)
            },
            Err(e) => Err(e),
        }
    }

    /// A package request was sent under `id`; `sender` waits for the answer.
    pub fn package_request_sent(&mut self, id: OutboundRequestId, sender: PackageReply)
        ensures
            final(self)@ == (PendingRequestsView {
                request_package: old(self)@.request_package.insert(id, sender),
                ..old(self)@
            }),
    {
        self.request_package.insert(id, sender);
    }

    /// A connection to `peer_id` was established. Where this node dialed it
    /// and a dial of that peer waits, the dial is answered with success and
    /// no longer waits; an error is returned where that answer cannot be
    /// delivered. Otherwise nothing changes.
    pub fn connection_established(&mut self, peer_id: &PeerId, is_dialer: bool) -> (r: Result<
        (),
        Undelivered,
    >)
        ensures
            ({
                let key = peer_id_bytes(*peer_id);
                &&& is_dialer && old(self)@.dial.dom().contains(key) ==> {
                    &&& final(self)@ == (PendingRequestsView {
                        dial: old(self)@.dial.remove(key),
                        ..old(self)@
                    })
                    &&& r is Ok ==> result_reply_sent(old(self)@.dial[key]) == seq![
                        Ok::<(), Seq<char>>(()),
                    ]
                    &&& r is Err ==> result_reply_sent(old(self)@.dial[key]) == Seq::<
                        Result<(), Seq<char>>,
                    >::empty()
                }
                &&& !(is_dialer && old(self)@.dial.dom().contains(key)) ==> final(self)@ == old(
                    self,
                )@ && r is Ok
            }),
    {
        if is_dialer {
            match self.dial.remove(&PeerKey::of(peer_id)) {
                Some(sender) => deliver(send_result_reply(sender, Ok(()))),
                None => {
                    assert(self.dial@ =~= old(self).dial@);
                    Ok(())
                },
            }
        } else {
            Ok(())
        }
    }

    /// A connection to a peer could not be established. Where the peer is
    /// known and a dial of it waits, the dial is answered with the error and
    /// no longer waits; an error is returned where that answer cannot be
    /// delivered. Otherwise nothing changes.
    pub fn outgoing_connection_error(&mut self, peer_id: Option<PeerId>, error: String) -> (r:
        Result<(), Undelivered>)
        ensures
            ({
                let key = peer_id_bytes(peer_id->Some_0);
                &&& peer_id is Some && old(self)@.dial.dom().contains(key) ==> {
                    &&& final(self)@ == (PendingRequestsView {
                        dial: old(self)@.dial.remove(key),
                        ..old(self)@
                    })
                    &&& r is Ok ==> result_reply_sent(old(self)@.dial[key]) == seq![
                        Err::<(), Seq<char>>(error@),
                    ]
                    &&& r is Err ==> result_reply_sent(old(self)@.dial[key]) == Seq::<
                        Result<(), Seq<char>>,
                    >::empty()
                }
                &&& !(peer_id is Some && old(self)@.dial.dom().contains(key)) ==> final(self)@
                    == old(self)@ && r is Ok
            }),
    {
        match peer_id {
            Some(p) => match self.dial.remove(&PeerKey::of(&p)) {
                Some(sender) => deliver(send_result_reply(sender, Err(error))),
                None => {
                    assert(self.dial@ =~= old(self).dial@);
                    Ok(())
                },
            },
            None => Ok(()),
        }
    }

    /// The query under `id` that announced this node as a provider ended; the
    /// one that waits for it is sent the confirmation and no longer waits. An
    /// error is returned where that answer cannot be delivered.
    pub fn start_providing_done(&mut self, id: &QueryId) -> (r: Result<(), Undelivered>)
        requires
            old(self)@.start_providing.dom().contains(*id),
        ensures
            final(self)@ == (PendingRequestsView {
                start_providing: old(self)@.start_providing.remove(*id),
                ..old(self)@
            }),
            r is Ok ==> providing_reply_sent(old(self)@.start_providing[*id]) == seq![()],
            r is Err ==> providing_reply_sent(old(self)@.start_providing[*id]) == Seq::<
                (),
            >::empty(),
    {
        match self.start_providing.remove(id) {
            Some(sender) => deliver(send_providing_reply(sender)),
            None => Ok(()),
        }
    }

    /// The query under `id` found `providers`. Where someone waits for it,
    /// the providers are sent to it, it no longer waits, and, once they were
    /// delivered, the query is finished: only its first result is wanted.
    pub fn providers_found(
        &mut self,
        kademlia: &mut libp2p::kad::Behaviour<libp2p::kad::store::MemoryStore>,
        id: &QueryId,
        providers: HashSet<PeerId>,
    ) -> (r: ProvidersOutcome)
        ensures
            old(self)@.get_providers.dom().contains(*id) ==> final(self)@ == (PendingRequestsView {
                get_providers: old(self)@.get_providers.remove(*id),
                ..old(self)@
            }),
            !old(self)@.get_providers.dom().contains(*id) ==> final(self)@ == old(self)@
                && r is NotPending,
            r is NotPending ==> !old(self)@.get_providers.dom().contains(*id),
            r is Delivered || r is QueryMissing ==> providers_reply_sent(
                old(self)@.get_providers[*id],
            ) == seq![providers],
            r is Delivered || r is QueryMissing ==> kad_query_keys(*final(kademlia))
                == kad_query_keys(*old(kademlia)).remove(*id),
            r is QueryMissing ==> !kad_query_keys(*old(kademlia)).contains_key(*id),
            r is Undelivered ==> providers_reply_sent(old(self)@.get_providers[*id]) == Seq::<
                HashSet<PeerId>,
            >::empty(),
            r is NotPending || r is Undelivered ==> *final(kademlia) == *old(kademlia),
    {
        match self.get_providers.remove(id) {
            None => {
                assert(self.get_providers@ =~= old(self).get_providers@);
                ProvidersOutcome::NotPending
            },
            Some(sender) => match send_providers_reply(sender, providers) {
                Err(_) => ProvidersOutcome::Undelivered,
                Ok(()) => {
                    if kad_finish_query(kademlia, id) {
                        ProvidersOutcome::Delivered
                    } else {
                        ProvidersOutcome::QueryMissing
                    }
                },
            },
        }
    }

    /// The bootstrap query under `id` succeeded. Where someone waits for it,
    /// it is sent success and no longer waits; an error is returned where that
    /// answer cannot be delivered.
    pub fn bootstrap_done(&mut self, id: &QueryId) -> (r: Result<(), Undelivered>)
        ensures
            old(self)@.bootstrap.dom().contains(*id) ==> final(self)@ == (PendingRequestsView {
                bootstrap: old(self)@.bootstrap.remove(*id),
                ..old(self)@
            }),
            old(self)@.bootstrap.dom().contains(*id) && r is Ok ==> result_reply_sent(
                old(self)@.bootstrap[*id],
            ) == seq![Ok::<(), Seq<char>>(())],
            r is Err ==> old(self)@.bootstrap.dom().contains(*id) && result_reply_sent(
                old(self)@.bootstrap[*id],
            ) == Seq::<Result<(), Seq<char>>>::empty(),
            !old(self)@.bootstrap.dom().contains(*id) ==> final(self)@ == old(self)@ && r is Ok,
    {
        match self.bootstrap.remove(id) {
            Some(sender) => deliver(send_result_reply(sender, Ok(()))),
            None => {
                assert(self.bootstrap@ =~= old(self).bootstrap@);
                Ok(())
            },
        }
    }

    /// The package asked for under `id` arrived; the one that waits for it is
    /// sent it and no longer waits. An error is returned where it cannot be
    /// delivered.
    pub fn package_received(&mut self, id: &OutboundRequestId, package: Package) -> (r: Result<
        (),
        Undelivered,
    >)
        requires
            old(self)@.request_package.dom().contains(*id),
        ensures
            final(self)@ == (PendingRequestsView {
                request_package: old(self)@.request_package.remove(*id),
                ..old(self)@
            }),
            r is Ok ==> package_reply_sent(old(self)@.request_package[*id]) == seq![
                Ok::<PackageView, Seq<char>>(package@),
            ],
            r is Err ==> package_reply_sent(old(self)@.request_package[*id]) == Seq::<
                Result<PackageView, Seq<char>>,
            >::empty(),
    {
        match self.request_package.remove(id) {
            Some(sender) => deliver(send_package_reply(sender, Ok(package))),
            None => Ok(()),
        }
    }

    /// The package request under `id` failed with `error`; the one that waits
    /// for it is sent the error and no longer waits. An error is returned
    /// where it cannot be delivered.
    pub fn package_request_failed(&mut self, id: &OutboundRequestId, error: String) -> (r: Result<
        (),
        Undelivered,
    >)
        requires
            old(self)@.request_package.dom().contains(*id),
        ensures
            final(self)@ == (PendingRequestsView {
                request_package: old(self)@.request_package.remove(*id),
                ..old(self)@
            }),
            r is Ok ==> package_reply_sent(old(self)@.request_package[*id]) == seq![
                Err::<PackageView, Seq<char>>(error@),
            ],
            r is Err ==> package_reply_sent(old(self)@.request_package[*id]) == Seq::<
                Result<PackageView, Seq<char>>,
            >::empty(),
    {
        match self.request_package.remove(id) {
            Some(sender) => deliver(send_package_reply(sender, Err(error))),
            None => Ok(()),
        }
    }
}

/// Whether an answer reached the one that waited for it.
fn deliver<T>(sent: Result<(), T>) -> (r: Result<(), Undelivered>)
    ensures
        r is Ok <==> sent is Ok,
{
    match sent {
        Ok(()) => Ok(()),
        Err(_) => Err(Undelivered),
    }
}

/// The routing tables `states` are those that handing `addresses` one by one
/// to the routing table for `peer` went through, from the first to the last,
/// and `updates` what it reported of each.
pub open spec fn addresses_handed(
    states: Seq<libp2p::kad::Behaviour<libp2p::kad::store::MemoryStore>>,
    peer: PeerId,
    addresses: Seq<Multiaddr>,
    updates: Seq<RoutingUpdate>,
) -> bool {
    &&& states.len() == addresses.len() + 1
    &&& updates.len() == addresses.len()
    &&& forall|i: int|
        0 <= i < addresses.len() ==> #[trigger] address_handed(
            states[i + 1],
            peer,
            addresses[i],
            updates[i],
        )
    &&& forall|i: int|
        0 <= i < addresses.len() ==> kad_query_keys(#[trigger] states[i + 1]) == kad_query_keys(
            states[i],
        )
}

/// Hands every address that `peer_id` reported listening on to the routing
/// table, in order, and returns what the table reported of each: the routing
/// table went through states, from the one before to the one after, in each of
/// which what became of one address holds (see `address_handed`). No query for
/// a record key is started or finished.
pub fn add_identified_addresses(
    kademlia: &mut libp2p::kad::Behaviour<libp2p::kad::store::MemoryStore>,
    peer_id: &PeerId,
    listen_addrs: &Vec<Multiaddr>,
) -> (updates: Vec<RoutingUpdate>)
    ensures
        exists|states: Seq<libp2p::kad::Behaviour<libp2p::kad::store::MemoryStore>>|
            #[trigger] addresses_handed(states, *peer_id, listen_addrs@, updates@)
                && states[0] == *old(kademlia) && states.last() == *final(kademlia),
        kad_query_keys(*final(kademlia)) == kad_query_keys(*old(kademlia)),
{
    let mut updates: Vec<RoutingUpdate> = Vec::new();
    let ghost mut states: Seq<libp2p::kad::Behaviour<libp2p::kad::store::MemoryStore>> = seq![
        *kademlia,
    ];
    let mut i: usize = 0;
    while i < listen_addrs.len()
        invariant
            i <= listen_addrs@.len(),
            addresses_handed(states, *peer_id, listen_addrs@.take(i as int), updates@),
            states[0] == *old(kademlia),
            states.last() == *kademlia,
            kad_query_keys(*kademlia) == kad_query_keys(*old(kademlia)),
        decreases listen_addrs@.len() - i,
    {
        let u = kad_add_address(kademlia, peer_id, &listen_addrs[i]);
        updates.push(u);
        proof {
            let prev = states;
            states = states.push(*kademlia);
            let addrs = listen_addrs@.take(i + 1);
            assert(addrs.len() == i + 1);
            assert forall|k: int| 0 <= k < addrs.len() implies #[trigger] address_handed(
                states[k + 1],
                *peer_id,
                addrs[k],
                updates@[k],
            ) by {
                if k < i {
                    assert(addrs[k] == listen_addrs@.take(i as int)[k]);
                    assert(address_handed(prev[k + 1], *peer_id, listen_addrs@.take(i as int)[k], updates@[k]));
                }
            }
            assert forall|k: int| 0 <= k < addrs.len() implies kad_query_keys(
                #[trigger] states[k + 1],
            ) == kad_query_keys(states[k]) by {
                if k < i {
                    assert(kad_query_keys(prev[k + 1]) == kad_query_keys(prev[k]));
                }
            }
        }
        i = i + 1;
    }
    assert(listen_addrs@.take(listen_addrs@.len() as int) =~= listen_addrs@);
    updates
}

} // verus!
