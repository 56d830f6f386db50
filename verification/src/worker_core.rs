//! The worker core: the registry of known peers and how each event from the
//! worker's sessions changes it.
use vstd::prelude::*;
use crate::crypto::generate_secret_key;
use crate::protocol::{
    NodeToNode, NodeToNodeView, PeerAddr, PeerInfoMessage, PeerInfoView, SupervisorEventView,
    WireMessage, WireView, WorkerEvent, WorkerEventView, copy_bytes, copy_opt_bytes, opt_bytes,
    peers_view,
};
use crate::registry::{
    Registry, distinct_keys, has_key, key_index, lemma_lookup_empty, lemma_upserted, lookup,
    upserted,
};
use crate::supervisor_core::{
    WorkerInfoView, lemma_admission, lemma_peer_snapshot, peer_snapshot, supervisor_step,
};

verus! {

/// What a worker keeps of a peer. `connected` tells whether a writer channel
/// to the peer is open; the channel itself stays with the session runner.
#[derive(Clone, Debug, PartialEq, Eq)]
pub struct PeerInfo {
    pub node_id: String,
    pub addr: PeerAddr,
    pub pub_key: Vec<u8>,
    pub signature: Option<Vec<u8>>,
    pub connected: bool,
}

pub struct PeerRecord {
    pub node_id: Seq<char>,
    pub addr: PeerAddr,
    pub pub_key: Seq<u8>,
    pub signature: Option<Seq<u8>>,
    pub connected: bool,
}

impl View for PeerInfo {
    type V = PeerRecord;

    open spec fn view(&self) -> PeerRecord {
        PeerRecord {
            node_id: self.node_id@,
            addr: self.addr,
            pub_key: self.pub_key@,
            signature: opt_bytes(self.signature),
            connected: self.connected,
        }
    }
}

/// The record of a peer that the supervisor announced: no channel yet.
pub open spec fn record_of(p: PeerInfoView) -> PeerRecord {
    PeerRecord {
        node_id: p.node_id,
        addr: p.addr,
        pub_key: p.pub_key,
        signature: Some(p.signature),
        connected: false,
    }
}

impl PeerInfo {
    /// The record of a peer announced by the supervisor.
    pub fn new(msg: PeerInfoMessage) -> (r: PeerInfo)
        ensures
            r@ == record_of(msg@),
    {
        PeerInfo {
            node_id: msg.node_id,
            addr: msg.addr,
            pub_key: msg.pub_key,
            signature: Some(msg.signature),
            connected: false,
        }
    }
}

/// The peers a worker knows, by node id.
pub type PeerRegistry = Registry<PeerInfo>;

/// `peers` with `id` added at the end, unless `id` is known already.
pub open spec fn added_if_absent(
    peers: Seq<(Seq<char>, PeerRecord)>,
    id: Seq<char>,
    r: PeerRecord,
) -> Seq<(Seq<char>, PeerRecord)> {
    if has_key(peers, id) {
        peers
    } else {
        peers.push((id, r))
    }
}

/// `peers` after a welcome that lists `listed`: each listed peer not yet
/// known is added, in the order of the list; known peers are left as they are.
pub open spec fn merged_welcome(
    peers: Seq<(Seq<char>, PeerRecord)>,
    listed: Seq<PeerInfoView>,
) -> Seq<(Seq<char>, PeerRecord)>
    decreases listed.len(),
{
    if listed.len() == 0 {
        peers
    } else {
        added_if_absent(
            merged_welcome(peers, listed.drop_last()),
            listed.last().node_id,
            record_of(listed.last()),
        )
    }
}

/// What the worker loop does after an event.
#[derive(Clone, Debug, PartialEq, Eq)]
pub enum CoreStep {
    /// Nothing more to do.
    Continue,
    /// A greeting peer is registered: answer its session that it is admitted.
    Admitted { node_id: String },
    /// A peer announced by the supervisor is new: report it.
    PeerAdded { node_id: String },
    /// A peer sent a message: report it.
    PeerMessage { message: String },
    /// The supervisor shut down: report the reason and stop.
    Shutdown { reason: String },
}

pub enum CoreStepView {
    Continue,
    Admitted { node_id: Seq<char> },
    PeerAdded { node_id: Seq<char> },
    PeerMessage { message: Seq<char> },
    Shutdown { reason: Seq<char> },
}

impl View for CoreStep {
    type V = CoreStepView;

    open spec fn view(&self) -> CoreStepView {
        match self {
            CoreStep::Continue => CoreStepView::Continue,
            CoreStep::Admitted { node_id } => CoreStepView::Admitted { node_id: node_id@ },
            CoreStep::PeerAdded { node_id } => CoreStepView::PeerAdded { node_id: node_id@ },
            CoreStep::PeerMessage { message } => CoreStepView::PeerMessage { message: message@ },
            CoreStep::Shutdown { reason } => CoreStepView::Shutdown { reason: reason@ },
        }
    }
}

/// The peer registry after an event, and what the worker loop does next.
pub open spec fn worker_step(peers: Seq<(Seq<char>, PeerRecord)>, event: WorkerEventView) -> (
    Seq<(Seq<char>, PeerRecord)>,
    CoreStepView,
) {
    match event {
        WorkerEventView::SupervisorWelcome { peers: listed, .. } => (
            merged_welcome(peers, listed),
            CoreStepView::Continue,
        ),
        WorkerEventView::PeerHelloReceived { node_id, addr, pub_key, signature } => {
            if has_key(peers, node_id) {
                let i = key_index(peers, node_id);
                let r = peers[i].1;
                (
                    peers.update(i, (node_id, PeerRecord { connected: true, ..r })),
                    CoreStepView::Admitted { node_id },
                )
            } else {
                (
                    peers.push(
                        (node_id, PeerRecord { node_id, addr, pub_key, signature, connected: true }),
                    ),
                    CoreStepView::Admitted { node_id },
                )
            }
        },
        WorkerEventView::NewPeer { peer } => {
            if has_key(peers, peer.node_id) {
                (peers, CoreStepView::Continue)
            } else {
                (
                    peers.push((peer.node_id, record_of(peer))),
                    CoreStepView::PeerAdded { node_id: peer.node_id },
                )
            }
        },
        WorkerEventView::SupervisorShutdown { reason } => (
            peers,
            CoreStepView::Shutdown { reason },
        ),
        WorkerEventView::MessageFromPeer { message } => (
            peers,
            CoreStepView::PeerMessage { message },
        ),
    }
}

/// Registers every peer of a welcome that is not known yet, in the order of
/// the list.
pub fn merge_welcome_peers(peers: &mut PeerRegistry, listed: Vec<PeerInfoMessage>)
    requires
        old(peers).wf(),
    ensures
        final(peers).wf(),
        final(peers)@ == merged_welcome(old(peers)@, peers_view(listed@)),
{
    let n = listed.len();
    let mut j: usize = 0;
    assert(peers_view(listed@).subrange(0, 0) =~= Seq::<PeerInfoView>::empty());
    while j < n
        invariant
            n == listed@.len(),
            j <= n,
            peers.wf(),
            peers@ == merged_welcome(old(peers)@, peers_view(listed@).subrange(0, j as int)),
        decreases n - j,
    {
        let ghost prefix = peers_view(listed@).subrange(0, j + 1);
        assert(prefix.drop_last() =~= peers_view(listed@).subrange(0, j as int));
        assert(prefix.last() == listed@[j as int]@);
        let p = &listed[j];
        if !peers.contains_key(&p.node_id) {
            let rec = PeerInfo::new(p.duplicate());
            peers.insert(p.node_id.clone(), rec);
        }
        j = j + 1;
    }
    assert(peers_view(listed@).subrange(0, n as int) =~= peers_view(listed@));
}

/// Applies one event to the peer registry: a welcome adds the listed peers
/// not yet known; a greeting peer gets its channel (and is registered if it
/// was not known) and is admitted; a peer announced by the supervisor is
/// added unless known; a shutdown stops the worker; a peer's message is
/// reported.
pub fn run_core_step(peers: &mut PeerRegistry, event: WorkerEvent) -> (step: CoreStep)
    requires
        old(peers).wf(),
    ensures
        final(peers).wf(),
        (final(peers)@, step@) == worker_step(old(peers)@, event@),
{
    match event {
        WorkerEvent::SupervisorWelcome { peers: listed, .. } => {
            merge_welcome_peers(peers, listed);
            CoreStep::Continue
        },
        WorkerEvent::PeerHelloReceived { node_id, addr, pub_key, signature } => {
            match peers.find(&node_id) {
                Some(i) => {
                    let cur = peers.value_at(i);
                    let updated = PeerInfo {
                        node_id: cur.node_id.clone(),
                        addr: cur.addr,
                        pub_key: copy_bytes(&cur.pub_key),
                        signature: copy_opt_bytes(&cur.signature),
                        connected: true,
                    };
                    peers.set_value_at(i, updated);
                },
                None => {
                    let rec = PeerInfo {
                        node_id: node_id.clone(),
                        addr,
                        pub_key,
                        signature,
                        connected: true,
                    };
                    peers.insert(node_id.clone(), rec);
                },
            }
            CoreStep::Admitted { node_id }
        },
        WorkerEvent::NewPeer { peer } => {
            if peers.contains_key(&peer.node_id) {
                CoreStep::Continue
            } else {
                let id = peer.node_id.clone();
                peers.insert(peer.node_id.clone(), PeerInfo::new(peer));
                CoreStep::PeerAdded { node_id: id }
            }
        },
        WorkerEvent::SupervisorShutdown { reason } => CoreStep::Shutdown { reason },
        WorkerEvent::MessageFromPeer { message } => CoreStep::PeerMessage { message },
    }
}

/// A worker's identity and the peers it knows.
pub struct WorkerState {
    pub id: String,
    pub signing_key: [u8; 32],
    pub peers: PeerRegistry,
}

impl WorkerState {
    /// A worker named `id`, with a freshly drawn signing key and no known peer;
    /// none when the random source fails.
    pub fn new(id: String) -> (r: Option<WorkerState>)
        ensures
            r matches Some(w) ==> w.id@ == id@ && w.peers.wf() && w.peers@ == Seq::<
                (Seq<char>, PeerRecord),
            >::empty(),
    {
        match generate_secret_key() {
            Some(signing_key) => Some(WorkerState { id, signing_key, peers: Registry::new() }),
            None => None,
        }
    }

    /// A worker with the given id and signing key and no known peer.
    pub fn with_key(id: String, signing_key: [u8; 32]) -> (w: WorkerState)
        ensures
            w.id@ == id@,
            w.signing_key@ == signing_key@,
            w.peers.wf(),
            w.peers@ == Seq::<(Seq<char>, PeerRecord)>::empty(),
    {
        WorkerState { id, signing_key, peers: Registry::new() }
    }
}

/// The record that a plain announcement (an id and an address) gives: no
/// key, no signature, no channel.
pub open spec fn announced_record(node_id: Seq<char>, addr: PeerAddr) -> PeerRecord {
    PeerRecord { node_id, addr, pub_key: Seq::empty(), signature: None, connected: false }
}

/// Files an announced peer under `addr_key`, the text of its address (a peer
/// filed under the same key is replaced).
pub fn register_peer(peers: &mut PeerRegistry, addr_key: String, node_id: String, addr: PeerAddr)
    requires
        old(peers).wf(),
    ensures
        final(peers).wf(),
        final(peers)@ == upserted(old(peers)@, addr_key@, announced_record(node_id@, addr)),
{
    let rec = PeerInfo { node_id, addr, pub_key: Vec::new(), signature: None, connected: false };
    assert(rec@ =~= announced_record(rec.node_id@, addr));
    peers.insert(addr_key, rec);
}

/// The join notice for a connection that arrives from the address whose
/// text is `addr_key`: the id, address and key of the peer filed under it,
/// unsigned; none when no peer is filed there (the connection is dropped).
pub fn join_message_for(peers: &PeerRegistry, addr_key: &String) -> (r: Option<WireMessage>)
    requires
        peers.wf(),
    ensures
        match lookup(peers@, addr_key@) {
            Some(p) => r matches Some(m) && m@ == WireView::NodeToNode(
                NodeToNodeView::JoinMessage {
                    id: p.node_id,
                    addr: p.addr,
                    pub_key: p.pub_key,
                    signature: Seq::empty(),
                },
            ),
            None => r is None,
        },
{
    match peers.get(addr_key) {
        Some(p) => {
            let m = WireMessage::NodeToNode(
                NodeToNode::JoinMessage {
                    id: p.node_id.clone(),
                    addr: p.addr,
                    pub_key: copy_bytes(&p.pub_key),
                    signature: Vec::new(),
                },
            );
            assert(m@ =~= WireView::NodeToNode(
                NodeToNodeView::JoinMessage {
                    id: p.node_id@,
                    addr: p.addr,
                    pub_key: p.pub_key@,
                    signature: Seq::empty(),
                },
            ));
            Some(m)
        },
        None => None,
    }
}

/// Adding a peer unless known keeps the ids distinct; a known id keeps its
/// record, and an unknown one gets the new record.
pub proof fn lemma_added_if_absent(
    peers: Seq<(Seq<char>, PeerRecord)>,
    id: Seq<char>,
    r: PeerRecord,
)
    requires
        distinct_keys(peers),
    ensures
        distinct_keys(added_if_absent(peers, id, r)),
        has_key(added_if_absent(peers, id, r), id),
        !has_key(peers, id) ==> lookup(added_if_absent(peers, id, r), id) == Some(r),
        forall|k: Seq<char>|
            k != id || has_key(peers, k) ==> #[trigger] lookup(added_if_absent(peers, id, r), k)
                == lookup(peers, k),
        forall|k: Seq<char>|
            #[trigger] has_key(added_if_absent(peers, id, r), k) ==> k == id || has_key(peers, k),
{
    if !has_key(peers, id) {
        lemma_upserted(peers, id, r);
        assert(upserted(peers, id, r) == added_if_absent(peers, id, r));
        assert forall|k: Seq<char>| #[trigger] has_key(added_if_absent(peers, id, r), k) implies k
            == id || has_key(peers, k) by {
            if k != id {
                assert(lookup(upserted(peers, id, r), k) == lookup(peers, k));
            }
        }
    }
}

/// A welcome keeps the record of every peer known before it; afterwards every
/// listed peer is known; a listed peer that was not known gets the record of
/// its first listing; and no peer that was neither known nor listed appears.
pub proof fn lemma_merged_welcome(peers: Seq<(Seq<char>, PeerRecord)>, listed: Seq<PeerInfoView>)
    requires
        distinct_keys(peers),
    ensures
        distinct_keys(merged_welcome(peers, listed)),
        forall|k: Seq<char>|
            has_key(peers, k) ==> #[trigger] lookup(merged_welcome(peers, listed), k) == lookup(
                peers,
                k,
            ),
        forall|i: int|
            0 <= i < listed.len() ==> has_key(
                merged_welcome(peers, listed),
                (#[trigger] listed[i]).node_id,
            ),
        forall|i: int|
            0 <= i < listed.len() && !has_key(peers, (#[trigger] listed[i]).node_id) && (forall|
                j: int,
            | 0 <= j < i ==> listed[j].node_id != listed[i].node_id) ==> lookup(
                merged_welcome(peers, listed),
                listed[i].node_id,
            ) == Some(record_of(listed[i])),
        forall|k: Seq<char>|
            #[trigger] has_key(merged_welcome(peers, listed), k) ==> has_key(peers, k) || exists|
                i: int,
            | 0 <= i < listed.len() && (#[trigger] listed[i]).node_id == k,
    decreases listed.len(),
{
    if listed.len() > 0 {
        let front = listed.drop_last();
        let last = listed.last();
        lemma_merged_welcome(peers, front);
        let m0 = merged_welcome(peers, front);
        let m = merged_welcome(peers, listed);
        lemma_added_if_absent(m0, last.node_id, record_of(last));
        assert(m == added_if_absent(m0, last.node_id, record_of(last)));
        assert forall|i: int| 0 <= i < front.len() implies #[trigger] listed[i] == front[i] by {}
        assert forall|i: int| 0 <= i < listed.len() implies has_key(
            m,
            (#[trigger] listed[i]).node_id,
        ) by {
            if i < front.len() {
                assert(listed[i] == front[i]);
                assert(has_key(m0, front[i].node_id));
                assert(lookup(m, front[i].node_id) == lookup(m0, front[i].node_id));
            }
        }
        assert forall|i: int|
            0 <= i < listed.len() && !has_key(peers, (#[trigger] listed[i]).node_id) && (forall|
                j: int,
            | 0 <= j < i ==> listed[j].node_id != listed[i].node_id) implies lookup(
            m,
            listed[i].node_id,
        ) == Some(record_of(listed[i])) by {
            if i < front.len() {
                assert(listed[i] == front[i]);
                assert forall|j: int| 0 <= j < i implies front[j].node_id != front[i].node_id by {
                    assert(listed[j] == front[j]);
                }
                assert(lookup(m0, front[i].node_id) == Some(record_of(front[i])));
                assert(has_key(m0, front[i].node_id));
            } else {
                assert(listed[i] == last);
                if has_key(m0, last.node_id) {
                    assert(!has_key(peers, last.node_id));
                    let j = choose|j: int| 0 <= j < front.len() && (#[trigger] front[j]).node_id
                        == last.node_id;
                    assert(listed[j] == front[j]);
                    assert(false);
                }
            }
        }
        assert forall|k: Seq<char>| #[trigger] has_key(m, k) implies has_key(peers, k) || exists|
            i: int,
        | 0 <= i < listed.len() && (#[trigger] listed[i]).node_id == k by {
            if k == last.node_id {
                assert(listed[listed.len() - 1].node_id == k);
            } else {
                assert(has_key(m0, k));
                if !has_key(peers, k) {
                    let i = choose|i: int| 0 <= i < front.len() && (#[trigger] front[i]).node_id == k;
                    assert(listed[i] == front[i]);
                }
            }
        }
    }
}

/// Peer discovery (README, step 2): when the supervisor admits a worker
/// and the worker, knowing no peer yet, takes in the welcome, the worker
/// knows exactly the other workers the supervisor had registered, each with
/// the address and key it registered with, the welcome's empty signature,
/// and no channel yet.
pub proof fn lemma_peer_discovery(
    supervisor_id: Seq<char>,
    secret: Seq<u8>,
    workers: Seq<(Seq<char>, WorkerInfoView)>,
    node_id: Seq<char>,
    addr: PeerAddr,
    pub_key: Seq<u8>,
    known: Seq<(Seq<char>, PeerRecord)>,
)
    requires
        distinct_keys(workers),
        known.len() == 0,
    ensures
        ({
            let (after, actions) = supervisor_step(
                supervisor_id,
                secret,
                workers,
                SupervisorEventView::Admit { node_id, addr, pub_key },
            );
            let peers = peer_snapshot(after, node_id);
            let (learned, step) = worker_step(
                known,
                WorkerEventView::SupervisorWelcome { supervisor_id, peers },
            );
            &&& step == CoreStepView::Continue
            &&& distinct_keys(learned)
            &&& forall|k: Seq<char>|
                #[trigger] has_key(learned, k) <==> (has_key(workers, k) && k != node_id)
            &&& forall|k: Seq<char>|
                #![trigger lookup(learned, k)]
                has_key(workers, k) && k != node_id ==> lookup(learned, k) == Some(
                    PeerRecord {
                        node_id: k,
                        addr: lookup(workers, k).unwrap().addr,
                        pub_key: lookup(workers, k).unwrap().pub_key,
                        signature: Some(Seq::empty()),
                        connected: false,
                    },
                )
        }),
{
    lemma_admission(supervisor_id, secret, workers, node_id, addr, pub_key);
    let after = upserted(workers, node_id, WorkerInfoView { addr, pub_key });
    let peers = peer_snapshot(after, node_id);
    lemma_peer_snapshot(after, node_id);
    lemma_merged_welcome(known, peers);
    let learned = merged_welcome(known, peers);
    assert forall|k: Seq<char>| !has_key(known, k) by {
        lemma_lookup_empty(known, k);
    }
    assert forall|k: Seq<char>| #[trigger] has_key(learned, k) <==> (has_key(workers, k) && k
        != node_id) by {
        if has_key(learned, k) {
            let i = choose|i: int| 0 <= i < peers.len() && (#[trigger] peers[i]).node_id == k;
            assert(lookup(workers, peers[i].node_id) is Some);
        }
        if has_key(workers, k) && k != node_id {
            let i = choose|i: int| 0 <= i < peers.len() && (#[trigger] peers[i]).node_id == k;
            assert(has_key(learned, peers[i].node_id));
        }
    }
    assert forall|k: Seq<char>| has_key(workers, k) && k != node_id implies #[trigger] lookup(
        learned,
        k,
    ) == Some(
        PeerRecord {
            node_id: k,
            addr: lookup(workers, k).unwrap().addr,
            pub_key: lookup(workers, k).unwrap().pub_key,
            signature: Some(Seq::empty()),
            connected: false,
        },
    ) by {
        let i = choose|i: int| 0 <= i < peers.len() && (#[trigger] peers[i]).node_id == k;
        assert forall|j: int| 0 <= j < i implies peers[j].node_id != peers[i].node_id by {}
        assert(lookup(learned, peers[i].node_id) == Some(record_of(peers[i])));
        assert(lookup(workers, peers[i].node_id) == Some(
            WorkerInfoView { addr: peers[i].addr, pub_key: peers[i].pub_key },
        ));
    }
}

/// An announced peer: if its id is known, nothing changes; otherwise it is
/// added with no channel and reported. No other peer's record changes.
pub proof fn lemma_new_peer(peers: Seq<(Seq<char>, PeerRecord)>, peer: PeerInfoView)
    requires
        distinct_keys(peers),
    ensures
        ({
            let (after, step) = worker_step(peers, WorkerEventView::NewPeer { peer });
            &&& distinct_keys(after)
            &&& has_key(peers, peer.node_id) ==> after == peers && step == CoreStepView::Continue
            &&& !has_key(peers, peer.node_id) ==> lookup(after, peer.node_id) == Some(
                record_of(peer),
            ) && step == CoreStepView::PeerAdded { node_id: peer.node_id }
            &&& forall|k: Seq<char>|
                k != peer.node_id ==> #[trigger] lookup(after, k) == lookup(peers, k)
        }),
{
    lemma_added_if_absent(peers, peer.node_id, record_of(peer));
}

/// The supervisor's shutdown stops the worker, whatever peers it knows, and
/// nothing else does; the reason is reported and the peers are kept. A peer's
/// message is passed on as it came and changes no peer.
pub proof fn lemma_shutdown_and_peer_message(
    peers: Seq<(Seq<char>, PeerRecord)>,
    event: WorkerEventView,
)
    ensures
        worker_step(peers, event).1 is Shutdown <==> event is SupervisorShutdown,
        event matches WorkerEventView::SupervisorShutdown { reason } ==> worker_step(peers, event)
            == (peers, CoreStepView::Shutdown { reason }),
        event matches WorkerEventView::MessageFromPeer { message } ==> worker_step(peers, event)
            == (peers, CoreStepView::PeerMessage { message }),
{
}

/// A greeting peer: afterwards it is known and connected, and admitted; a
/// known peer keeps its address, key and signature; no other peer's record
/// changes.
pub proof fn lemma_peer_hello(
    peers: Seq<(Seq<char>, PeerRecord)>,
    node_id: Seq<char>,
    addr: PeerAddr,
    pub_key: Seq<u8>,
    signature: Option<Seq<u8>>,
)
    requires
        distinct_keys(peers),
    ensures
        ({
            let (after, step) = worker_step(
                peers,
                WorkerEventView::PeerHelloReceived { node_id, addr, pub_key, signature },
            );
            &&& distinct_keys(after)
            &&& step == CoreStepView::Admitted { node_id }
            &&& lookup(after, node_id) matches Some(r) && r.connected
            &&& has_key(peers, node_id) ==> lookup(after, node_id) == Some(
                PeerRecord { connected: true, ..lookup(peers, node_id).unwrap() },
            )
            &&& !has_key(peers, node_id) ==> lookup(after, node_id) == Some(
                PeerRecord { node_id, addr, pub_key, signature, connected: true },
            )
            &&& forall|k: Seq<char>| k != node_id ==> #[trigger] lookup(after, k) == lookup(peers, k)
        }),
{
    if has_key(peers, node_id) {
        let i = key_index(peers, node_id);
        let r = PeerRecord { connected: true, ..peers[i].1 };
        lemma_upserted(peers, node_id, r);
        assert(upserted(peers, node_id, r) == peers.update(i, (node_id, r)));
    } else {
        let r = PeerRecord { node_id, addr, pub_key, signature, connected: true };
        lemma_upserted(peers, node_id, r);
        assert(upserted(peers, node_id, r) == peers.push((node_id, r)));
    }
}

impl PeerInfo {
    /// A copy with the same view.
    pub fn duplicate(&self) -> (r: PeerInfo)
        ensures
            r@ == self@,
    {
        PeerInfo {
            node_id: self.node_id.clone(),
            addr: self.addr,
            pub_key: copy_bytes(&self.pub_key),
            signature: copy_opt_bytes(&self.signature),
            connected: self.connected,
        }
    }
}

/// The views of a list of peer records.
pub open spec fn records_view(s: Seq<PeerInfo>) -> Seq<PeerRecord> {
    s.map_values(|p: PeerInfo| p@)
}

/// `id` is listed before position `i`.
pub open spec fn listed_before(listed: Seq<PeerInfoView>, i: int, id: Seq<char>) -> bool {
    exists|j: int| 0 <= j < i && listed[j].node_id == id
}

/// The peers to connect to after a welcome that lists `listed`, given the
/// registry after the welcome: for each listed id, at its first listing and
/// in the order of the list, the record registered under it, unless that
/// peer already has a channel.
pub open spec fn dial_list(peers: Seq<(Seq<char>, PeerRecord)>, listed: Seq<PeerInfoView>) -> Seq<
    PeerRecord,
>
    decreases listed.len(),
{
    if listed.len() == 0 {
        Seq::empty()
    } else {
        let prev = dial_list(peers, listed.drop_last());
        let id = listed.last().node_id;
        if listed_before(listed, listed.len() - 1, id) {
            prev
        } else {
            match lookup(peers, id) {
                Some(r) => if r.connected {
                    prev
                } else {
                    prev.push(r)
                },
                None => prev,
            }
        }
    }
}

/// The peers a worker connects to after its welcome (see `dial_list`).
pub fn peers_to_connect(peers: &PeerRegistry, listed: &Vec<PeerInfoMessage>) -> (r: Vec<PeerInfo>)
    requires
        peers.wf(),
    ensures
        records_view(r@) == dial_list(peers@, peers_view(listed@)),
{
    let ghost pv = peers_view(listed@);
    let mut out: Vec<PeerInfo> = Vec::new();
    let n = listed.len();
    let mut j: usize = 0;
    assert(pv.subrange(0, 0) =~= Seq::<PeerInfoView>::empty());
    assert(records_view(out@) =~= Seq::<PeerRecord>::empty());
    while j < n
        invariant
            n == listed@.len(),
            pv == peers_view(listed@),
            j <= n,
            peers.wf(),
            records_view(out@) == dial_list(peers@, pv.subrange(0, j as int)),
        decreases n - j,
    {
        let ghost prefix = pv.subrange(0, j + 1);
        assert(prefix.drop_last() =~= pv.subrange(0, j as int));
        assert(prefix.last() == listed@[j as int]@);
        let id = &listed[j].node_id;
        let mut seen = false;
        let mut k: usize = 0;
        while k < j
            invariant
                j < n,
                n == listed@.len(),
                pv == peers_view(listed@),
                prefix == pv.subrange(0, j + 1),
                id@ == listed@[j as int].node_id@,
                k <= j,
                seen == exists|m: int| 0 <= m < k && prefix[m].node_id == id@,
            decreases j - k,
        {
            assert(prefix[k as int] == listed@[k as int]@);
            if listed[k].node_id == *id {
                seen = true;
            }
            k = k + 1;
        }
        assert(seen == listed_before(prefix, j as int, id@));
        let ghost before = out@;
        if !seen {
            match peers.get(id) {
                Some(p) => {
                    if !p.connected {
                        let c = p.duplicate();
                        out.push(c);
                        assert(records_view(out@) =~= records_view(before).push(c@));
                    }
                },
                None => {},
            }
        }
        assert(records_view(out@) == dial_list(peers@, prefix));
        j = j + 1;
    }
    assert(pv.subrange(0, n as int) =~= pv);
    out
}

/// When every listed id is listed once and is registered with the record of
/// its listing (no channel yet), the peers to connect to are exactly the
/// listed ones, in the order of the list.
pub proof fn lemma_dial_list_of_fresh_peers(
    peers: Seq<(Seq<char>, PeerRecord)>,
    listed: Seq<PeerInfoView>,
)
    requires
        forall|i: int, j: int|
            0 <= i < j < listed.len() ==> (#[trigger] listed[i]).node_id != (
            #[trigger] listed[j]).node_id,
        forall|i: int|
            0 <= i < listed.len() ==> lookup(peers, (#[trigger] listed[i]).node_id) == Some(
                record_of(listed[i]),
            ),
    ensures
        dial_list(peers, listed) == listed.map_values(|p: PeerInfoView| record_of(p)),
    decreases listed.len(),
{
    if listed.len() > 0 {
        let front = listed.drop_last();
        assert forall|i: int, j: int| 0 <= i < j < front.len() implies (
        #[trigger] front[i]).node_id != (#[trigger] front[j]).node_id by {
            assert(front[i] == listed[i] && front[j] == listed[j]);
        }
        assert forall|i: int| 0 <= i < front.len() implies lookup(
            peers,
            (#[trigger] front[i]).node_id,
        ) == Some(record_of(front[i])) by {
            assert(front[i] == listed[i]);
        }
        lemma_dial_list_of_fresh_peers(peers, front);
        let n = listed.len() - 1;
        if listed_before(listed, n, listed.last().node_id) {
            let m = choose|m: int| 0 <= m < n && listed[m].node_id == listed.last().node_id;
            assert(listed[n] == listed.last());
            assert(false);
        }
        assert(lookup(peers, listed[n].node_id) == Some(record_of(listed[n])));
        assert(dial_list(peers, listed) =~= listed.map_values(|p: PeerInfoView| record_of(p)));
    }
}

/// Peer connections (README, step 3): when the supervisor admits a worker and
/// the worker, knowing no peer yet, takes in the welcome, the peers it
/// connects to are exactly the ones the welcome lists, in the welcome's
/// order, each with the address and key it registered with: every other
/// worker the supervisor had registered, once.
pub proof fn lemma_peer_connections(
    supervisor_id: Seq<char>,
    secret: Seq<u8>,
    workers: Seq<(Seq<char>, WorkerInfoView)>,
    node_id: Seq<char>,
    addr: PeerAddr,
    pub_key: Seq<u8>,
    known: Seq<(Seq<char>, PeerRecord)>,
)
    requires
        distinct_keys(workers),
        known.len() == 0,
    ensures
        ({
            let (after, actions) = supervisor_step(
                supervisor_id,
                secret,
                workers,
                SupervisorEventView::Admit { node_id, addr, pub_key },
            );
            let peers = peer_snapshot(after, node_id);
            let (learned, step) = worker_step(
                known,
                WorkerEventView::SupervisorWelcome { supervisor_id, peers },
            );
            let dial = dial_list(learned, peers);
            &&& dial == peers.map_values(|p: PeerInfoView| record_of(p))
            &&& forall|i: int|
                0 <= i < dial.len() ==> lookup(workers, (#[trigger] dial[i]).node_id) == Some(
                    WorkerInfoView { addr: dial[i].addr, pub_key: dial[i].pub_key },
                ) && dial[i].node_id != node_id && !dial[i].connected
            &&& forall|k: Seq<char>|
                #[trigger] has_key(workers, k) && k != node_id ==> exists|i: int|
                    0 <= i < dial.len() && (#[trigger] dial[i]).node_id == k
        }),
{
    lemma_admission(supervisor_id, secret, workers, node_id, addr, pub_key);
    let after = upserted(workers, node_id, WorkerInfoView { addr, pub_key });
    let peers = peer_snapshot(after, node_id);
    lemma_peer_snapshot(after, node_id);
    lemma_merged_welcome(known, peers);
    let learned = merged_welcome(known, peers);
    assert forall|k: Seq<char>| !has_key(known, k) by {
        lemma_lookup_empty(known, k);
    }
    assert forall|i: int| 0 <= i < peers.len() implies lookup(
        learned,
        (#[trigger] peers[i]).node_id,
    ) == Some(record_of(peers[i])) by {
        assert forall|j: int| 0 <= j < i implies peers[j].node_id != peers[i].node_id by {}
    }
    lemma_dial_list_of_fresh_peers(learned, peers);
    let dial = dial_list(learned, peers);
    assert forall|i: int| 0 <= i < dial.len() implies #[trigger] dial[i] == record_of(peers[i]) by {}
    assert forall|k: Seq<char>| #[trigger] has_key(workers, k) && k != node_id implies exists|i: int|
        0 <= i < dial.len() && (#[trigger] dial[i]).node_id == k by {
        let i = choose|i: int| 0 <= i < peers.len() && (#[trigger] peers[i]).node_id == k;
        assert(dial[i] == record_of(peers[i]));
    }
}

} // verus!
