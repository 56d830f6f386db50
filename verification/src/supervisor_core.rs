//! The supervisor core: the registry of admitted workers, the admission of a
//! worker (its welcome and the announcement to the others), and the routing
//! of the events that the sessions report.
use vstd::prelude::*;
use vstd::string::*;
use vstd::utf8::encode_utf8;
use crate::crypto::{
    build_welcome_payload, ed25519_public_key, ed25519_signature, generate_secret_key,
    peers_payload, public_key_bytes, sign_bytes, welcome_payload,
};
use crate::protocol::{
    PeerAddr, PeerInfoMessage, PeerInfoView, ServerToNode, ServerToNodeView, SupervisorEvent,
    SupervisorEventView, WireMessage, WireView, copy_bytes, duplicate_peers, peers_view,
};
use crate::registry::{
    Registry, distinct_keys, has_key, lemma_key_index, lemma_lookup_empty, lemma_lookup_last,
    lemma_removed,
    lemma_upserted, lookup, removed, upserted,
};

verus! {

/// What the supervisor keeps of an admitted worker. (The writer channel of
/// the worker and the time of its admission stay with the session runner.)
#[derive(Clone, Debug, PartialEq, Eq)]
pub struct WorkerInfo {
    pub addr: PeerAddr,
    pub pub_key: Vec<u8>,
}

pub struct WorkerInfoView {
    pub addr: PeerAddr,
    pub pub_key: Seq<u8>,
}

impl View for WorkerInfo {
    type V = WorkerInfoView;

    open spec fn view(&self) -> WorkerInfoView {
        WorkerInfoView { addr: self.addr, pub_key: self.pub_key@ }
    }
}

/// The workers that the supervisor has admitted, by node id.
pub type WorkerRegistry = Registry<WorkerInfo>;

/// A message to hand to the writer of one worker.
#[derive(Clone, Debug, PartialEq, Eq)]
pub struct Delivery {
    pub node_id: String,
    pub msg: WireMessage,
}

impl View for Delivery {
    type V = (Seq<char>, WireView);

    open spec fn view(&self) -> (Seq<char>, WireView) {
        (self.node_id@, self.msg@)
    }
}

/// The views of a list of deliveries.
pub open spec fn deliveries_view(d: Seq<Delivery>) -> Seq<(Seq<char>, WireView)> {
    d.map_values(|x: Delivery| x@)
}

/// The peers that a worker is told about: every registered worker but
/// `exclude`, in registry order, with an empty signature.
pub open spec fn peer_snapshot(
    workers: Seq<(Seq<char>, WorkerInfoView)>,
    exclude: Seq<char>,
) -> Seq<PeerInfoView>
    decreases workers.len(),
{
    if workers.len() == 0 {
        Seq::empty()
    } else {
        let prev = peer_snapshot(workers.drop_last(), exclude);
        let (id, info) = workers.last();
        if id == exclude {
            prev
        } else {
            prev.push(
                PeerInfoView {
                    node_id: id,
                    addr: info.addr,
                    pub_key: info.pub_key,
                    signature: Seq::empty(),
                },
            )
        }
    }
}

/// The signature of the welcome of `node_id` with `peers`.
pub open spec fn welcome_signature(
    secret: Seq<u8>,
    node_id: Seq<char>,
    peers: Seq<PeerInfoView>,
) -> Seq<u8> {
    ed25519_signature(secret, welcome_payload(node_id, peers))
}

/// The announcement of a newly admitted worker, with the welcome's signature.
pub open spec fn new_peer_view(
    node_id: Seq<char>,
    addr: PeerAddr,
    pub_key: Seq<u8>,
    signature: Seq<u8>,
) -> WireView {
    WireView::ServerToNode(
        ServerToNodeView::NewPeer {
            node: PeerInfoView { node_id, addr, pub_key, signature },
            signature,
        },
    )
}

/// The messages of an admission of `node_id` with the supervisor's public
/// key `supervisor_pub_key`, the peers `peers` and the signature `sig`: first
/// the welcome to the new worker, then to every listed peer, in order, the
/// announcement of the new worker carrying that signature.
pub open spec fn admission_messages_view(
    supervisor_id: Seq<char>,
    supervisor_pub_key: Seq<u8>,
    node_id: Seq<char>,
    addr: PeerAddr,
    pub_key: Seq<u8>,
    peers: Seq<PeerInfoView>,
    sig: Seq<u8>,
) -> Seq<(Seq<char>, WireView)> {
    seq![
        (
            node_id,
            WireView::ServerToNode(
                ServerToNodeView::Welcome { supervisor_id, supervisor_pub_key, peers, signature: sig },
            ),
        ),
    ] + peers.map_values(|p: PeerInfoView| (p.node_id, new_peer_view(node_id, addr, pub_key, sig)))
}

/// What the admission of `node_id` sends, given the registry after the
/// admission: the welcome to the new worker (the supervisor's id and public
/// key, every other worker, and the signature of the new id and the others'
/// ids and keys), then, to every other worker in registry order, the
/// announcement of the new one carrying that same signature.
pub open spec fn admission_deliveries(
    supervisor_id: Seq<char>,
    secret: Seq<u8>,
    node_id: Seq<char>,
    addr: PeerAddr,
    pub_key: Seq<u8>,
    workers: Seq<(Seq<char>, WorkerInfoView)>,
) -> Seq<(Seq<char>, WireView)> {
    let peers = peer_snapshot(workers, node_id);
    admission_messages_view(
        supervisor_id,
        ed25519_public_key(secret),
        node_id,
        addr,
        pub_key,
        peers,
        welcome_signature(secret, node_id, peers),
    )
}

/// The snapshot of every registered worker but `exclude`.
pub fn snapshot_peers(workers: &WorkerRegistry, exclude: &String) -> (peers: Vec<PeerInfoMessage>)
    requires
        workers.wf(),
    ensures
        peers_view(peers@) == peer_snapshot(workers@, exclude@),
{
    let mut peers: Vec<PeerInfoMessage> = Vec::new();
    let mut i: usize = 0;
    assert(workers@.subrange(0, 0) =~= Seq::<(Seq<char>, WorkerInfoView)>::empty());
    assert(peers_view(peers@) =~= Seq::<PeerInfoView>::empty());
    while i < workers.len()
        invariant
            i <= workers@.len(),
            peers_view(peers@) == peer_snapshot(workers@.subrange(0, i as int), exclude@),
        decreases workers@.len() - i,
    {
        let ghost prefix = workers@.subrange(0, i + 1);
        assert(prefix.drop_last() =~= workers@.subrange(0, i as int));
        assert(prefix.last() == workers@[i as int]);
        let id = workers.key_at(i);
        if *id != *exclude {
            let info = workers.value_at(i);
            let p = PeerInfoMessage {
                node_id: id.clone(),
                addr: info.addr,
                pub_key: copy_bytes(&info.pub_key),
                signature: Vec::new(),
            };
            let ghost before = peers@;
            peers.push(p);
            assert(peers_view(peers@) =~= peers_view(before).push(p@));
            assert(p@.signature =~= Seq::<u8>::empty());
        }
        i = i + 1;
    }
    assert(workers@.subrange(0, workers@.len() as int) =~= workers@);
    peers
}

/// The messages of an admission, given the supervisor's public key, the
/// peers to list and the signature: the welcome to `node_id`, then the
/// announcement of `node_id` to each listed peer, in order.
pub fn admission_messages(
    supervisor_id: &str,
    supervisor_pub_key: Vec<u8>,
    node_id: &String,
    addr: PeerAddr,
    pub_key: &Vec<u8>,
    peers: Vec<PeerInfoMessage>,
    signature: Vec<u8>,
) -> (out: Vec<Delivery>)
    ensures
        deliveries_view(out@) == admission_messages_view(
            supervisor_id@,
            supervisor_pub_key@,
            node_id@,
            addr,
            pub_key@,
            peers_view(peers@),
            signature@,
        ),
{
    let ghost pv = peers_view(peers@);
    let ghost expected = admission_messages_view(
        supervisor_id@,
        supervisor_pub_key@,
        node_id@,
        addr,
        pub_key@,
        pv,
        signature@,
    );
    let n = peers.len();
    let mut out: Vec<Delivery> = Vec::new();
    let welcome = ServerToNode::Welcome {
        supervisor_id: String::from_str(supervisor_id),
        supervisor_pub_key,
        peers: duplicate_peers(&peers),
        signature: copy_bytes(&signature),
    };
    out.push(Delivery { node_id: node_id.clone(), msg: WireMessage::ServerToNode(welcome) });
    assert(deliveries_view(out@) =~= expected.subrange(0, 1));
    let mut j: usize = 0;
    while j < n
        invariant
            j <= n,
            n == peers@.len(),
            pv == peers_view(peers@),
            expected == admission_messages_view(
                supervisor_id@,
                supervisor_pub_key@,
                node_id@,
                addr,
                pub_key@,
                pv,
                signature@,
            ),
            deliveries_view(out@) == expected.subrange(0, 1 + j),
        decreases n - j,
    {
        assert(peers@[j as int]@ == pv[j as int]);
        let msg = WireMessage::ServerToNode(
            ServerToNode::NewPeer {
                node: PeerInfoMessage {
                    node_id: node_id.clone(),
                    addr,
                    pub_key: copy_bytes(pub_key),
                    signature: copy_bytes(&signature),
                },
                signature: copy_bytes(&signature),
            },
        );
        let ghost before = out@;
        let d = Delivery { node_id: peers[j].node_id.clone(), msg };
        assert(expected[1 + j] == (pv[j as int].node_id, new_peer_view(
            node_id@,
            addr,
            pub_key@,
            signature@,
        )));
        assert(d@ == expected[1 + j]);
        out.push(d);
        assert(deliveries_view(out@) =~= deliveries_view(before).push(d@));
        assert(deliveries_view(out@) =~= expected.subrange(0, 1 + j + 1));
        j = j + 1;
    }
    assert(expected.subrange(0, 1 + n as int) =~= expected);
    out
}

/// Registers `node_id` (replacing a worker registered under the same id) and
/// returns what goes out: the welcome to it, with every other worker and the
/// supervisor's signature, and to every other worker the announcement of the
/// new one.
pub fn admit_and_welcome(
    workers: &mut WorkerRegistry,
    signing_key: &[u8; 32],
    supervisor_id: &str,
    node_id: String,
    addr: PeerAddr,
    pub_key: Vec<u8>,
) -> (out: Vec<Delivery>)
    requires
        old(workers).wf(),
    ensures
        final(workers).wf(),
        final(workers)@ == upserted(
            old(workers)@,
            node_id@,
            WorkerInfoView { addr, pub_key: pub_key@ },
        ),
        deliveries_view(out@) == admission_deliveries(
            supervisor_id@,
            signing_key@,
            node_id@,
            addr,
            pub_key@,
            final(workers)@,
        ),
        out@.len() >= 1,
        out@[0].msg matches WireMessage::ServerToNode(
            ServerToNode::Welcome { supervisor_pub_key, signature, .. },
        ) && supervisor_pub_key@.len() == 32 && signature@.len() == 64,
        out@[0].msg matches WireMessage::ServerToNode(
            ServerToNode::Welcome { peers, signature, .. },
        ) && signature@ == ed25519_signature(
            signing_key@,
            encode_utf8(node_id@) + peers_payload(peers_view(peers@)),
        ),
        forall|i: int|
            1 <= i < out@.len() ==> ((#[trigger] out@[i]).msg matches WireMessage::ServerToNode(
                ServerToNode::NewPeer { node, signature },
            ) && signature@.len() == 64 && node.signature@.len() == 64),
{
    let info = WorkerInfo { addr, pub_key: copy_bytes(&pub_key) };
    workers.insert(node_id.clone(), info);
    let peers = snapshot_peers(workers, &node_id);
    let payload = build_welcome_payload(node_id.as_str(), &peers);
    let signature = sign_bytes(signing_key, payload.as_slice());
    let supervisor_pub_key = public_key_bytes(signing_key);
    let ghost pv = peers_view(peers@);
    let ghost sig = signature@;
    let ghost pk = supervisor_pub_key@;
    let out = admission_messages(
        supervisor_id,
        supervisor_pub_key,
        &node_id,
        addr,
        &pub_key,
        peers,
        signature,
    );
    proof {
        let d = deliveries_view(out@);
        let e = admission_messages_view(supervisor_id@, pk, node_id@, addr, pub_key@, pv, sig);
        assert(d == e);
        assert(e.len() == 1 + pv.len());
        assert(out@.len() == d.len());
        assert(d[0] == out@[0]@);
        assert(e[0] == (
            node_id@,
            WireView::ServerToNode(
                ServerToNodeView::Welcome {
                    supervisor_id: supervisor_id@,
                    supervisor_pub_key: pk,
                    peers: pv,
                    signature: sig,
                },
            ),
        ));
        assert forall|i: int| 1 <= i < out@.len() implies ((#[trigger] out@[i]).msg matches WireMessage::ServerToNode(
            ServerToNode::NewPeer { node, signature },
        ) && signature@.len() == 64 && node.signature@.len() == 64) by {
            assert(d[i] == out@[i]@);
            assert(e[1 + (i - 1)] == (pv[i - 1].node_id, new_peer_view(
                node_id@,
                addr,
                pub_key@,
                sig,
            )));
        }
    }
    out
}

/// What the supervisor core does in answer to an event.
#[derive(Clone, Debug, PartialEq, Eq)]
pub enum SupervisorAction {
    /// Hand a message to the writer of a worker.
    Deliver(Delivery),
    /// Report a worker's heartbeat.
    ReportHeartbeat { node_id: String, timestamp: u64 },
}

pub enum SupervisorActionView {
    Deliver((Seq<char>, WireView)),
    ReportHeartbeat { node_id: Seq<char>, timestamp: u64 },
}

impl View for SupervisorAction {
    type V = SupervisorActionView;

    open spec fn view(&self) -> SupervisorActionView {
        match self {
            SupervisorAction::Deliver(d) => SupervisorActionView::Deliver(d@),
            SupervisorAction::ReportHeartbeat { node_id, timestamp } =>
                SupervisorActionView::ReportHeartbeat { node_id: node_id@, timestamp: *timestamp },
        }
    }
}

/// The views of a list of actions.
pub open spec fn actions_view(a: Seq<SupervisorAction>) -> Seq<SupervisorActionView> {
    a.map_values(|x: SupervisorAction| x@)
}

/// The deliveries as actions.
pub open spec fn as_actions(d: Seq<(Seq<char>, WireView)>) -> Seq<SupervisorActionView> {
    d.map_values(|x: (Seq<char>, WireView)| SupervisorActionView::Deliver(x))
}

/// A broadcast of `msg`: one delivery to every registered worker but
/// `except`, in registry order.
pub open spec fn broadcast_deliveries(
    workers: Seq<(Seq<char>, WorkerInfoView)>,
    msg: WireView,
    except: Option<Seq<char>>,
) -> Seq<(Seq<char>, WireView)>
    decreases workers.len(),
{
    if workers.len() == 0 {
        Seq::empty()
    } else {
        let prev = broadcast_deliveries(workers.drop_last(), msg, except);
        let id = workers.last().0;
        if except == Some(id) {
            prev
        } else {
            prev.push((id, msg))
        }
    }
}

/// The registry after an event, and what goes out in answer to it.
pub open spec fn supervisor_step(
    supervisor_id: Seq<char>,
    secret: Seq<u8>,
    workers: Seq<(Seq<char>, WorkerInfoView)>,
    event: SupervisorEventView,
) -> (Seq<(Seq<char>, WorkerInfoView)>, Seq<SupervisorActionView>) {
    match event {
        SupervisorEventView::Admit { node_id, addr, pub_key } => {
            let w = upserted(workers, node_id, WorkerInfoView { addr, pub_key });
            (
                w,
                as_actions(admission_deliveries(supervisor_id, secret, node_id, addr, pub_key, w)),
            )
        },
        SupervisorEventView::Remove { node_id } => (removed(workers, node_id), Seq::empty()),
        SupervisorEventView::SendTo { node_id, msg } => (
            workers,
            if has_key(workers, node_id) {
                seq![SupervisorActionView::Deliver((node_id, msg))]
            } else {
                Seq::empty()
            },
        ),
        SupervisorEventView::Heartbeat { node_id, timestamp } => (
            workers,
            seq![SupervisorActionView::ReportHeartbeat { node_id, timestamp }],
        ),
        SupervisorEventView::Broadcast { msg, except } => (
            workers,
            as_actions(broadcast_deliveries(workers, msg, except)),
        ),
    }
}

/// One delivery of `msg` to every registered worker but `except`, in
/// registry order.
pub fn broadcast(workers: &WorkerRegistry, msg: &WireMessage, except: &Option<String>) -> (out: Vec<
    Delivery,
>)
    requires
        workers.wf(),
    ensures
        deliveries_view(out@) == broadcast_deliveries(
            workers@,
            msg@,
            match except {
                Some(e) => Some(e@),
                None => None,
            },
        ),
{
    let ghost ex = match except {
        Some(e) => Some(e@),
        None => None::<Seq<char>>,
    };
    let mut out: Vec<Delivery> = Vec::new();
    let mut i: usize = 0;
    assert(workers@.subrange(0, 0) =~= Seq::<(Seq<char>, WorkerInfoView)>::empty());
    assert(deliveries_view(out@) =~= Seq::<(Seq<char>, WireView)>::empty());
    while i < workers.len()
        invariant
            i <= workers@.len(),
            ex == match except {
                Some(e) => Some(e@),
                None => None::<Seq<char>>,
            },
            deliveries_view(out@) == broadcast_deliveries(workers@.subrange(0, i as int), msg@, ex),
        decreases workers@.len() - i,
    {
        let ghost prefix = workers@.subrange(0, i + 1);
        assert(prefix.drop_last() =~= workers@.subrange(0, i as int));
        assert(prefix.last() == workers@[i as int]);
        let id = workers.key_at(i);
        let skip = match except {
            Some(e) => *e == *id,
            None => false,
        };
        let ghost before = out@;
        if !skip {
            let d = Delivery { node_id: id.clone(), msg: msg.duplicate() };
            out.push(d);
            assert(deliveries_view(out@) =~= deliveries_view(before).push(d@));
        }
        assert(deliveries_view(out@) =~= broadcast_deliveries(prefix, msg@, ex));
        i = i + 1;
    }
    assert(workers@.subrange(0, workers@.len() as int) =~= workers@);
    out
}

/// The deliveries, as actions of the core.
pub fn deliver_all(d: Vec<Delivery>) -> (out: Vec<SupervisorAction>)
    ensures
        actions_view(out@) == as_actions(deliveries_view(d@)),
{
    let mut out: Vec<SupervisorAction> = Vec::new();
    let n = d.len();
    let mut i: usize = 0;
    while i < n
        invariant
            d@.len() == n,
            i <= n,
            actions_view(out@) == as_actions(deliveries_view(d@).subrange(0, i as int)),
        decreases n - i,
    {
        let a = SupervisorAction::Deliver(
            Delivery { node_id: d[i].node_id.clone(), msg: d[i].msg.duplicate() },
        );
        let ghost before = out@;
        out.push(a);
        assert(actions_view(out@) =~= actions_view(before).push(a@));
        assert(actions_view(out@) =~= as_actions(deliveries_view(d@).subrange(0, i + 1)));
        i = i + 1;
    }
    assert(deliveries_view(d@).subrange(0, n as int) =~= deliveries_view(d@));
    out
}

/// Unregisters a worker.
pub fn remove_worker(workers: &mut WorkerRegistry, node_id: &String)
    requires
        old(workers).wf(),
    ensures
        final(workers).wf(),
        final(workers)@ == removed(old(workers)@, node_id@),
{
    let _ = workers.remove(node_id);
}

/// The supervisor's state: its id, its signing key and the admitted workers.
pub struct SupervisorCore {
    pub id: String,
    pub signing_key: [u8; 32],
    pub workers: WorkerRegistry,
}

impl SupervisorCore {
    /// A supervisor named `sup-1`, with a freshly drawn signing key and no
    /// worker; none when the random source fails.
    pub fn new() -> (r: Option<SupervisorCore>)
        ensures
            r matches Some(core) ==> core.id@ == "sup-1"@ && core.workers.wf() && core.workers@
                == Seq::<(Seq<char>, WorkerInfoView)>::empty(),
    {
        match generate_secret_key() {
            Some(signing_key) => Some(
                SupervisorCore {
                    id: String::from_str("sup-1"),
                    signing_key,
                    workers: Registry::new(),
                },
            ),
            None => None,
        }
    }

    /// A supervisor with the given id and signing key and no worker.
    pub fn with_key(id: String, signing_key: [u8; 32]) -> (core: SupervisorCore)
        ensures
            core.id@ == id@,
            core.signing_key@ == signing_key@,
            core.workers.wf(),
            core.workers@ == Seq::<(Seq<char>, WorkerInfoView)>::empty(),
    {
        SupervisorCore { id, signing_key, workers: Registry::new() }
    }

    /// Applies one event to the registry and returns what goes out: an
    /// admission registers the worker, welcomes it and announces it to the
    /// others; a removal unregisters it; a message for a worker is delivered
    /// if the worker is registered; a heartbeat is reported; a broadcast goes
    /// to every registered worker but the excepted one.
    pub fn handle_event(&mut self, event: SupervisorEvent) -> (actions: Vec<SupervisorAction>)
        requires
            old(self).workers.wf(),
        ensures
            final(self).workers.wf(),
            final(self).id == old(self).id,
            final(self).signing_key == old(self).signing_key,
            (final(self).workers@, actions_view(actions@)) == supervisor_step(
                old(self).id@,
                old(self).signing_key@,
                old(self).workers@,
                event@,
            ),
    {
        match event {
            SupervisorEvent::Admit { node_id, addr, pub_key } => {
                let d = admit_and_welcome(
                    &mut self.workers,
                    &self.signing_key,
                    self.id.as_str(),
                    node_id,
                    addr,
                    pub_key,
                );
                deliver_all(d)
            },
            SupervisorEvent::Remove { node_id } => {
                remove_worker(&mut self.workers, &node_id);
                Vec::new()
            },
            SupervisorEvent::SendTo { node_id, msg } => {
                let mut out: Vec<SupervisorAction> = Vec::new();
                if self.workers.contains_key(&node_id) {
                    out.push(SupervisorAction::Deliver(Delivery { node_id, msg }));
                }
                out
            },
            SupervisorEvent::Heartbeat { node_id, timestamp } => {
                let mut out: Vec<SupervisorAction> = Vec::new();
                out.push(SupervisorAction::ReportHeartbeat { node_id, timestamp });
                out
            },
            SupervisorEvent::Broadcast { msg, except } => deliver_all(
                broadcast(&self.workers, &msg, &except),
            ),
        }
    }
}

/// The worker that an action is addressed to (none for a heartbeat report).
pub open spec fn action_target(a: SupervisorActionView) -> Option<Seq<char>> {
    match a {
        SupervisorActionView::Deliver((t, _)) => Some(t),
        _ => None,
    }
}

/// A snapshot of peers lists each registered worker other than the excluded
/// one exactly once, with the address and key it was registered with and an
/// empty signature, and lists nothing else.
pub proof fn lemma_peer_snapshot(workers: Seq<(Seq<char>, WorkerInfoView)>, exclude: Seq<char>)
    requires
        distinct_keys(workers),
    ensures
        forall|i: int|
            0 <= i < peer_snapshot(workers, exclude).len() ==> {
                let p = #[trigger] peer_snapshot(workers, exclude)[i];
                &&& p.node_id != exclude
                &&& lookup(workers, p.node_id) == Some(
                    WorkerInfoView { addr: p.addr, pub_key: p.pub_key },
                )
                &&& p.signature == Seq::<u8>::empty()
            },
        forall|i: int, j: int|
            0 <= i < j < peer_snapshot(workers, exclude).len() ==> (#[trigger] peer_snapshot(
                workers,
                exclude,
            )[i]).node_id != (#[trigger] peer_snapshot(workers, exclude)[j]).node_id,
        forall|k: Seq<char>|
            #[trigger] has_key(workers, k) && k != exclude ==> exists|i: int|
                0 <= i < peer_snapshot(workers, exclude).len() && (#[trigger] peer_snapshot(
                    workers,
                    exclude,
                )[i]).node_id == k,
    decreases workers.len(),
{
    if workers.len() == 0 {
        assert forall|k: Seq<char>| !has_key(workers, k) by {
            lemma_lookup_empty(workers, k);
        }
    } else {
        let p = workers.drop_last();
        let (id, info) = workers.last();
        lemma_lookup_last(workers);
        lemma_peer_snapshot(p, exclude);
        let prev = peer_snapshot(p, exclude);
        let snap = peer_snapshot(workers, exclude);
        assert forall|i: int| 0 <= i < prev.len() implies #[trigger] prev[i].node_id != id by {
            assert(lookup(p, prev[i].node_id) is Some);
        }
        if id == exclude {
            assert(snap == prev);
            assert forall|k: Seq<char>|
                #[trigger] has_key(workers, k) && k != exclude implies exists|i: int|
                    0 <= i < snap.len() && (#[trigger] snap[i]).node_id == k by {
                assert(has_key(p, k));
            }
        } else {
            let np = PeerInfoView {
                node_id: id,
                addr: info.addr,
                pub_key: info.pub_key,
                signature: Seq::empty(),
            };
            assert(snap == prev.push(np));
            assert(snap[prev.len() as int] == np);
            assert forall|i: int| 0 <= i < prev.len() implies #[trigger] snap[i] == prev[i] by {}
            assert forall|k: Seq<char>|
                #[trigger] has_key(workers, k) && k != exclude implies exists|i: int|
                    0 <= i < snap.len() && (#[trigger] snap[i]).node_id == k by {
                if k == id {
                    assert(snap[prev.len() as int].node_id == k);
                } else {
                    assert(has_key(p, k));
                    let i = choose|i: int| 0 <= i < prev.len() && (#[trigger] prev[i]).node_id == k;
                    assert(snap[i].node_id == k);
                }
            }
        }
    }
}

/// Admission (README, steps 1 and 2, on the supervisor's side):
/// the new worker is registered with its address and key and no other
/// registration changes; the first message goes to the new worker and is its
/// welcome, listing every other registered worker; then every other
/// registered worker, and only those, gets exactly one announcement of the
/// new worker, signed with the welcome's signature.
pub proof fn lemma_admission(
    supervisor_id: Seq<char>,
    secret: Seq<u8>,
    workers: Seq<(Seq<char>, WorkerInfoView)>,
    node_id: Seq<char>,
    addr: PeerAddr,
    pub_key: Seq<u8>,
)
    requires
        distinct_keys(workers),
    ensures
        ({
            let event = SupervisorEventView::Admit { node_id, addr, pub_key };
            let (after, actions) = supervisor_step(supervisor_id, secret, workers, event);
            let peers = peer_snapshot(after, node_id);
            let sig = welcome_signature(secret, node_id, peers);
            &&& distinct_keys(after)
            &&& lookup(after, node_id) == Some(WorkerInfoView { addr, pub_key })
            &&& forall|k: Seq<char>| k != node_id ==> #[trigger] lookup(after, k) == lookup(workers, k)
            &&& actions.len() == 1 + peers.len()
            &&& actions[0] == SupervisorActionView::Deliver(
                (
                    node_id,
                    WireView::ServerToNode(
                        ServerToNodeView::Welcome {
                            supervisor_id,
                            supervisor_pub_key: ed25519_public_key(secret),
                            peers,
                            signature: sig,
                        },
                    ),
                ),
            )
            &&& forall|i: int|
                0 <= i < peers.len() ==> lookup(workers, (#[trigger] peers[i]).node_id) == Some(
                    WorkerInfoView { addr: peers[i].addr, pub_key: peers[i].pub_key },
                ) && peers[i].node_id != node_id
            &&& forall|k: Seq<char>|
                #[trigger] has_key(workers, k) && k != node_id ==> exists|i: int|
                    0 <= i < peers.len() && (#[trigger] peers[i]).node_id == k
            &&& forall|i: int|
                1 <= i < actions.len() ==> exists|t: Seq<char>|
                    #[trigger] actions[i] == SupervisorActionView::Deliver(
                        (t, new_peer_view(node_id, addr, pub_key, sig)),
                    ) && t != node_id && has_key(workers, t)
            &&& forall|k: Seq<char>|
                #[trigger] has_key(workers, k) && k != node_id ==> exists|i: int|
                    1 <= i < actions.len() && #[trigger] actions[i] == SupervisorActionView::Deliver(
                        (k, new_peer_view(node_id, addr, pub_key, sig)),
                    )
            &&& forall|i: int, j: int|
                1 <= i < j < actions.len() ==> action_target(#[trigger] actions[i]) != action_target(
                    #[trigger] actions[j],
                )
        }),
{
    let info = WorkerInfoView { addr, pub_key };
    let after = upserted(workers, node_id, info);
    lemma_upserted(workers, node_id, info);
    lemma_peer_snapshot(after, node_id);
    let peers = peer_snapshot(after, node_id);
    let sig = welcome_signature(secret, node_id, peers);
    let d = admission_deliveries(supervisor_id, secret, node_id, addr, pub_key, after);
    let actions = as_actions(d);
    let np = new_peer_view(node_id, addr, pub_key, sig);
    assert forall|i: int| 0 <= i < peers.len() implies #[trigger] actions[1 + i]
        == SupervisorActionView::Deliver((peers[i].node_id, np)) by {
        assert(d[1 + i] == (peers[i].node_id, np));
    }
    assert forall|k: Seq<char>| k != node_id implies has_key(after, k) == has_key(workers, k) by {
        assert(lookup(after, k) == lookup(workers, k));
    }
    assert forall|i: int| 0 <= i < peers.len() implies lookup(workers, (#[trigger] peers[i]).node_id)
        == Some(WorkerInfoView { addr: peers[i].addr, pub_key: peers[i].pub_key }) by {
        assert(lookup(after, peers[i].node_id) == lookup(workers, peers[i].node_id));
    }
    assert forall|k: Seq<char>| #[trigger] has_key(workers, k) && k != node_id implies exists|i: int|
        0 <= i < peers.len() && (#[trigger] peers[i]).node_id == k by {
        assert(lookup(after, k) == lookup(workers, k));
        assert(has_key(after, k));
    }
    assert forall|i: int| 1 <= i < actions.len() implies exists|t: Seq<char>|
        #[trigger] actions[i] == SupervisorActionView::Deliver((t, np)) && t != node_id && has_key(
            workers,
            t,
        ) by {
        let t = peers[i - 1].node_id;
        assert(actions[1 + (i - 1)] == SupervisorActionView::Deliver((t, np)));
        assert(lookup(workers, t) is Some);
    }
    assert forall|k: Seq<char>| #[trigger] has_key(workers, k) && k != node_id implies exists|i: int|
        1 <= i < actions.len() && #[trigger] actions[i] == SupervisorActionView::Deliver((k, np)) by {
        assert(lookup(after, k) == lookup(workers, k));
        assert(has_key(after, k));
        let j = choose|j: int| 0 <= j < peers.len() && (#[trigger] peers[j]).node_id == k;
        assert(actions[1 + j] == SupervisorActionView::Deliver((k, np)));
    }
    assert forall|i: int, j: int| 1 <= i < j < actions.len() implies action_target(
        #[trigger] actions[i],
    ) != action_target(#[trigger] actions[j]) by {
        assert(actions[1 + (i - 1)] == SupervisorActionView::Deliver((peers[i - 1].node_id, np)));
        assert(actions[1 + (j - 1)] == SupervisorActionView::Deliver((peers[j - 1].node_id, np)));
        assert(peers[i - 1].node_id != peers[j - 1].node_id);
    }
}

/// The welcome of an admission is signed over the new worker's id followed
/// by each listed peer's id and key, in the order of the welcome's own list;
/// every announcement of the new worker carries that same signature, both as
/// the message's and as the announced peer's.
pub proof fn lemma_welcome_signed_over_its_list(
    supervisor_id: Seq<char>,
    secret: Seq<u8>,
    workers: Seq<(Seq<char>, WorkerInfoView)>,
    node_id: Seq<char>,
    addr: PeerAddr,
    pub_key: Seq<u8>,
)
    requires
        distinct_keys(workers),
    ensures
        ({
            let event = SupervisorEventView::Admit { node_id, addr, pub_key };
            let actions = supervisor_step(supervisor_id, secret, workers, event).1;
            &&& actions.len() >= 1
            &&& actions[0] matches SupervisorActionView::Deliver(
                (
                    _,
                    WireView::ServerToNode(ServerToNodeView::Welcome { peers, signature, .. }),
                ),
            ) && signature == ed25519_signature(secret, encode_utf8(node_id) + peers_payload(peers))
                && forall|i: int|
                1 <= i < actions.len() ==> ((#[trigger] actions[i]) matches SupervisorActionView::Deliver(
                    (_, WireView::ServerToNode(ServerToNodeView::NewPeer { node, signature: s })),
                ) && s == signature && node.signature == signature)
        }),
{
    lemma_admission(supervisor_id, secret, workers, node_id, addr, pub_key);
}

/// A broadcast reaches every registered worker but the excepted one exactly
/// once, with the message, and reaches no one else.
pub proof fn lemma_broadcast_deliveries(
    workers: Seq<(Seq<char>, WorkerInfoView)>,
    msg: WireView,
    except: Option<Seq<char>>,
)
    requires
        distinct_keys(workers),
    ensures
        forall|i: int|
            0 <= i < broadcast_deliveries(workers, msg, except).len() ==> {
                let d = #[trigger] broadcast_deliveries(workers, msg, except)[i];
                &&& d.1 == msg
                &&& has_key(workers, d.0)
                &&& except != Some(d.0)
            },
        forall|i: int, j: int|
            0 <= i < j < broadcast_deliveries(workers, msg, except).len() ==> (
            #[trigger] broadcast_deliveries(workers, msg, except)[i]).0 != (
            #[trigger] broadcast_deliveries(workers, msg, except)[j]).0,
        forall|k: Seq<char>|
            #[trigger] has_key(workers, k) && except != Some(k) ==> exists|i: int|
                0 <= i < broadcast_deliveries(workers, msg, except).len() && (
                #[trigger] broadcast_deliveries(workers, msg, except)[i]).0 == k,
    decreases workers.len(),
{
    if workers.len() == 0 {
        assert forall|k: Seq<char>| !has_key(workers, k) by {
            lemma_lookup_empty(workers, k);
        }
    } else {
        let p = workers.drop_last();
        let id = workers.last().0;
        lemma_lookup_last(workers);
        lemma_broadcast_deliveries(p, msg, except);
        let prev = broadcast_deliveries(p, msg, except);
        let all = broadcast_deliveries(workers, msg, except);
        assert forall|i: int| 0 <= i < prev.len() implies #[trigger] prev[i].0 != id by {
            assert(has_key(p, prev[i].0));
        }
        assert forall|i: int| 0 <= i < prev.len() implies has_key(workers, (#[trigger] prev[i]).0) by {
            assert(has_key(p, prev[i].0));
        }
        if except == Some(id) {
            assert(all == prev);
            assert forall|k: Seq<char>| #[trigger] has_key(workers, k) && except != Some(k) implies exists|
                i: int,
            | 0 <= i < all.len() && (#[trigger] all[i]).0 == k by {
                assert(has_key(p, k));
            }
        } else {
            assert(all == prev.push((id, msg)));
            assert(has_key(workers, id)) by {
                assert(workers[workers.len() - 1].0 == id);
            }
            assert forall|i: int| 0 <= i < prev.len() implies #[trigger] all[i] == prev[i] by {}
            assert forall|k: Seq<char>| #[trigger] has_key(workers, k) && except != Some(k) implies exists|
                i: int,
            | 0 <= i < all.len() && (#[trigger] all[i]).0 == k by {
                if k == id {
                    assert(all[prev.len() as int].0 == k);
                } else {
                    assert(has_key(p, k));
                    let i = choose|i: int| 0 <= i < prev.len() && (#[trigger] prev[i]).0 == k;
                    assert(all[i].0 == k);
                }
            }
        }
    }
}

/// Removal: the worker is no longer registered, no other registration
/// changes, and nothing is sent.
pub proof fn lemma_removal(
    supervisor_id: Seq<char>,
    secret: Seq<u8>,
    workers: Seq<(Seq<char>, WorkerInfoView)>,
    node_id: Seq<char>,
)
    requires
        distinct_keys(workers),
    ensures
        ({
            let (after, actions) = supervisor_step(
                supervisor_id,
                secret,
                workers,
                SupervisorEventView::Remove { node_id },
            );
            &&& distinct_keys(after)
            &&& lookup(after, node_id) is None
            &&& forall|k: Seq<char>| k != node_id ==> #[trigger] lookup(after, k) == lookup(workers, k)
            &&& actions.len() == 0
        }),
{
    lemma_removed(workers, node_id);
}

/// Routing: a message for a worker is delivered to it, once, exactly when it
/// is registered; a broadcast reaches every registered worker but the
/// excepted one exactly once; neither changes the registry.
pub proof fn lemma_routing(
    supervisor_id: Seq<char>,
    secret: Seq<u8>,
    workers: Seq<(Seq<char>, WorkerInfoView)>,
    node_id: Seq<char>,
    msg: WireView,
    except: Option<Seq<char>>,
)
    requires
        distinct_keys(workers),
    ensures
        ({
            let (after, actions) = supervisor_step(
                supervisor_id,
                secret,
                workers,
                SupervisorEventView::SendTo { node_id, msg },
            );
            &&& after == workers
            &&& has_key(workers, node_id) ==> actions == seq![
                SupervisorActionView::Deliver((node_id, msg)),
            ]
            &&& !has_key(workers, node_id) ==> actions.len() == 0
        }),
        ({
            let (after, actions) = supervisor_step(
                supervisor_id,
                secret,
                workers,
                SupervisorEventView::Broadcast { msg, except },
            );
            &&& after == workers
            &&& forall|i: int|
                0 <= i < actions.len() ==> exists|t: Seq<char>|
                    #[trigger] actions[i] == SupervisorActionView::Deliver((t, msg)) && has_key(
                        workers,
                        t,
                    ) && except != Some(t)
            &&& forall|k: Seq<char>|
                #[trigger] has_key(workers, k) && except != Some(k) ==> exists|i: int|
                    0 <= i < actions.len() && #[trigger] actions[i]
                        == SupervisorActionView::Deliver((k, msg))
            &&& forall|i: int, j: int|
                0 <= i < j < actions.len() ==> action_target(#[trigger] actions[i]) != action_target(
                    #[trigger] actions[j],
                )
        }),
{
    lemma_broadcast_deliveries(workers, msg, except);
    let d = broadcast_deliveries(workers, msg, except);
    let actions = as_actions(d);
    assert forall|i: int| 0 <= i < actions.len() implies #[trigger] actions[i]
        == SupervisorActionView::Deliver((d[i].0, msg)) by {
        assert(d[i].1 == msg);
    }
    assert forall|i: int| 0 <= i < actions.len() implies exists|t: Seq<char>|
        #[trigger] actions[i] == SupervisorActionView::Deliver((t, msg)) && has_key(workers, t)
            && except != Some(t) by {
        assert(actions[i] == SupervisorActionView::Deliver((d[i].0, msg)));
    }
    assert forall|k: Seq<char>| #[trigger] has_key(workers, k) && except != Some(k) implies exists|
        i: int,
    | 0 <= i < actions.len() && #[trigger] actions[i] == SupervisorActionView::Deliver((k, msg)) by {
        let i = choose|i: int| 0 <= i < d.len() && (#[trigger] d[i]).0 == k;
        assert(actions[i] == SupervisorActionView::Deliver((d[i].0, msg)));
    }
    assert forall|i: int, j: int| 0 <= i < j < actions.len() implies action_target(
        #[trigger] actions[i],
    ) != action_target(#[trigger] actions[j]) by {
        assert(actions[i] == SupervisorActionView::Deliver((d[i].0, msg)));
        assert(actions[j] == SupervisorActionView::Deliver((d[j].0, msg)));
    }
}

/// A removal undoes an admission: admitting a worker and then removing it
/// leaves every other registration as it was; if the worker was not
/// registered before, the registry is exactly as before, order included.
pub proof fn lemma_remove_undoes_admit(
    supervisor_id: Seq<char>,
    secret: Seq<u8>,
    workers: Seq<(Seq<char>, WorkerInfoView)>,
    node_id: Seq<char>,
    addr: PeerAddr,
    pub_key: Seq<u8>,
)
    requires
        distinct_keys(workers),
    ensures
        ({
            let admitted = supervisor_step(
                supervisor_id,
                secret,
                workers,
                SupervisorEventView::Admit { node_id, addr, pub_key },
            ).0;
            let back = supervisor_step(
                supervisor_id,
                secret,
                admitted,
                SupervisorEventView::Remove { node_id },
            ).0;
            &&& lookup(back, node_id) is None
            &&& forall|k: Seq<char>| k != node_id ==> #[trigger] lookup(back, k) == lookup(workers, k)
            &&& !has_key(workers, node_id) ==> back == workers
        }),
{
    let info = WorkerInfoView { addr, pub_key };
    let admitted = upserted(workers, node_id, info);
    lemma_upserted(workers, node_id, info);
    lemma_removed(admitted, node_id);
    if !has_key(workers, node_id) {
        let n = workers.len() as int;
        assert(admitted == workers.push((node_id, info)));
        assert(admitted[n].0 == node_id);
        lemma_key_index(admitted, node_id, n);
        assert(removed(admitted, node_id) =~= workers);
    }
}

} // verus!
