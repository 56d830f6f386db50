//! A supervisor core that only keeps the registry and routes messages: an
//! admission registers the worker without welcoming it, and carries no key.
use vstd::prelude::*;
use crate::protocol::{PeerAddr, WireMessage, WireView};
use crate::registry::{
    distinct_keys, has_key, lemma_removed, lemma_upserted, lookup, removed, upserted,
};
use crate::supervisor_core::{
    Delivery, WorkerInfo, WorkerInfoView, WorkerRegistry, broadcast, broadcast_deliveries,
    deliveries_view, lemma_broadcast_deliveries, remove_worker,
};

verus! {

/// The events this core answers to. (The writer channel of an admitted
/// worker stays with the session runner.)
#[derive(Clone, Debug, PartialEq, Eq)]
pub enum SupervisorEvent {
    Admit { node_id: String, addr: PeerAddr },
    Remove { node_id: String },
    SendTo { node_id: String, msg: WireMessage },
    Broadcast { msg: WireMessage, except: Option<String> },
}

pub enum RoutingEventView {
    Admit { node_id: Seq<char>, addr: PeerAddr },
    Remove { node_id: Seq<char> },
    SendTo { node_id: Seq<char>, msg: WireView },
    Broadcast { msg: WireView, except: Option<Seq<char>> },
}

impl View for SupervisorEvent {
    type V = RoutingEventView;

    open spec fn view(&self) -> RoutingEventView {
        match self {
            SupervisorEvent::Admit { node_id, addr } => RoutingEventView::Admit {
                node_id: node_id@,
                addr: *addr,
            },
            SupervisorEvent::Remove { node_id } => RoutingEventView::Remove { node_id: node_id@ },
            SupervisorEvent::SendTo { node_id, msg } => RoutingEventView::SendTo {
                node_id: node_id@,
                msg: msg@,
            },
            SupervisorEvent::Broadcast { msg, except } => RoutingEventView::Broadcast {
                msg: msg@,
                except: match except {
                    Some(e) => Some(e@),
                    None => None,
                },
            },
        }
    }
}

/// The registry after an event, and the deliveries in answer to it.
pub open spec fn routing_step(
    workers: Seq<(Seq<char>, WorkerInfoView)>,
    event: RoutingEventView,
) -> (Seq<(Seq<char>, WorkerInfoView)>, Seq<(Seq<char>, WireView)>) {
    match event {
        RoutingEventView::Admit { node_id, addr } => (
            upserted(workers, node_id, WorkerInfoView { addr, pub_key: Seq::empty() }),
            Seq::empty(),
        ),
        RoutingEventView::Remove { node_id } => (removed(workers, node_id), Seq::empty()),
        RoutingEventView::SendTo { node_id, msg } => (
            workers,
            if has_key(workers, node_id) {
                seq![(node_id, msg)]
            } else {
                Seq::empty()
            },
        ),
        RoutingEventView::Broadcast { msg, except } => (
            workers,
            broadcast_deliveries(workers, msg, except),
        ),
    }
}

/// Applies one event: an admission registers the worker (replacing one of
/// the same id), a removal unregisters it, a message for a registered worker
/// is delivered to it, a broadcast goes to every registered worker but the
/// excepted one.
pub fn route_event(workers: &mut WorkerRegistry, event: SupervisorEvent) -> (out: Vec<Delivery>)
    requires
        old(workers).wf(),
    ensures
        final(workers).wf(),
        (final(workers)@, deliveries_view(out@)) == routing_step(old(workers)@, event@),
{
    match event {
        SupervisorEvent::Admit { node_id, addr } => {
            let info = WorkerInfo { addr, pub_key: Vec::new() };
            assert(info@ =~= WorkerInfoView { addr, pub_key: Seq::empty() });
            workers.insert(node_id, info);
            let out: Vec<Delivery> = Vec::new();
            assert(deliveries_view(out@) =~= Seq::<(Seq<char>, WireView)>::empty());
            out
        },
        SupervisorEvent::Remove { node_id } => {
            remove_worker(workers, &node_id);
            let out: Vec<Delivery> = Vec::new();
            assert(deliveries_view(out@) =~= Seq::<(Seq<char>, WireView)>::empty());
            out
        },
        SupervisorEvent::SendTo { node_id, msg } => {
            let mut out: Vec<Delivery> = Vec::new();
            if workers.contains_key(&node_id) {
                out.push(Delivery { node_id, msg });
            }
            assert(deliveries_view(out@) =~= routing_step(old(workers)@, event@).1);
            out
        },
        SupervisorEvent::Broadcast { msg, except } => broadcast(workers, &msg, &except),
    }
}

/// Routing without admission messages: an admission registers the worker with
/// its address and no key and sends nothing; a removal unregisters it and
/// sends nothing; neither changes another registration. A message for a
/// worker is delivered to it, once, exactly when it is registered. A
/// broadcast, with or without an excepted worker, reaches every registered
/// worker but the excepted one exactly once, with the message, and no one
/// else. Neither of the last two changes the registry.
pub proof fn lemma_routing_core(
    workers: Seq<(Seq<char>, WorkerInfoView)>,
    node_id: Seq<char>,
    addr: PeerAddr,
    msg: WireView,
    except: Option<Seq<char>>,
)
    requires
        distinct_keys(workers),
    ensures
        ({
            let (after, out) = routing_step(workers, RoutingEventView::Admit { node_id, addr });
            &&& distinct_keys(after)
            &&& lookup(after, node_id) == Some(WorkerInfoView { addr, pub_key: Seq::empty() })
            &&& forall|k: Seq<char>| k != node_id ==> #[trigger] lookup(after, k) == lookup(workers, k)
            &&& out.len() == 0
        }),
        ({
            let (after, out) = routing_step(workers, RoutingEventView::Remove { node_id });
            &&& distinct_keys(after)
            &&& lookup(after, node_id) is None
            &&& forall|k: Seq<char>| k != node_id ==> #[trigger] lookup(after, k) == lookup(workers, k)
            &&& out.len() == 0
        }),
        ({
            let (after, out) = routing_step(workers, RoutingEventView::SendTo { node_id, msg });
            &&& after == workers
            &&& has_key(workers, node_id) ==> out == seq![(node_id, msg)]
            &&& !has_key(workers, node_id) ==> out.len() == 0
        }),
        ({
            let (after, out) = routing_step(workers, RoutingEventView::Broadcast { msg, except });
            &&& after == workers
            &&& forall|i: int|
                0 <= i < out.len() ==> (#[trigger] out[i]).1 == msg && has_key(workers, out[i].0)
                    && except != Some(out[i].0)
            &&& forall|k: Seq<char>|
                #[trigger] has_key(workers, k) && except != Some(k) ==> exists|i: int|
                    0 <= i < out.len() && (#[trigger] out[i]).0 == k
            &&& forall|i: int, j: int|
                0 <= i < j < out.len() ==> (#[trigger] out[i]).0 != (#[trigger] out[j]).0
        }),
{
    lemma_upserted(workers, node_id, WorkerInfoView { addr, pub_key: Seq::empty() });
    lemma_removed(workers, node_id);
    lemma_broadcast_deliveries(workers, msg, except);
}

} // verus!
