//! The decisions of the supervisor's session with one worker: which first
//! line opens a session, what the session reports to the core, and when it
//! ends.
use vstd::prelude::*;
use crate::crypto::{ed25519_public_key, ed25519_signature, hello_payload};
use crate::protocol::{
    Incoming, NodeToServer, NodeToServerView, PeerAddr, ServerToNodeView, SupervisorEvent,
    SupervisorEventView, WireMessage, WireView, copy_bytes,
};
use crate::registry::{distinct_keys, lookup};
use crate::supervisor_core::{
    SupervisorActionView, WorkerInfoView, lemma_admission, supervisor_step,
};

verus! {

/// The hello that opens a session: the first line must be a worker's hello.
pub open spec fn hello_of(incoming: Incoming) -> Option<NodeToServerView> {
    match incoming {
        Incoming::Message(WireMessage::NodeToServer(m)) => match m@ {
            NodeToServerView::Hello { .. } => Some(m@),
            _ => None,
        },
        _ => None,
    }
}

/// The worker's hello, if the first line of the session is one; anything
/// else (a closed connection, a garbled line, another message) ends the
/// session before it starts.
pub fn accept_hello(incoming: Incoming) -> (r: Option<NodeToServer>)
    ensures
        r is None <==> hello_of(incoming) is None,
        r matches Some(h) ==> hello_of(incoming) == Some(h@),
{
    match incoming {
        Incoming::Message(WireMessage::NodeToServer(m)) => match m {
            NodeToServer::Hello { node_id, pub_key, signature } => Some(
                NodeToServer::Hello { node_id, pub_key, signature },
            ),
            _ => None,
        },
        _ => None,
    }
}

/// The admission asked for a worker that said `hello` from `addr`.
pub open spec fn admission_of(hello: NodeToServerView, addr: PeerAddr) -> Option<
    SupervisorEventView,
> {
    match hello {
        NodeToServerView::Hello { node_id, pub_key, .. } => Some(
            SupervisorEventView::Admit { node_id, addr, pub_key },
        ),
        _ => None,
    }
}

/// The admission that a session asks of the core once the worker has said
/// hello from `addr`: its id, its address and its public key.
pub fn admit_event(hello: &NodeToServer, addr: PeerAddr) -> (r: Option<SupervisorEvent>)
    ensures
        r is None <==> admission_of(hello@, addr) is None,
        r matches Some(e) ==> admission_of(hello@, addr) == Some(e@),
{
    match hello {
        NodeToServer::Hello { node_id, pub_key, .. } => Some(
            SupervisorEvent::Admit { node_id: node_id.clone(), addr, pub_key: copy_bytes(pub_key) },
        ),
        _ => None,
    }
}

/// The removal that a session asks of the core when its worker is gone.
pub fn remove_event(hello: &NodeToServer) -> (r: Option<SupervisorEvent>)
    ensures
        match hello@ {
            NodeToServerView::Hello { node_id, .. } => r matches Some(e) && e@
                == SupervisorEventView::Remove { node_id },
            _ => r is None,
        },
{
    match hello {
        NodeToServer::Hello { node_id, .. } => Some(
            SupervisorEvent::Remove { node_id: node_id.clone() },
        ),
        _ => None,
    }
}

/// What the session's reader does with one line.
#[derive(Clone, Debug, PartialEq, Eq)]
pub enum ReaderStep {
    /// Read the next line.
    Continue,
    /// Report this event to the core and read the next line.
    Forward(SupervisorEvent),
    /// The worker is gone: end the reader.
    Stop,
}

/// The reader of a worker's session: a heartbeat is reported to the core, a
/// disconnect or a closed connection ends the session, and anything else (a
/// garbled line among them) is passed over.
pub fn reader_step(incoming: Incoming) -> (r: ReaderStep)
    ensures
        match incoming {
            Incoming::Closed => r is Stop,
            Incoming::Message(WireMessage::NodeToServer(m)) => match m@ {
                NodeToServerView::Heartbeat { node_id, timestamp, .. } => r matches ReaderStep::Forward(
                    e,
                ) && e@ == SupervisorEventView::Heartbeat { node_id, timestamp },
                NodeToServerView::Disconnect { .. } => r is Stop,
                _ => r is Continue,
            },
            _ => r is Continue,
        },
{
    match incoming {
        Incoming::Closed => ReaderStep::Stop,
        Incoming::Message(WireMessage::NodeToServer(m)) => match m {
            NodeToServer::Heartbeat { node_id, timestamp, .. } => ReaderStep::Forward(
                SupervisorEvent::Heartbeat { node_id, timestamp },
            ),
            NodeToServer::Disconnect { .. } => ReaderStep::Stop,
            _ => ReaderStep::Continue,
        },
        _ => ReaderStep::Continue,
    }
}

/// Whether the plain read loop of a session goes on after one line: it ends
/// when the connection closes or the worker disconnects.
pub fn read_loop_continues(incoming: &Incoming) -> (b: bool)
    ensures
        b == match incoming {
            Incoming::Closed => false,
            Incoming::Message(WireMessage::NodeToServer(NodeToServer::Disconnect { .. })) => false,
            _ => true,
        },
{
    match incoming {
        Incoming::Closed => false,
        Incoming::Message(WireMessage::NodeToServer(NodeToServer::Disconnect { .. })) => false,
        _ => true,
    }
}

/// The handshake (README, step 1): the hello a worker sends, arriving as the
/// first line of a session, opens it; the admission asked for carries the
/// worker's id, address and public key; the worker is then registered with
/// them, and the supervisor's first answer is the welcome addressed to it.
pub proof fn lemma_handshake(
    m: WireMessage,
    worker_id: Seq<char>,
    worker_key: Seq<u8>,
    addr: PeerAddr,
    supervisor_id: Seq<char>,
    secret: Seq<u8>,
    workers: Seq<(Seq<char>, WorkerInfoView)>,
)
    requires
        distinct_keys(workers),
        m@ == WireView::NodeToServer(
            NodeToServerView::Hello {
                node_id: worker_id,
                pub_key: ed25519_public_key(worker_key),
                signature: Some(ed25519_signature(worker_key, hello_payload(worker_id))),
            },
        ),
    ensures
        ({
            let hello = NodeToServerView::Hello {
                node_id: worker_id,
                pub_key: ed25519_public_key(worker_key),
                signature: Some(ed25519_signature(worker_key, hello_payload(worker_id))),
            };
            let event = SupervisorEventView::Admit {
                node_id: worker_id,
                addr,
                pub_key: ed25519_public_key(worker_key),
            };
            let (after, actions) = supervisor_step(supervisor_id, secret, workers, event);
            &&& hello_of(Incoming::Message(m)) == Some(hello)
            &&& admission_of(hello, addr) == Some(event)
            &&& lookup(after, worker_id) == Some(
                WorkerInfoView { addr, pub_key: ed25519_public_key(worker_key) },
            )
            &&& actions[0] matches SupervisorActionView::Deliver(
                (t, WireView::ServerToNode(ServerToNodeView::Welcome { supervisor_id: s, .. })),
            ) && t == worker_id && s == supervisor_id
        }),
{
    lemma_admission(
        supervisor_id,
        secret,
        workers,
        worker_id,
        addr,
        ed25519_public_key(worker_key),
    );
}

/// Heartbeats: the heartbeat that a session forwards (see `reader_step`) is
/// reported by the core with the worker's id and timestamp, and changes no
/// registration.
pub proof fn lemma_heartbeat_reported(
    worker_id: Seq<char>,
    timestamp: u64,
    supervisor_id: Seq<char>,
    secret: Seq<u8>,
    workers: Seq<(Seq<char>, WorkerInfoView)>,
)
    ensures
        supervisor_step(
            supervisor_id,
            secret,
            workers,
            SupervisorEventView::Heartbeat { node_id: worker_id, timestamp },
        ) == (workers, seq![SupervisorActionView::ReportHeartbeat { node_id: worker_id, timestamp }]),
{
}

} // verus!
