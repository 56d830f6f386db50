//! The decisions of a worker's sessions: with the supervisor (hello,
//! welcome, heartbeats, the messages that follow, disconnect) and with its
//! peers (peer hello, the messages that follow).
use vstd::prelude::*;
use vstd::string::*;
use vstd::utf8::encode_utf8;
use crate::crypto::{
    be_bytes, build_heartbeat_payload, ed25519_public_key, ed25519_signature, heartbeat_payload,
    hello_payload, public_key_bytes, sign_bytes,
};
use crate::protocol::{
    Incoming, NodeToNode, NodeToNodeView, NodeToServer, NodeToServerView, PeerAddr,
    ServerToNode, ServerToNodeView, WireMessage, WireView, WorkerEvent, WorkerEventView,
    copy_bytes,
};
use crate::worker_core::PeerInfo;

verus! {

/// A hello that carries only the worker's id: no key, no signature.
pub fn plain_hello_message(node_id: &str) -> (m: WireMessage)
    ensures
        m@ == WireView::NodeToServer(
            NodeToServerView::Hello { node_id: node_id@, pub_key: Seq::empty(), signature: None },
        ),
{
    let m = WireMessage::NodeToServer(
        NodeToServer::Hello { node_id: String::from_str(node_id), pub_key: Vec::new(), signature: None },
    );
    assert(m@ =~= WireView::NodeToServer(
        NodeToServerView::Hello { node_id: node_id@, pub_key: Seq::empty(), signature: None },
    ));
    m
}

/// A heartbeat at `timestamp`, signed over the worker's id and the
/// timestamp's big-endian bytes.
pub fn heartbeat_message(node_id: &str, signing_key: &[u8; 32], timestamp: u64) -> (m: WireMessage)
    ensures
        m@ == WireView::NodeToServer(
            NodeToServerView::Heartbeat {
                node_id: node_id@,
                timestamp,
                signature: Some(
                    ed25519_signature(signing_key@, heartbeat_payload(node_id@, timestamp)),
                ),
            },
        ),
        m matches WireMessage::NodeToServer(NodeToServer::Heartbeat { signature: Some(sig), .. })
            && sig@.len() == 64 && sig@ == ed25519_signature(
            signing_key@,
            encode_utf8(node_id@) + be_bytes(timestamp),
        ),
{
    let payload = build_heartbeat_payload(node_id, timestamp);
    let signature = sign_bytes(signing_key, payload.as_slice());
    WireMessage::NodeToServer(
        NodeToServer::Heartbeat {
            node_id: String::from_str(node_id),
            timestamp,
            signature: Some(signature),
        },
    )
}

/// A heartbeat at `timestamp` without a signature.
pub fn unsigned_heartbeat_message(node_id: &str, timestamp: u64) -> (m: WireMessage)
    ensures
        m@ == WireView::NodeToServer(
            NodeToServerView::Heartbeat { node_id: node_id@, timestamp, signature: None },
        ),
{
    WireMessage::NodeToServer(
        NodeToServer::Heartbeat { node_id: String::from_str(node_id), timestamp, signature: None },
    )
}

/// What the worker's session with the supervisor does with one line after
/// the handshake.
#[derive(Clone, Debug, PartialEq, Eq)]
pub enum SessionStep {
    /// Read the next line.
    Continue,
    /// Hand this event to the worker core and read the next line.
    Forward(WorkerEvent),
    /// Hand this event to the worker core and end the session.
    ForwardAndStop(WorkerEvent),
    /// End the session.
    Stop,
}

/// What the plain reader of the supervisor's messages does with one line.
#[derive(Clone, Debug, PartialEq, Eq)]
pub enum LinkStep {
    /// Read the next line.
    Continue,
    /// Report the announced peer and read the next line.
    Announce { node_id: String, addr: PeerAddr },
    /// End the reader (and signal the shutdown).
    Stop,
}

/// The plain reader of the supervisor's messages: a welcome is passed over,
/// an announced peer's id and address are reported, and anything else (a
/// shutdown, a closed connection, any other line) ends the reader.
pub fn link_step(incoming: Incoming) -> (r: LinkStep)
    ensures
        match incoming {
            Incoming::Message(WireMessage::ServerToNode(m)) => match m@ {
                ServerToNodeView::Welcome { .. } => r is Continue,
                ServerToNodeView::NewPeer { node, .. } => r matches LinkStep::Announce {
                    node_id,
                    addr,
                } && node_id@ == node.node_id && addr == node.addr,
                _ => r is Stop,
            },
            _ => r is Stop,
        },
{
    match incoming {
        Incoming::Message(WireMessage::ServerToNode(m)) => match m {
            ServerToNode::Welcome { .. } => LinkStep::Continue,
            ServerToNode::NewPeer { node, .. } => LinkStep::Announce {
                node_id: node.node_id,
                addr: node.addr,
            },
            _ => LinkStep::Stop,
        },
        _ => LinkStep::Stop,
    }
}

/// What the reader of a peer connection does with one line.
#[derive(Clone, Debug, PartialEq, Eq)]
pub enum PeerReadStep {
    /// Read the next line.
    Continue,
    /// Notify the worker core with this event and read the next line.
    Notify(WorkerEvent),
    /// End the reader.
    Stop,
}

/// The worker's session with the supervisor.
pub struct SupervisorSession;

impl SupervisorSession {
    /// The hello a worker sends first: its id, its public key, and its signature
    /// of its id.
    pub fn hello_message(node_id: &str, signing_key: &[u8; 32]) -> (m: WireMessage)
        ensures
            m@ == WireView::NodeToServer(
                NodeToServerView::Hello {
                    node_id: node_id@,
                    pub_key: ed25519_public_key(signing_key@),
                    signature: Some(ed25519_signature(signing_key@, hello_payload(node_id@))),
                },
            ),
            m matches WireMessage::NodeToServer(
                NodeToServer::Hello { pub_key, signature: Some(sig), .. },
            ) && pub_key@.len() == 32 && sig@.len() == 64 && sig@ == ed25519_signature(
                signing_key@,
                encode_utf8(node_id@),
            ),
    {
        let signature = sign_bytes(signing_key, node_id.as_bytes());
        WireMessage::NodeToServer(
            NodeToServer::Hello {
                node_id: String::from_str(node_id),
                pub_key: public_key_bytes(signing_key),
                signature: Some(signature),
            },
        )
    }

    /// The welcome that completes the handshake with the supervisor: the first
    /// line after the hello must be a welcome; it becomes the event that hands
    /// the supervisor's id and the listed peers to the worker core. Anything else
    /// (a closed connection, a garbled line, another message) fails the
    /// handshake.
    pub fn welcome_event(incoming: Incoming) -> (r: Option<WorkerEvent>)
        ensures
            match incoming {
                Incoming::Message(WireMessage::ServerToNode(m)) => match m@ {
                    ServerToNodeView::Welcome { supervisor_id, peers, .. } => r matches Some(e) && e@
                        == WorkerEventView::SupervisorWelcome { supervisor_id, peers },
                    _ => r is None,
                },
                _ => r is None,
            },
    {
        match incoming {
            Incoming::Message(WireMessage::ServerToNode(m)) => match m {
                ServerToNode::Welcome { supervisor_id, peers, .. } => Some(
                    WorkerEvent::SupervisorWelcome { supervisor_id, peers },
                ),
                _ => None,
            },
            _ => None,
        }
    }

    /// The session with the supervisor: an announced peer is handed to the core;
    /// a shutdown is handed to the core and ends the session; a closed connection
    /// or a garbled line ends it; anything else is passed over.
    pub fn session_step(incoming: Incoming) -> (r: SessionStep)
        ensures
            match incoming {
                Incoming::Message(WireMessage::ServerToNode(m)) => match m@ {
                    ServerToNodeView::NewPeer { node, .. } => r matches SessionStep::Forward(e) && e@
                        == WorkerEventView::NewPeer { peer: node },
                    ServerToNodeView::Shutdown { reason, .. } => r matches SessionStep::ForwardAndStop(
                        e,
                    ) && e@ == WorkerEventView::SupervisorShutdown { reason },
                    _ => r is Continue,
                },
                Incoming::Message(_) => r is Continue,
                _ => r is Stop,
            },
    {
        match incoming {
            Incoming::Message(WireMessage::ServerToNode(m)) => match m {
                ServerToNode::NewPeer { node, .. } => SessionStep::Forward(
                    WorkerEvent::NewPeer { peer: node },
                ),
                ServerToNode::Shutdown { reason, .. } => SessionStep::ForwardAndStop(
                    WorkerEvent::SupervisorShutdown { reason },
                ),
                _ => SessionStep::Continue,
            },
            Incoming::Message(_) => SessionStep::Continue,
            _ => SessionStep::Stop,
        }
    }

    /// The notice a worker sends when its session with the supervisor ends.
    pub fn disconnect_message() -> (m: WireMessage)
        ensures
            m@ == WireView::NodeToServer(
                NodeToServerView::Disconnect { reason: "worker session ended"@, signature: None },
            ),
    {
        WireMessage::NodeToServer(
            NodeToServer::Disconnect {
                reason: String::from_str("worker session ended"),
                signature: None,
            },
        )
    }
}

/// A worker's session with one of its peers.
pub struct PeerSession;

impl PeerSession {
    /// The hello a worker sends on a connection it opens to a peer: the peer
    /// record's id and key, unsigned.
    pub fn peer_hello_message(peer: &PeerInfo) -> (m: WireMessage)
        ensures
            m@ == WireView::NodeToNode(
                NodeToNodeView::PeerHello {
                    node_id: peer.node_id@,
                    pub_key: peer.pub_key@,
                    signature: None,
                },
            ),
    {
        WireMessage::NodeToNode(
            NodeToNode::PeerHello {
                node_id: peer.node_id.clone(),
                pub_key: copy_bytes(&peer.pub_key),
                signature: None,
            },
        )
    }

    /// The greeting of a peer that connected to this worker from `addr`: the
    /// first line must be a peer hello; it becomes the event that asks the core
    /// to admit the peer. Anything else ends the connection.
    pub fn inbound_peer_hello(incoming: Incoming, addr: PeerAddr) -> (r: Option<WorkerEvent>)
        ensures
            match incoming {
                Incoming::Message(WireMessage::NodeToNode(m)) => match m@ {
                    NodeToNodeView::PeerHello { node_id, pub_key, signature } => r matches Some(e)
                        && e@ == WorkerEventView::PeerHelloReceived {
                        node_id,
                        addr,
                        pub_key,
                        signature,
                    },
                    _ => r is None,
                },
                _ => r is None,
            },
    {
        match incoming {
            Incoming::Message(WireMessage::NodeToNode(m)) => match m {
                NodeToNode::PeerHello { node_id, pub_key, signature } => Some(
                    WorkerEvent::PeerHelloReceived { node_id, addr, pub_key, signature },
                ),
                _ => None,
            },
            _ => None,
        }
    }

    /// The reader of a peer connection: any peer-to-peer message becomes a
    /// notice of a message from a peer; other messages are passed over; a closed
    /// connection or a garbled line ends the reader.
    pub fn peer_read_step(incoming: Incoming) -> (r: PeerReadStep)
        ensures
            match incoming {
                Incoming::Message(WireMessage::NodeToNode(_)) => r matches PeerReadStep::Notify(e) && e@
                    == WorkerEventView::MessageFromPeer { message: "received from peer"@ },
                Incoming::Message(_) => r is Continue,
                _ => r is Stop,
            },
    {
        match incoming {
            Incoming::Message(WireMessage::NodeToNode(_)) => PeerReadStep::Notify(
                WorkerEvent::MessageFromPeer { message: String::from_str("received from peer") },
            ),
            Incoming::Message(_) => PeerReadStep::Continue,
            _ => PeerReadStep::Stop,
        }
    }
}

} // verus!
