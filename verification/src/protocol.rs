//! The messages that supervisors, workers and peers exchange, and the
//! events that the sessions hand to the two node cores.
//!
//! Every type has a view made of mathematical values (`Seq<char>` for text,
//! `Seq<u8>` for bytes), over which the contracts of the library are stated.
use vstd::prelude::*;

verus! {

/// A socket address, as the nodes announce it to one another.
#[derive(Clone, Copy, Debug, PartialEq, Eq)]
pub enum PeerAddr {
    V4 { octets: [u8; 4], port: u16 },
    V6 { segments: [u16; 8], port: u16, flowinfo: u32, scope_id: u32 },
}

/// The view of optional bytes (an optional signature).
pub open spec fn opt_bytes(o: Option<Vec<u8>>) -> Option<Seq<u8>> {
    match o {
        Some(v) => Some(v@),
        None => None,
    }
}

/// Node-to-supervisor messages.
#[derive(Clone, Debug, PartialEq, Eq)]
pub enum NodeToServer {
    Hello { node_id: String, pub_key: Vec<u8>, signature: Option<Vec<u8>> },
    Heartbeat { node_id: String, timestamp: u64, signature: Option<Vec<u8>> },
    Disconnect { reason: String, signature: Option<Vec<u8>> },
}

pub enum NodeToServerView {
    Hello { node_id: Seq<char>, pub_key: Seq<u8>, signature: Option<Seq<u8>> },
    Heartbeat { node_id: Seq<char>, timestamp: u64, signature: Option<Seq<u8>> },
    Disconnect { reason: Seq<char>, signature: Option<Seq<u8>> },
}

impl View for NodeToServer {
    type V = NodeToServerView;

    open spec fn view(&self) -> NodeToServerView {
        match self {
            NodeToServer::Hello { node_id, pub_key, signature } => NodeToServerView::Hello {
                node_id: node_id@,
                pub_key: pub_key@,
                signature: opt_bytes(*signature),
            },
            NodeToServer::Heartbeat { node_id, timestamp, signature } =>
                NodeToServerView::Heartbeat {
                node_id: node_id@,
                timestamp: *timestamp,
                signature: opt_bytes(*signature),
            },
            NodeToServer::Disconnect { reason, signature } => NodeToServerView::Disconnect {
                reason: reason@,
                signature: opt_bytes(*signature),
            },
        }
    }
}

/// Metadata about a peer node.
#[derive(Clone, Debug, PartialEq, Eq)]
pub struct PeerInfoMessage {
    pub node_id: String,
    pub addr: PeerAddr,
    pub pub_key: Vec<u8>,
    pub signature: Vec<u8>,
}

pub struct PeerInfoView {
    pub node_id: Seq<char>,
    pub addr: PeerAddr,
    pub pub_key: Seq<u8>,
    pub signature: Seq<u8>,
}

impl View for PeerInfoMessage {
    type V = PeerInfoView;

    open spec fn view(&self) -> PeerInfoView {
        PeerInfoView {
            node_id: self.node_id@,
            addr: self.addr,
            pub_key: self.pub_key@,
            signature: self.signature@,
        }
    }
}

/// The views of a list of peers.
pub open spec fn peers_view(peers: Seq<PeerInfoMessage>) -> Seq<PeerInfoView> {
    peers.map_values(|p: PeerInfoMessage| p@)
}

/// Supervisor-to-node messages.
#[derive(Clone, Debug, PartialEq, Eq)]
pub enum ServerToNode {
    Welcome {
        supervisor_id: String,
        supervisor_pub_key: Vec<u8>,
        peers: Vec<PeerInfoMessage>,
        signature: Vec<u8>,
    },
    NewPeer { node: PeerInfoMessage, signature: Vec<u8> },
    Command { payload: String, signature: Vec<u8> },
    Shutdown { reason: String, signature: Vec<u8> },
}

pub enum ServerToNodeView {
    Welcome {
        supervisor_id: Seq<char>,
        supervisor_pub_key: Seq<u8>,
        peers: Seq<PeerInfoView>,
        signature: Seq<u8>,
    },
    NewPeer { node: PeerInfoView, signature: Seq<u8> },
    Command { payload: Seq<char>, signature: Seq<u8> },
    Shutdown { reason: Seq<char>, signature: Seq<u8> },
}

impl View for ServerToNode {
    type V = ServerToNodeView;

    open spec fn view(&self) -> ServerToNodeView {
        match self {
            ServerToNode::Welcome { supervisor_id, supervisor_pub_key, peers, signature } =>
                ServerToNodeView::Welcome {
                supervisor_id: supervisor_id@,
                supervisor_pub_key: supervisor_pub_key@,
                peers: peers_view(peers@),
                signature: signature@,
            },
            ServerToNode::NewPeer { node, signature } => ServerToNodeView::NewPeer {
                node: node@,
                signature: signature@,
            },
            ServerToNode::Command { payload, signature } => ServerToNodeView::Command {
                payload: payload@,
                signature: signature@,
            },
            ServerToNode::Shutdown { reason, signature } => ServerToNodeView::Shutdown {
                reason: reason@,
                signature: signature@,
            },
        }
    }
}

/// Messages between worker nodes.
#[allow(inconsistent_fields)]
#[derive(Clone, Debug, PartialEq, Eq)]
pub enum NodeToNode {
    PeerHello { node_id: String, pub_key: Vec<u8>, signature: Option<Vec<u8>> },
    PeerMessage { from: String, payload: String, signature: Vec<u8> },
    JoinMessage { id: String, addr: PeerAddr, pub_key: Vec<u8>, signature: Vec<u8> },
}

#[allow(inconsistent_fields)]
pub enum NodeToNodeView {
    PeerHello { node_id: Seq<char>, pub_key: Seq<u8>, signature: Option<Seq<u8>> },
    PeerMessage { from: Seq<char>, payload: Seq<char>, signature: Seq<u8> },
    JoinMessage { id: Seq<char>, addr: PeerAddr, pub_key: Seq<u8>, signature: Seq<u8> },
}

impl View for NodeToNode {
    type V = NodeToNodeView;

    open spec fn view(&self) -> NodeToNodeView {
        match self {
            NodeToNode::PeerHello { node_id, pub_key, signature } => NodeToNodeView::PeerHello {
                node_id: node_id@,
                pub_key: pub_key@,
                signature: opt_bytes(*signature),
            },
            NodeToNode::PeerMessage { from, payload, signature } => NodeToNodeView::PeerMessage {
                from: from@,
                payload: payload@,
                signature: signature@,
            },
            NodeToNode::JoinMessage { id, addr, pub_key, signature } =>
                NodeToNodeView::JoinMessage {
                id: id@,
                addr: *addr,
                pub_key: pub_key@,
                signature: signature@,
            },
        }
    }
}

/// Supervisor-to-supervisor messages.
#[derive(Clone, Debug, PartialEq, Eq)]
pub enum ServerToServer {
    /// Signed by the sending supervisor.
    Sync { supervisor_id: String, signature: Vec<u8> },
}

pub enum ServerToServerView {
    Sync { supervisor_id: Seq<char>, signature: Seq<u8> },
}

impl View for ServerToServer {
    type V = ServerToServerView;

    open spec fn view(&self) -> ServerToServerView {
        match self {
            ServerToServer::Sync { supervisor_id, signature } => ServerToServerView::Sync {
                supervisor_id: supervisor_id@,
                signature: signature@,
            },
        }
    }
}

/// Every message that travels on a connection.
#[derive(Clone, Debug, PartialEq, Eq)]
pub enum WireMessage {
    NodeToServer(NodeToServer),
    ServerToNode(ServerToNode),
    NodeToNode(NodeToNode),
    ServerToServer(ServerToServer),
}

pub enum WireView {
    NodeToServer(NodeToServerView),
    ServerToNode(ServerToNodeView),
    NodeToNode(NodeToNodeView),
    ServerToServer(ServerToServerView),
}

impl View for WireMessage {
    type V = WireView;

    open spec fn view(&self) -> WireView {
        match self {
            WireMessage::NodeToServer(m) => WireView::NodeToServer(m@),
            WireMessage::ServerToNode(m) => WireView::ServerToNode(m@),
            WireMessage::NodeToNode(m) => WireView::NodeToNode(m@),
            WireMessage::ServerToServer(m) => WireView::ServerToServer(m@),
        }
    }
}

/// What the supervisor's sessions report to the supervisor core. The
/// writer channel of an admitted worker stays with the session runner,
/// which files it under the worker's id.
#[derive(Clone, Debug, PartialEq, Eq)]
pub enum SupervisorEvent {
    Admit { node_id: String, addr: PeerAddr, pub_key: Vec<u8> },
    Remove { node_id: String },
    SendTo { node_id: String, msg: WireMessage },
    Heartbeat { node_id: String, timestamp: u64 },
    Broadcast { msg: WireMessage, except: Option<String> },
}

pub enum SupervisorEventView {
    Admit { node_id: Seq<char>, addr: PeerAddr, pub_key: Seq<u8> },
    Remove { node_id: Seq<char> },
    SendTo { node_id: Seq<char>, msg: WireView },
    Heartbeat { node_id: Seq<char>, timestamp: u64 },
    Broadcast { msg: WireView, except: Option<Seq<char>> },
}

impl View for SupervisorEvent {
    type V = SupervisorEventView;

    open spec fn view(&self) -> SupervisorEventView {
        match self {
            SupervisorEvent::Admit { node_id, addr, pub_key } => SupervisorEventView::Admit {
                node_id: node_id@,
                addr: *addr,
                pub_key: pub_key@,
            },
            SupervisorEvent::Remove { node_id } => SupervisorEventView::Remove {
                node_id: node_id@,
            },
            SupervisorEvent::SendTo { node_id, msg } => SupervisorEventView::SendTo {
                node_id: node_id@,
                msg: msg@,
            },
            SupervisorEvent::Heartbeat { node_id, timestamp } => SupervisorEventView::Heartbeat {
                node_id: node_id@,
                timestamp: *timestamp,
            },
            SupervisorEvent::Broadcast { msg, except } => SupervisorEventView::Broadcast {
                msg: msg@,
                except: match except {
                    Some(e) => Some(e@),
                    None => None,
                },
            },
        }
    }
}

/// What a worker's sessions report to the worker core. The writer channel
/// of a greeting peer and the channel that answers its admission stay with
/// the session runner.
#[derive(Clone, Debug, PartialEq, Eq)]
pub enum WorkerEvent {
    SupervisorWelcome { supervisor_id: String, peers: Vec<PeerInfoMessage> },
    PeerHelloReceived {
        node_id: String,
        addr: PeerAddr,
        pub_key: Vec<u8>,
        signature: Option<Vec<u8>>,
    },
    NewPeer { peer: PeerInfoMessage },
    SupervisorShutdown { reason: String },
    MessageFromPeer { message: String },
}

pub enum WorkerEventView {
    SupervisorWelcome { supervisor_id: Seq<char>, peers: Seq<PeerInfoView> },
    PeerHelloReceived {
        node_id: Seq<char>,
        addr: PeerAddr,
        pub_key: Seq<u8>,
        signature: Option<Seq<u8>>,
    },
    NewPeer { peer: PeerInfoView },
    SupervisorShutdown { reason: Seq<char> },
    MessageFromPeer { message: Seq<char> },
}

impl View for WorkerEvent {
    type V = WorkerEventView;

    open spec fn view(&self) -> WorkerEventView {
        match self {
            WorkerEvent::SupervisorWelcome { supervisor_id, peers } =>
                WorkerEventView::SupervisorWelcome {
                supervisor_id: supervisor_id@,
                peers: peers_view(peers@),
            },
            WorkerEvent::PeerHelloReceived { node_id, addr, pub_key, signature } =>
                WorkerEventView::PeerHelloReceived {
                node_id: node_id@,
                addr: *addr,
                pub_key: pub_key@,
                signature: opt_bytes(*signature),
            },
            WorkerEvent::NewPeer { peer } => WorkerEventView::NewPeer { peer: peer@ },
            WorkerEvent::SupervisorShutdown { reason } => WorkerEventView::SupervisorShutdown {
                reason: reason@,
            },
            WorkerEvent::MessageFromPeer { message } => WorkerEventView::MessageFromPeer {
                message: message@,
            },
        }
    }
}

/// What a connection yields when one line is read from it and decoded.
#[derive(Clone, Debug, PartialEq, Eq)]
pub enum Incoming {
    /// The peer closed the connection (or the read failed).
    Closed,
    /// A line arrived that is not a wire message.
    Garbled,
    /// A line arrived that holds a wire message.
    Message(WireMessage),
}

/// Copies bytes, element by element.
pub fn copy_bytes(v: &Vec<u8>) -> (r: Vec<u8>)
    ensures
        r@ == v@,
{
    let mut r: Vec<u8> = Vec::new();
    let mut i: usize = 0;
    while i < v.len()
        invariant
            i <= v.len(),
            r@ == v@.subrange(0, i as int),
        decreases v.len() - i,
    {
        r.push(v[i]);
        i = i + 1;
    }
    r
}

/// Copies optional bytes.
pub fn copy_opt_bytes(o: &Option<Vec<u8>>) -> (r: Option<Vec<u8>>)
    ensures
        opt_bytes(r) == opt_bytes(*o),
{
    match o {
        Some(v) => Some(copy_bytes(v)),
        None => None,
    }
}

impl PeerInfoMessage {
    /// A copy with the same view.
    pub fn duplicate(&self) -> (r: PeerInfoMessage)
        ensures
            r@ == self@,
    {
        PeerInfoMessage {
            node_id: self.node_id.clone(),
            addr: self.addr,
            pub_key: copy_bytes(&self.pub_key),
            signature: copy_bytes(&self.signature),
        }
    }
}

/// Copies a list of peers.
pub fn duplicate_peers(v: &Vec<PeerInfoMessage>) -> (r: Vec<PeerInfoMessage>)
    ensures
        peers_view(r@) == peers_view(v@),
{
    let mut r: Vec<PeerInfoMessage> = Vec::new();
    let mut i: usize = 0;
    while i < v.len()
        invariant
            i <= v@.len(),
            r@.len() == i,
            forall|k: int| 0 <= k < i ==> #[trigger] r@[k]@ == v@[k]@,
        decreases v@.len() - i,
    {
        r.push(v[i].duplicate());
        i = i + 1;
    }
    assert(peers_view(r@) =~= peers_view(v@));
    r
}

impl NodeToServer {
    /// A copy with the same view.
    pub fn duplicate(&self) -> (r: NodeToServer)
        ensures
            r@ == self@,
    {
        match self {
            NodeToServer::Hello { node_id, pub_key, signature } => NodeToServer::Hello {
                node_id: node_id.clone(),
                pub_key: copy_bytes(pub_key),
                signature: copy_opt_bytes(signature),
            },
            NodeToServer::Heartbeat { node_id, timestamp, signature } => NodeToServer::Heartbeat {
                node_id: node_id.clone(),
                timestamp: *timestamp,
                signature: copy_opt_bytes(signature),
            },
            NodeToServer::Disconnect { reason, signature } => NodeToServer::Disconnect {
                reason: reason.clone(),
                signature: copy_opt_bytes(signature),
            },
        }
    }
}

impl ServerToNode {
    /// A copy with the same view.
    pub fn duplicate(&self) -> (r: ServerToNode)
        ensures
            r@ == self@,
    {
        match self {
            ServerToNode::Welcome { supervisor_id, supervisor_pub_key, peers, signature } =>
                ServerToNode::Welcome {
                supervisor_id: supervisor_id.clone(),
                supervisor_pub_key: copy_bytes(supervisor_pub_key),
                peers: duplicate_peers(peers),
                signature: copy_bytes(signature),
            },
            ServerToNode::NewPeer { node, signature } => ServerToNode::NewPeer {
                node: node.duplicate(),
                signature: copy_bytes(signature),
            },
            ServerToNode::Command { payload, signature } => ServerToNode::Command {
                payload: payload.clone(),
                signature: copy_bytes(signature),
            },
            ServerToNode::Shutdown { reason, signature } => ServerToNode::Shutdown {
                reason: reason.clone(),
                signature: copy_bytes(signature),
            },
        }
    }
}

impl NodeToNode {
    /// A copy with the same view.
    pub fn duplicate(&self) -> (r: NodeToNode)
        ensures
            r@ == self@,
    {
        match self {
            NodeToNode::PeerHello { node_id, pub_key, signature } => NodeToNode::PeerHello {
                node_id: node_id.clone(),
                pub_key: copy_bytes(pub_key),
                signature: copy_opt_bytes(signature),
            },
            NodeToNode::PeerMessage { from, payload, signature } => NodeToNode::PeerMessage {
                from: from.clone(),
                payload: payload.clone(),
                signature: copy_bytes(signature),
            },
            NodeToNode::JoinMessage { id, addr, pub_key, signature } => NodeToNode::JoinMessage {
                id: id.clone(),
                addr: *addr,
                pub_key: copy_bytes(pub_key),
                signature: copy_bytes(signature),
            },
        }
    }
}

impl ServerToServer {
    /// A copy with the same view.
    pub fn duplicate(&self) -> (r: ServerToServer)
        ensures
            r@ == self@,
    {
        match self {
            ServerToServer::Sync { supervisor_id, signature } => ServerToServer::Sync {
                supervisor_id: supervisor_id.clone(),
                signature: copy_bytes(signature),
            },
        }
    }
}

impl WireMessage {
    /// A copy with the same view.
    pub fn duplicate(&self) -> (r: WireMessage)
        ensures
            r@ == self@,
    {
        match self {
            WireMessage::NodeToServer(m) => WireMessage::NodeToServer(m.duplicate()),
            WireMessage::ServerToNode(m) => WireMessage::ServerToNode(m.duplicate()),
            WireMessage::NodeToNode(m) => WireMessage::NodeToNode(m.duplicate()),
            WireMessage::ServerToServer(m) => WireMessage::ServerToServer(m.duplicate()),
        }
    }
}

} // verus!
