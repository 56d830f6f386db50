use distributed_nodes::protocol::{
    Incoming, NodeToNode, NodeToServer, PeerAddr, PeerInfoMessage, ServerToNode, SupervisorEvent,
    WireMessage, WorkerEvent,
};
use distributed_nodes::registry::Registry;
use distributed_nodes::supervisor_core::{SupervisorAction, SupervisorCore};
use distributed_nodes::worker_core::{
    join_message_for, peers_to_connect, register_peer, run_core_step, CoreStep, PeerInfo, PeerRegistry, WorkerState,
};
use distributed_nodes::worker_session::{
    heartbeat_message, link_step, plain_hello_message, unsigned_heartbeat_message, LinkStep,
    PeerReadStep, PeerSession, SessionStep, SupervisorSession,
};
use ed25519_dalek::{Signature, SigningKey, Verifier};

fn addr(port: u16) -> PeerAddr {
    PeerAddr::V4 { octets: [10, 0, 0, 1], port }
}

fn info(id: &str, port: u16, key: Vec<u8>, sig: Vec<u8>) -> PeerInfoMessage {
    PeerInfoMessage { node_id: id.to_string(), addr: addr(port), pub_key: key, signature: sig }
}

fn ids(reg: &PeerRegistry) -> Vec<String> {
    (0..reg.len()).map(|i| reg.key_at(i).clone()).collect()
}

#[test]
fn peer_info_from_announcement() {
    let p = PeerInfo::new(info("a", 1, vec![5], vec![6]));
    assert_eq!(p, PeerInfo { node_id: "a".into(), addr: addr(1), pub_key: vec![5], signature: Some(vec![6]), connected: false });
}

#[test]
fn welcome_adds_unknown_peers_first_listing_wins() {
    let mut reg: PeerRegistry = Registry::new();
    reg.insert("a".into(), PeerInfo { node_id: "a".into(), addr: addr(9), pub_key: vec![], signature: None, connected: true });
    let step = run_core_step(&mut reg, WorkerEvent::SupervisorWelcome {
        supervisor_id: "s".into(),
        peers: vec![info("a", 1, vec![1], vec![]), info("b", 2, vec![2], vec![]), info("b", 3, vec![3], vec![])],
    });
    assert_eq!(step, CoreStep::Continue);
    assert_eq!(ids(&reg), vec!["a".to_string(), "b".to_string()]);
    assert_eq!(reg.value_at(0).addr, addr(9));
    assert!(reg.value_at(0).connected);
    assert_eq!(reg.value_at(1), &PeerInfo { node_id: "b".into(), addr: addr(2), pub_key: vec![2], signature: Some(vec![]), connected: false });
}

#[test]
fn peer_hello_connects_and_admits() {
    let mut reg: PeerRegistry = Registry::new();
    reg.insert("a".into(), PeerInfo::new(info("a", 1, vec![1], vec![4])));
    let step = run_core_step(&mut reg, WorkerEvent::PeerHelloReceived { node_id: "a".into(), addr: addr(50), pub_key: vec![9], signature: None });
    assert_eq!(step, CoreStep::Admitted { node_id: "a".into() });
    assert_eq!(reg.value_at(0), &PeerInfo { node_id: "a".into(), addr: addr(1), pub_key: vec![1], signature: Some(vec![4]), connected: true });
    let step = run_core_step(&mut reg, WorkerEvent::PeerHelloReceived { node_id: "z".into(), addr: addr(51), pub_key: vec![8], signature: Some(vec![7]) });
    assert_eq!(step, CoreStep::Admitted { node_id: "z".into() });
    assert_eq!(reg.value_at(1), &PeerInfo { node_id: "z".into(), addr: addr(51), pub_key: vec![8], signature: Some(vec![7]), connected: true });
}

#[test]
fn new_peer_added_unless_known() {
    let mut reg: PeerRegistry = Registry::new();
    let step = run_core_step(&mut reg, WorkerEvent::NewPeer { peer: info("n", 1, vec![1], vec![2]) });
    assert_eq!(step, CoreStep::PeerAdded { node_id: "n".into() });
    let step = run_core_step(&mut reg, WorkerEvent::NewPeer { peer: info("n", 7, vec![7], vec![7]) });
    assert_eq!(step, CoreStep::Continue);
    assert_eq!(reg.len(), 1);
    assert_eq!(reg.value_at(0).addr, addr(1));
}

#[test]
fn shutdown_and_peer_messages_are_reported() {
    let mut reg: PeerRegistry = Registry::new();
    assert_eq!(run_core_step(&mut reg, WorkerEvent::SupervisorShutdown { reason: "bye".into() }), CoreStep::Shutdown { reason: "bye".into() });
    assert_eq!(run_core_step(&mut reg, WorkerEvent::MessageFromPeer { message: "m".into() }), CoreStep::PeerMessage { message: "m".into() });
    assert_eq!(reg.len(), 0);
}

#[test]
fn hello_is_signed_over_the_id() {
    let key = [11u8; 32];
    let m = SupervisorSession::hello_message("worker-1", &key);
    let sk = SigningKey::from_bytes(&key);
    match m {
        WireMessage::NodeToServer(NodeToServer::Hello { node_id, pub_key, signature }) => {
            assert_eq!(node_id, "worker-1");
            assert_eq!(pub_key, sk.verifying_key().to_bytes().to_vec());
            let sig: [u8; 64] = signature.unwrap().try_into().unwrap();
            assert!(sk.verifying_key().verify(b"worker-1", &Signature::from_bytes(&sig)).is_ok());
            assert!(sk.verifying_key().verify(b"worker-2", &Signature::from_bytes(&sig)).is_err());
        }
        other => panic!("{:?}", other),
    }
}

#[test]
fn heartbeat_is_signed_over_id_and_timestamp() {
    let key = [12u8; 32];
    let m = heartbeat_message("w", &key, 0x0102);
    let sk = SigningKey::from_bytes(&key);
    match m {
        WireMessage::NodeToServer(NodeToServer::Heartbeat { node_id, timestamp, signature }) => {
            assert_eq!(node_id, "w");
            assert_eq!(timestamp, 0x0102);
            let sig: [u8; 64] = signature.unwrap().try_into().unwrap();
            let mut payload = b"w".to_vec();
            payload.extend_from_slice(&0x0102u64.to_be_bytes());
            assert!(sk.verifying_key().verify(&payload, &Signature::from_bytes(&sig)).is_ok());
        }
        other => panic!("{:?}", other),
    }
}

#[test]
fn unsigned_messages() {
    assert_eq!(unsigned_heartbeat_message("w", 3), WireMessage::NodeToServer(NodeToServer::Heartbeat { node_id: "w".into(), timestamp: 3, signature: None }));
    assert_eq!(plain_hello_message("w"), WireMessage::NodeToServer(NodeToServer::Hello { node_id: "w".into(), pub_key: vec![], signature: None }));
    assert_eq!(SupervisorSession::disconnect_message(), WireMessage::NodeToServer(NodeToServer::Disconnect { reason: "worker session ended".into(), signature: None }));
}

#[test]
fn handshake_needs_a_welcome_first() {
    let welcome = ServerToNode::Welcome { supervisor_id: "s".into(), supervisor_pub_key: vec![1], peers: vec![info("p", 1, vec![], vec![])], signature: vec![2] };
    assert_eq!(
        SupervisorSession::welcome_event(Incoming::Message(WireMessage::ServerToNode(welcome))),
        Some(WorkerEvent::SupervisorWelcome { supervisor_id: "s".into(), peers: vec![info("p", 1, vec![], vec![])] })
    );
    let shutdown = WireMessage::ServerToNode(ServerToNode::Shutdown { reason: "r".into(), signature: vec![] });
    assert_eq!(SupervisorSession::welcome_event(Incoming::Message(shutdown)), None);
    assert_eq!(SupervisorSession::welcome_event(Incoming::Closed), None);
    assert_eq!(SupervisorSession::welcome_event(Incoming::Garbled), None);
}

#[test]
fn session_forwards_announcements_and_shutdown() {
    let np = WireMessage::ServerToNode(ServerToNode::NewPeer { node: info("q", 2, vec![3], vec![4]), signature: vec![4] });
    assert_eq!(SupervisorSession::session_step(Incoming::Message(np)), SessionStep::Forward(WorkerEvent::NewPeer { peer: info("q", 2, vec![3], vec![4]) }));
    let sd = WireMessage::ServerToNode(ServerToNode::Shutdown { reason: "down".into(), signature: vec![] });
    assert_eq!(SupervisorSession::session_step(Incoming::Message(sd)), SessionStep::ForwardAndStop(WorkerEvent::SupervisorShutdown { reason: "down".into() }));
    let cmd = WireMessage::ServerToNode(ServerToNode::Command { payload: "c".into(), signature: vec![] });
    assert_eq!(SupervisorSession::session_step(Incoming::Message(cmd)), SessionStep::Continue);
    assert_eq!(SupervisorSession::session_step(Incoming::Closed), SessionStep::Stop);
    assert_eq!(SupervisorSession::session_step(Incoming::Garbled), SessionStep::Stop);
}

#[test]
fn plain_link_reader() {
    let w = WireMessage::ServerToNode(ServerToNode::Welcome { supervisor_id: "s".into(), supervisor_pub_key: vec![], peers: vec![], signature: vec![] });
    assert_eq!(link_step(Incoming::Message(w)), LinkStep::Continue);
    let np = WireMessage::ServerToNode(ServerToNode::NewPeer { node: info("q", 2, vec![3], vec![4]), signature: vec![4] });
    assert_eq!(link_step(Incoming::Message(np)), LinkStep::Announce { node_id: "q".into(), addr: addr(2) });
    let sd = WireMessage::ServerToNode(ServerToNode::Shutdown { reason: "d".into(), signature: vec![] });
    assert_eq!(link_step(Incoming::Message(sd)), LinkStep::Stop);
    assert_eq!(link_step(Incoming::Closed), LinkStep::Stop);
    assert_eq!(link_step(Incoming::Garbled), LinkStep::Stop);
}

#[test]
fn peer_session_decisions() {
    let p = PeerInfo { node_id: "me".into(), addr: addr(1), pub_key: vec![5], signature: None, connected: false };
    assert_eq!(PeerSession::peer_hello_message(&p), WireMessage::NodeToNode(NodeToNode::PeerHello { node_id: "me".into(), pub_key: vec![5], signature: None }));
    let hello = WireMessage::NodeToNode(NodeToNode::PeerHello { node_id: "o".into(), pub_key: vec![6], signature: Some(vec![1]) });
    assert_eq!(
        PeerSession::inbound_peer_hello(Incoming::Message(hello), addr(77)),
        Some(WorkerEvent::PeerHelloReceived { node_id: "o".into(), addr: addr(77), pub_key: vec![6], signature: Some(vec![1]) })
    );
    let other = WireMessage::NodeToNode(NodeToNode::PeerMessage { from: "o".into(), payload: "x".into(), signature: vec![] });
    assert_eq!(PeerSession::inbound_peer_hello(Incoming::Message(other.clone()), addr(77)), None);
    assert_eq!(PeerSession::inbound_peer_hello(Incoming::Closed, addr(77)), None);
    assert_eq!(PeerSession::peer_read_step(Incoming::Message(other)), PeerReadStep::Notify(WorkerEvent::MessageFromPeer { message: "received from peer".into() }));
    let hb = WireMessage::NodeToServer(NodeToServer::Heartbeat { node_id: "o".into(), timestamp: 1, signature: None });
    assert_eq!(PeerSession::peer_read_step(Incoming::Message(hb)), PeerReadStep::Continue);
    assert_eq!(PeerSession::peer_read_step(Incoming::Garbled), PeerReadStep::Stop);
    assert_eq!(PeerSession::peer_read_step(Incoming::Closed), PeerReadStep::Stop);
}

#[test]
fn join_notice_by_address() {
    let mut reg: PeerRegistry = Registry::new();
    register_peer(&mut reg, "10.0.0.1:5".into(), "p".into(), addr(5));
    assert_eq!(
        join_message_for(&reg, &"10.0.0.1:5".to_string()),
        Some(WireMessage::NodeToNode(NodeToNode::JoinMessage { id: "p".into(), addr: addr(5), pub_key: vec![], signature: vec![] }))
    );
    assert_eq!(join_message_for(&reg, &"10.0.0.1:6".to_string()), None);
}

#[test]
fn welcomed_worker_learns_the_other_workers() {
    let mut core = SupervisorCore::with_key("s".into(), [1u8; 32]);
    core.handle_event(SupervisorEvent::Admit { node_id: "a".into(), addr: addr(1), pub_key: vec![1] });
    core.handle_event(SupervisorEvent::Admit { node_id: "b".into(), addr: addr(2), pub_key: vec![2] });
    let acts = core.handle_event(SupervisorEvent::Admit { node_id: "c".into(), addr: addr(3), pub_key: vec![3] });
    let welcome = match &acts[0] {
        SupervisorAction::Deliver(d) => d.msg.clone(),
        _ => panic!(),
    };
    let mut me = WorkerState::with_key("c".into(), [2u8; 32]);
    let ev = SupervisorSession::welcome_event(Incoming::Message(welcome)).unwrap();
    run_core_step(&mut me.peers, ev);
    assert_eq!(ids(&me.peers), vec!["a".to_string(), "b".to_string()]);
    assert_eq!(me.peers.value_at(1), &PeerInfo { node_id: "b".into(), addr: addr(2), pub_key: vec![2], signature: Some(vec![]), connected: false });
    let fresh = WorkerState::new("x".into()).unwrap();
    assert_eq!(fresh.id, "x");
    assert_eq!(fresh.peers.len(), 0);
}

#[test]
fn welcome_peers_are_dialled_once_unless_connected() {
    let mut reg: PeerRegistry = Registry::new();
    reg.insert("c".into(), PeerInfo { node_id: "c".into(), addr: addr(30), pub_key: vec![], signature: None, connected: true });
    let listed = vec![info("a", 1, vec![1], vec![]), info("b", 2, vec![2], vec![]), info("a", 3, vec![3], vec![]), info("c", 4, vec![4], vec![])];
    run_core_step(&mut reg, WorkerEvent::SupervisorWelcome { supervisor_id: "s".into(), peers: listed.clone() });
    let dial = peers_to_connect(&reg, &listed);
    assert_eq!(
        dial,
        vec![
            PeerInfo { node_id: "a".into(), addr: addr(1), pub_key: vec![1], signature: Some(vec![]), connected: false },
            PeerInfo { node_id: "b".into(), addr: addr(2), pub_key: vec![2], signature: Some(vec![]), connected: false },
        ]
    );
    assert!(peers_to_connect(&reg, &vec![]).is_empty());
}

#[test]
fn hello_key_and_signature_lengths() {
    match SupervisorSession::hello_message("n", &[5u8; 32]) {
        WireMessage::NodeToServer(NodeToServer::Hello { pub_key, signature: Some(sig), .. }) => {
            assert_eq!(pub_key.len(), 32);
            assert_eq!(sig.len(), 64);
        }
        other => panic!("{:?}", other),
    }
    match heartbeat_message("n", &[5u8; 32], 7) {
        WireMessage::NodeToServer(NodeToServer::Heartbeat { signature: Some(sig), .. }) => assert_eq!(sig.len(), 64),
        other => panic!("{:?}", other),
    }
}
