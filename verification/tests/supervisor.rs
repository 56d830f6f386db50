use distributed_nodes::protocol::{
    Incoming, NodeToNode, NodeToServer, PeerAddr, PeerInfoMessage, ServerToNode, SupervisorEvent,
    WireMessage,
};
use distributed_nodes::registry::Registry;
use distributed_nodes::registry_core::{self, route_event};
use distributed_nodes::supervisor_core::{
    admit_and_welcome, broadcast, remove_worker, Delivery, SupervisorAction, SupervisorCore,
    WorkerInfo, WorkerRegistry,
};
use distributed_nodes::supervisor_session::{
    accept_hello, admit_event, read_loop_continues, reader_step, remove_event, ReaderStep,
};
use distributed_nodes::worker_session::SupervisorSession;
use ed25519_dalek::{Signature, SigningKey, Verifier, VerifyingKey};

const SUP_KEY: [u8; 32] = [7u8; 32];

fn addr(port: u16) -> PeerAddr {
    PeerAddr::V4 { octets: [127, 0, 0, 1], port }
}

fn ids(reg: &WorkerRegistry) -> Vec<String> {
    (0..reg.len()).map(|i| reg.key_at(i).clone()).collect()
}

fn welcome_parts(d: &Delivery) -> (String, Vec<u8>, Vec<PeerInfoMessage>, Vec<u8>) {
    match &d.msg {
        WireMessage::ServerToNode(ServerToNode::Welcome { supervisor_id, supervisor_pub_key, peers, signature }) => {
            (supervisor_id.clone(), supervisor_pub_key.clone(), peers.clone(), signature.clone())
        }
        other => panic!("not a welcome: {:?}", other),
    }
}

fn verify(pk: &[u8], msg: &[u8], sig: &[u8]) -> bool {
    let pk: [u8; 32] = pk.try_into().unwrap();
    let sig: [u8; 64] = sig.try_into().unwrap();
    VerifyingKey::from_bytes(&pk).unwrap().verify(msg, &Signature::from_bytes(&sig)).is_ok()
}

#[test]
fn first_admission_is_welcomed_alone() {
    let mut reg: WorkerRegistry = Registry::new();
    let out = admit_and_welcome(&mut reg, &SUP_KEY, "sup-1", "w1".to_string(), addr(1), vec![1, 2]);
    assert_eq!(ids(&reg), vec!["w1".to_string()]);
    assert_eq!(reg.get(&"w1".to_string()), Some(&WorkerInfo { addr: addr(1), pub_key: vec![1, 2] }));
    assert_eq!(out.len(), 1);
    assert_eq!(out[0].node_id, "w1");
    let (sid, spk, peers, sig) = welcome_parts(&out[0]);
    assert_eq!(sid, "sup-1");
    assert_eq!(spk, SigningKey::from_bytes(&SUP_KEY).verifying_key().to_bytes().to_vec());
    assert!(peers.is_empty());
    assert_eq!(sig.len(), 64);
    assert!(verify(&spk, b"w1", &sig));
}

#[test]
fn second_admission_lists_and_announces() {
    let mut reg: WorkerRegistry = Registry::new();
    admit_and_welcome(&mut reg, &SUP_KEY, "sup-1", "w1".to_string(), addr(1), vec![1, 2]);
    let out = admit_and_welcome(&mut reg, &SUP_KEY, "sup-1", "w2".to_string(), addr(2), vec![3]);
    assert_eq!(ids(&reg), vec!["w1".to_string(), "w2".to_string()]);
    assert_eq!(out.len(), 2);
    assert_eq!(out[0].node_id, "w2");
    let (_, spk, peers, sig) = welcome_parts(&out[0]);
    assert_eq!(
        peers,
        vec![PeerInfoMessage { node_id: "w1".to_string(), addr: addr(1), pub_key: vec![1, 2], signature: vec![] }]
    );
    assert!(verify(&spk, &[b'w', b'2', b'w', b'1', 1, 2], &sig));
    assert_eq!(
        out[1],
        Delivery {
            node_id: "w1".to_string(),
            msg: WireMessage::ServerToNode(ServerToNode::NewPeer {
                node: PeerInfoMessage { node_id: "w2".to_string(), addr: addr(2), pub_key: vec![3], signature: sig.clone() },
                signature: sig.clone(),
            }),
        }
    );
}

#[test]
fn each_other_worker_is_announced_once() {
    let mut reg: WorkerRegistry = Registry::new();
    for (i, id) in ["a", "b", "c"].iter().enumerate() {
        admit_and_welcome(&mut reg, &SUP_KEY, "s", id.to_string(), addr(i as u16), vec![i as u8]);
    }
    let out = admit_and_welcome(&mut reg, &SUP_KEY, "s", "d".to_string(), addr(9), vec![]);
    let targets: Vec<String> = out.iter().map(|d| d.node_id.clone()).collect();
    assert_eq!(targets, vec!["d", "a", "b", "c"]);
    let (_, _, peers, _) = welcome_parts(&out[0]);
    let listed: Vec<String> = peers.iter().map(|p| p.node_id.clone()).collect();
    assert_eq!(listed, vec!["a", "b", "c"]);
}

#[test]
fn readmission_replaces_in_place() {
    let mut reg: WorkerRegistry = Registry::new();
    admit_and_welcome(&mut reg, &SUP_KEY, "s", "a".to_string(), addr(1), vec![1]);
    admit_and_welcome(&mut reg, &SUP_KEY, "s", "b".to_string(), addr(2), vec![2]);
    let out = admit_and_welcome(&mut reg, &SUP_KEY, "s", "a".to_string(), addr(3), vec![3]);
    assert_eq!(ids(&reg), vec!["a".to_string(), "b".to_string()]);
    assert_eq!(reg.value_at(0), &WorkerInfo { addr: addr(3), pub_key: vec![3] });
    let targets: Vec<String> = out.iter().map(|d| d.node_id.clone()).collect();
    assert_eq!(targets, vec!["a", "b"]);
}

#[test]
fn core_routes_events() {
    let mut core = SupervisorCore::with_key("sup-1".to_string(), SUP_KEY);
    let acts = core.handle_event(SupervisorEvent::Admit { node_id: "a".into(), addr: addr(1), pub_key: vec![1] });
    assert_eq!(acts.len(), 1);
    let acts = core.handle_event(SupervisorEvent::Admit { node_id: "b".into(), addr: addr(2), pub_key: vec![2] });
    assert_eq!(acts.len(), 2);
    assert!(matches!(&acts[1], SupervisorAction::Deliver(d) if d.node_id == "a"));

    let msg = WireMessage::ServerToNode(ServerToNode::Command { payload: "go".into(), signature: vec![] });
    let acts = core.handle_event(SupervisorEvent::SendTo { node_id: "b".into(), msg: msg.clone() });
    assert_eq!(acts, vec![SupervisorAction::Deliver(Delivery { node_id: "b".into(), msg: msg.clone() })]);
    let acts = core.handle_event(SupervisorEvent::SendTo { node_id: "zz".into(), msg: msg.clone() });
    assert!(acts.is_empty());

    let acts = core.handle_event(SupervisorEvent::Broadcast { msg: msg.clone(), except: Some("a".into()) });
    assert_eq!(acts, vec![SupervisorAction::Deliver(Delivery { node_id: "b".into(), msg: msg.clone() })]);
    let acts = core.handle_event(SupervisorEvent::Broadcast { msg: msg.clone(), except: None });
    assert_eq!(acts.len(), 2);

    let acts = core.handle_event(SupervisorEvent::Heartbeat { node_id: "a".into(), timestamp: 42 });
    assert_eq!(acts, vec![SupervisorAction::ReportHeartbeat { node_id: "a".into(), timestamp: 42 }]);

    let acts = core.handle_event(SupervisorEvent::Remove { node_id: "a".into() });
    assert!(acts.is_empty());
    assert_eq!(ids(&core.workers), vec!["b".to_string()]);
    let acts = core.handle_event(SupervisorEvent::Remove { node_id: "a".into() });
    assert!(acts.is_empty());
    assert_eq!(core.id, "sup-1");
}

#[test]
fn fresh_core_is_named_sup_1() {
    let core = SupervisorCore::new().unwrap();
    assert_eq!(core.id, "sup-1");
    assert_eq!(core.workers.len(), 0);
}

#[test]
fn broadcast_and_remove_worker() {
    let mut reg: WorkerRegistry = Registry::new();
    reg.insert("x".into(), WorkerInfo { addr: addr(1), pub_key: vec![] });
    reg.insert("y".into(), WorkerInfo { addr: addr(2), pub_key: vec![] });
    let msg = WireMessage::NodeToNode(NodeToNode::PeerMessage { from: "x".into(), payload: "p".into(), signature: vec![] });
    let out = broadcast(&reg, &msg, &Some("y".into()));
    assert_eq!(out, vec![Delivery { node_id: "x".into(), msg: msg.clone() }]);
    remove_worker(&mut reg, &"x".to_string());
    assert_eq!(ids(&reg), vec!["y".to_string()]);
    assert!(reg.get(&"x".to_string()).is_none());
}

#[test]
fn routing_core_admits_without_welcome() {
    let mut reg: WorkerRegistry = Registry::new();
    let out = route_event(&mut reg, registry_core::SupervisorEvent::Admit { node_id: "a".into(), addr: addr(5) });
    assert!(out.is_empty());
    assert_eq!(reg.get(&"a".to_string()), Some(&WorkerInfo { addr: addr(5), pub_key: vec![] }));
    let msg = WireMessage::ServerToNode(ServerToNode::Shutdown { reason: "r".into(), signature: vec![] });
    let out = route_event(&mut reg, registry_core::SupervisorEvent::SendTo { node_id: "a".into(), msg: msg.clone() });
    assert_eq!(out, vec![Delivery { node_id: "a".into(), msg: msg.clone() }]);
    let out = route_event(&mut reg, registry_core::SupervisorEvent::Broadcast { msg: msg.clone(), except: Some("a".into()) });
    assert!(out.is_empty());
    let out = route_event(&mut reg, registry_core::SupervisorEvent::Remove { node_id: "a".into() });
    assert!(out.is_empty());
    assert_eq!(reg.len(), 0);
}

#[test]
fn session_accepts_only_a_hello_first() {
    let hello = NodeToServer::Hello { node_id: "w".into(), pub_key: vec![1], signature: None };
    assert_eq!(accept_hello(Incoming::Message(WireMessage::NodeToServer(hello.clone()))), Some(hello.clone()));
    assert_eq!(accept_hello(Incoming::Closed), None);
    assert_eq!(accept_hello(Incoming::Garbled), None);
    let hb = NodeToServer::Heartbeat { node_id: "w".into(), timestamp: 1, signature: None };
    assert_eq!(accept_hello(Incoming::Message(WireMessage::NodeToServer(hb.clone()))), None);

    assert_eq!(
        admit_event(&hello, addr(7)),
        Some(SupervisorEvent::Admit { node_id: "w".into(), addr: addr(7), pub_key: vec![1] })
    );
    assert_eq!(remove_event(&hello), Some(SupervisorEvent::Remove { node_id: "w".into() }));
    assert_eq!(admit_event(&hb, addr(7)), None);
    assert_eq!(remove_event(&hb), None);
}

#[test]
fn worker_hello_opens_a_session_and_gets_welcomed() {
    let key = [3u8; 32];
    let m = SupervisorSession::hello_message("w9", &key);
    let hello = accept_hello(Incoming::Message(m)).unwrap();
    let ev = admit_event(&hello, addr(4)).unwrap();
    let mut core = SupervisorCore::with_key("s".into(), SUP_KEY);
    let acts = core.handle_event(ev);
    match &acts[0] {
        SupervisorAction::Deliver(d) => {
            assert_eq!(d.node_id, "w9");
            assert!(matches!(d.msg, WireMessage::ServerToNode(ServerToNode::Welcome { .. })));
        }
        _ => panic!("expected a welcome"),
    }
    let pk = SigningKey::from_bytes(&key).verifying_key().to_bytes().to_vec();
    assert_eq!(core.workers.get(&"w9".to_string()), Some(&WorkerInfo { addr: addr(4), pub_key: pk }));
}

#[test]
fn reader_forwards_heartbeats_and_stops_on_disconnect() {
    let hb = WireMessage::NodeToServer(NodeToServer::Heartbeat { node_id: "w".into(), timestamp: 5, signature: Some(vec![1]) });
    assert_eq!(reader_step(Incoming::Message(hb)), ReaderStep::Forward(SupervisorEvent::Heartbeat { node_id: "w".into(), timestamp: 5 }));
    let dc = WireMessage::NodeToServer(NodeToServer::Disconnect { reason: "x".into(), signature: None });
    assert_eq!(reader_step(Incoming::Message(dc.clone())), ReaderStep::Stop);
    assert_eq!(reader_step(Incoming::Closed), ReaderStep::Stop);
    assert_eq!(reader_step(Incoming::Garbled), ReaderStep::Continue);
    let hello = WireMessage::NodeToServer(NodeToServer::Hello { node_id: "w".into(), pub_key: vec![], signature: None });
    assert_eq!(reader_step(Incoming::Message(hello.clone())), ReaderStep::Continue);

    assert!(!read_loop_continues(&Incoming::Closed));
    assert!(!read_loop_continues(&Incoming::Message(dc)));
    assert!(read_loop_continues(&Incoming::Garbled));
    assert!(read_loop_continues(&Incoming::Message(hello)));
}

#[test]
fn remove_undoes_admit() {
    let mut core = SupervisorCore::with_key("s".into(), SUP_KEY);
    core.handle_event(SupervisorEvent::Admit { node_id: "a".into(), addr: addr(1), pub_key: vec![1] });
    core.handle_event(SupervisorEvent::Admit { node_id: "b".into(), addr: addr(2), pub_key: vec![2] });
    core.handle_event(SupervisorEvent::Admit { node_id: "n".into(), addr: addr(3), pub_key: vec![3] });
    core.handle_event(SupervisorEvent::Remove { node_id: "n".into() });
    assert_eq!(ids(&core.workers), vec!["a".to_string(), "b".to_string()]);
    assert_eq!(core.workers.value_at(1), &WorkerInfo { addr: addr(2), pub_key: vec![2] });
}

#[test]
fn worker_heartbeat_is_reported() {
    let m = distributed_nodes::worker_session::heartbeat_message("w", &[4u8; 32], 99);
    let ev = match reader_step(Incoming::Message(m)) {
        ReaderStep::Forward(e) => e,
        other => panic!("{:?}", other),
    };
    assert_eq!(ev, SupervisorEvent::Heartbeat { node_id: "w".into(), timestamp: 99 });
    let mut core = SupervisorCore::with_key("s".into(), SUP_KEY);
    assert_eq!(core.handle_event(ev), vec![SupervisorAction::ReportHeartbeat { node_id: "w".into(), timestamp: 99 }]);
    assert_eq!(core.workers.len(), 0);
}

#[test]
fn admission_signature_lengths() {
    let mut reg: WorkerRegistry = Registry::new();
    admit_and_welcome(&mut reg, &SUP_KEY, "s", "a".to_string(), addr(1), vec![1]);
    let out = admit_and_welcome(&mut reg, &SUP_KEY, "s", "b".to_string(), addr(2), vec![2]);
    let (_, spk, _, sig) = welcome_parts(&out[0]);
    assert_eq!(spk.len(), 32);
    assert_eq!(sig.len(), 64);
    match &out[1].msg {
        WireMessage::ServerToNode(ServerToNode::NewPeer { node, signature }) => {
            assert_eq!(signature.len(), 64);
            assert_eq!(node.signature.len(), 64);
        }
        other => panic!("{:?}", other),
    }
}
