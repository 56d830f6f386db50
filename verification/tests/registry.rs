use distributed_nodes::protocol::PeerAddr;
use distributed_nodes::registry::Registry;
use distributed_nodes::supervisor_core::WorkerInfo;

fn w(port: u16) -> WorkerInfo {
    WorkerInfo { addr: PeerAddr::V6 { segments: [0, 0, 0, 0, 0, 0, 0, 1], port, flowinfo: 0, scope_id: 0 }, pub_key: vec![port as u8] }
}

#[test]
fn registry_keeps_registration_order_and_unique_ids() {
    let mut r: Registry<WorkerInfo> = Registry::new();
    assert_eq!(r.len(), 0);
    r.insert("b".into(), w(1));
    r.insert("a".into(), w(2));
    r.insert("b".into(), w(3));
    assert_eq!(r.len(), 2);
    assert_eq!(r.key_at(0), "b");
    assert_eq!(r.value_at(0), &w(3));
    assert_eq!(r.find(&"a".to_string()), Some(1));
    assert_eq!(r.find(&"c".to_string()), None);
    assert!(r.contains_key(&"a".to_string()));
    assert_eq!(r.remove(&"b".to_string()), Some(w(3)));
    assert_eq!(r.remove(&"b".to_string()), None);
    assert_eq!(r.key_at(0), "a");
    r.set_value_at(0, w(9));
    assert_eq!(r.get(&"a".to_string()), Some(&w(9)));
}
