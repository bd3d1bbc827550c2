use metastore::state_machine::MemStoreStateMachine;
use metastore::store::MemStore;
use metastore::text_map::TextMap;
use metastore::types::{ClientRequest, ClientResponse};

fn request(client: &str, serial: u64, status: &str) -> ClientRequest {
    ClientRequest { client: client.to_string(), serial, status: status.to_string() }
}

fn status(sto: &MemStore, key: &str) -> Option<String> {
    sto.get_state_machine().status(&key.to_string()).cloned()
}

#[test]
fn replay_is_answered_from_memory() {
    let mut sto = MemStore::new(1);
    let first = sto.apply_entry_to_state_machine(&1, &request("c1", 1, "A"));
    let second = sto.apply_entry_to_state_machine(&2, &request("c1", 1, "B"));
    assert_eq!(status(&sto, "c1"), Some("A".to_string()));
    assert_eq!(second, first);
    assert_eq!(first, ClientResponse { prev: None, result: Some("A".to_string()) });
}

#[test]
fn replay_still_moves_the_last_applied_index() {
    let mut sto = MemStore::new(1);
    sto.apply_entry_to_state_machine(&1, &request("c1", 1, "A"));
    sto.apply_entry_to_state_machine(&9, &request("c1", 1, "B"));
    assert_eq!(sto.get_state_machine().last_applied_log, 9);
}

#[test]
fn replay_after_an_overwrite_names_no_previous_status() {
    let mut sto = MemStore::new(1);
    sto.apply_entry_to_state_machine(&1, &request("c1", 1, "A"));
    let fresh = sto.apply_entry_to_state_machine(&2, &request("c1", 2, "B"));
    let again = sto.apply_entry_to_state_machine(&3, &request("c1", 2, "C"));
    assert_eq!(fresh, ClientResponse { prev: Some("A".to_string()), result: Some("B".to_string()) });
    assert_eq!(again, ClientResponse { prev: None, result: Some("B".to_string()) });
    assert_eq!(status(&sto, "c1"), Some("B".to_string()));
}

#[test]
fn sequential_writes_replace_the_status() {
    let mut sto = MemStore::new(1);
    sto.apply_entry_to_state_machine(&1, &request("c1", 1, "A"));
    let second = sto.apply_entry_to_state_machine(&2, &request("c1", 2, "B"));
    assert_eq!(status(&sto, "c1"), Some("B".to_string()));
    assert_eq!(second, ClientResponse { prev: Some("A".to_string()), result: Some("B".to_string()) });
}

#[test]
fn clients_do_not_share_serials() {
    let mut sto = MemStore::new(1);
    sto.apply_entry_to_state_machine(&1, &request("c1", 1, "A"));
    let other = sto.apply_entry_to_state_machine(&2, &request("c2", 1, "B"));
    assert_eq!(other, ClientResponse { prev: None, result: Some("B".to_string()) });
    assert_eq!(status(&sto, "c1"), Some("A".to_string()));
    assert_eq!(status(&sto, "c2"), Some("B".to_string()));
}

#[test]
fn the_serial_is_recorded_with_the_result() {
    let mut sto = MemStore::new(1);
    sto.apply_entry_to_state_machine(&1, &request("c1", 4, "A"));
    let recorded = sto.get_state_machine().client_serial_responses.get(&"c1".to_string());
    assert_eq!(recorded, Some(&(4u64, Some("A".to_string()))));
}

#[test]
fn an_unknown_key_has_no_status() {
    let sto = MemStore::new(1);
    assert_eq!(status(&sto, "nobody"), None);
}

#[test]
fn replication_applies_in_order_and_skips_replays() {
    let mut sto = MemStore::new(1);
    let a = request("c1", 1, "A");
    let b = request("c1", 1, "B");
    let c = request("c2", 7, "C");
    let d = request("c1", 2, "D");
    sto.replicate_to_state_machine(&[(&1, &a), (&2, &b), (&3, &c), (&4, &d)]);
    assert_eq!(status(&sto, "c1"), Some("D".to_string()));
    assert_eq!(status(&sto, "c2"), Some("C".to_string()));
    assert_eq!(sto.get_state_machine().last_applied_log, 4);
}

#[test]
fn replication_of_a_replay_keeps_the_first_status() {
    let mut sto = MemStore::new(1);
    let a = request("c1", 1, "A");
    let b = request("c1", 1, "B");
    sto.replicate_to_state_machine(&[(&1, &a), (&2, &b)]);
    assert_eq!(status(&sto, "c1"), Some("A".to_string()));
    assert_eq!(sto.get_state_machine().last_applied_log, 2);
}

#[test]
fn replication_of_nothing_changes_nothing() {
    let mut sto = MemStore::new(1);
    sto.apply_entry_to_state_machine(&3, &request("c1", 1, "A"));
    sto.replicate_to_state_machine(&[]);
    assert_eq!(sto.get_state_machine().last_applied_log, 3);
    assert_eq!(status(&sto, "c1"), Some("A".to_string()));
}

#[test]
fn a_fresh_state_machine_is_empty() {
    let sm = MemStoreStateMachine::default();
    assert_eq!(sm.last_applied_log, 0);
    assert_eq!(sm.client_status.len(), 0);
    assert_eq!(sm.client_serial_responses.len(), 0);
}

#[test]
fn state_machine_apply_works_on_its_own() {
    let mut sm = MemStoreStateMachine::default();
    let resp = sm.apply(5, &request("k", 0, "v"));
    assert_eq!(resp, ClientResponse { prev: None, result: Some("v".to_string()) });
    assert_eq!(sm.last_applied_log, 5);
    assert_eq!(sm.status(&"k".to_string()), Some(&"v".to_string()));
}

#[test]
fn text_map_insert_hands_back_the_old_value() {
    let mut map: TextMap<u32> = TextMap::new();
    assert_eq!(map.insert("a".to_string(), 1), None);
    assert_eq!(map.insert("b".to_string(), 2), None);
    assert_eq!(map.insert("a".to_string(), 3), Some(1));
    assert_eq!(map.len(), 2);
    assert_eq!(map.get(&"a".to_string()), Some(&3));
    assert_eq!(map.get(&"b".to_string()), Some(&2));
    assert_eq!(map.get(&"c".to_string()), None);
    assert!(map.contains_key(&"b".to_string()));
    assert!(!map.contains_key(&"".to_string()));
}

#[test]
fn text_map_pairs_hold_each_key_once() {
    let mut map: TextMap<u32> = TextMap::new();
    map.insert("a".to_string(), 1);
    map.insert("b".to_string(), 2);
    map.insert("a".to_string(), 3);
    let mut seen: Vec<(String, u32)> = Vec::new();
    for i in 0..map.len() {
        let (k, v) = map.pair_at(i);
        seen.push((k.clone(), *v));
    }
    seen.sort();
    assert_eq!(seen, vec![("a".to_string(), 3), ("b".to_string(), 2)]);
}
