use metastore::error::{MetaError, ShutdownError};
use metastore::log::LogStore;
use metastore::state_machine::MemStoreStateMachine;
use metastore::store::MemStore;
use metastore::types::{
    ClientRequest, Entry, EntryPayload, HardState, MemStoreSnapshot, MembershipConfig,
};

fn blank(index: u64, term: u64) -> Entry {
    Entry { term, index, payload: EntryPayload::Blank }
}

fn members(ids: &[u64]) -> MembershipConfig {
    MembershipConfig { members: ids.iter().copied().collect(), members_after_consensus: None }
}

fn config_change(index: u64, term: u64, ids: &[u64]) -> Entry {
    Entry { term, index, payload: EntryPayload::ConfigChange(members(ids)) }
}

fn request(client: &str, serial: u64, status: &str) -> ClientRequest {
    ClientRequest { client: client.to_string(), serial, status: status.to_string() }
}

#[test]
fn compaction_leaves_one_pointer_below_the_applied_index() {
    let mut sto = MemStore::new(1);
    for i in 1..=5u64 {
        sto.append_entry_to_log(&blank(i, 2));
    }
    sto.apply_entry_to_state_machine(&3, &request("c1", 1, "A"));
    let snapshot = sto.do_log_compaction(vec![1, 2, 3]).unwrap();
    let head = sto.get_log_entries(0, 4);
    assert_eq!(head, vec![Entry::new_snapshot_pointer(3, 2, String::new(), members(&[1]))]);
    let all: Vec<u64> = sto.get_log_entries(0, 100).iter().map(|e| e.index).collect();
    assert_eq!(all, vec![3, 4, 5]);
    assert_eq!(
        snapshot,
        MemStoreSnapshot { index: 3, term: 2, membership: members(&[1]), data: vec![1, 2, 3] }
    );
    assert_eq!(sto.get_current_snapshot(), Some(snapshot));
}

#[test]
fn compaction_keeps_the_state_machine() {
    let mut sto = MemStore::new(1);
    sto.append_entry_to_log(&blank(1, 1));
    sto.apply_entry_to_state_machine(&1, &request("c1", 1, "A"));
    sto.do_log_compaction(Vec::new()).unwrap();
    assert_eq!(sto.get_state_machine().last_applied_log, 1);
    assert_eq!(sto.get_state_machine().status(&"c1".to_string()), Some(&"A".to_string()));
}

#[test]
fn compaction_takes_the_membership_at_or_before_the_applied_index() {
    let mut sto = MemStore::new(1);
    sto.append_entry_to_log(&config_change(1, 1, &[1, 2]));
    sto.append_entry_to_log(&config_change(2, 1, &[1, 2, 3]));
    sto.append_entry_to_log(&blank(3, 1));
    sto.append_entry_to_log(&config_change(4, 1, &[1, 2, 3, 4]));
    sto.apply_entry_to_state_machine(&3, &request("c1", 1, "A"));
    let snapshot = sto.do_log_compaction(Vec::new()).unwrap();
    assert_eq!(snapshot.membership, members(&[1, 2, 3]));
    assert_eq!(snapshot.index, 3);
    assert_eq!(snapshot.term, 1);
    assert_eq!(sto.get_membership_config(), members(&[1, 2, 3, 4]));
}

#[test]
fn compaction_does_not_take_the_membership_of_a_snapshot_pointer() {
    let mut sto = MemStore::new(6);
    sto.append_entry_to_log(&Entry::new_snapshot_pointer(1, 1, String::new(), members(&[8, 9])));
    sto.append_entry_to_log(&blank(2, 1));
    sto.apply_entry_to_state_machine(&2, &request("c1", 1, "A"));
    let snapshot = sto.do_log_compaction(Vec::new()).unwrap();
    assert_eq!(snapshot.membership, members(&[6]));
}

#[test]
fn compaction_fails_where_the_applied_entry_is_missing() {
    let mut sto = MemStore::new(1);
    sto.append_entry_to_log(&blank(1, 1));
    sto.append_entry_to_log(&blank(2, 1));
    sto.apply_entry_to_state_machine(&7, &request("c1", 1, "A"));
    let res = sto.do_log_compaction(vec![9]);
    assert_eq!(res, Err(MetaError::InconsistentLog));
    let all: Vec<u64> = sto.get_log_entries(0, 100).iter().map(|e| e.index).collect();
    assert_eq!(all, vec![1, 2]);
    assert_eq!(sto.get_current_snapshot(), None);
}

#[test]
fn compaction_of_a_fresh_store_fails() {
    let mut sto = MemStore::new(1);
    assert_eq!(sto.do_log_compaction(Vec::new()), Err(MetaError::InconsistentLog));
}

#[test]
fn compaction_at_the_largest_index() {
    let mut sto = MemStore::new(1);
    sto.append_entry_to_log(&blank(4, 1));
    sto.append_entry_to_log(&blank(u64::MAX, 2));
    sto.apply_entry_to_state_machine(&u64::MAX, &request("c1", 1, "A"));
    let snapshot = sto.do_log_compaction(Vec::new()).unwrap();
    assert_eq!(snapshot.index, u64::MAX);
    assert_eq!(sto.get_log().len(), 1);
    assert!(sto.get_log().get(u64::MAX).is_some());
}

#[test]
fn install_without_delete_through_leaves_only_the_pointer() {
    let mut sto = MemStore::new(1);
    for i in 1..=5u64 {
        sto.append_entry_to_log(&blank(i, 1));
    }
    let snapshot =
        MemStoreSnapshot { index: 9, term: 3, membership: members(&[1, 2]), data: vec![7] };
    let mut sm = MemStoreStateMachine::default();
    sm.apply(9, &request("c1", 1, "A"));
    sto.finalize_snapshot_installation(9, 3, None, "snap".to_string(), snapshot.clone(), sm);
    let all = sto.get_log_entries(0, u64::MAX);
    assert_eq!(all, vec![Entry::new_snapshot_pointer(9, 3, "snap".to_string(), members(&[1]))]);
    assert_eq!(sto.get_current_snapshot(), Some(snapshot));
    assert_eq!(sto.get_state_machine().last_applied_log, 9);
    assert_eq!(sto.get_state_machine().status(&"c1".to_string()), Some(&"A".to_string()));
}

#[test]
fn install_with_delete_through_keeps_later_entries() {
    let mut sto = MemStore::new(1);
    for i in 1..=6u64 {
        sto.append_entry_to_log(&blank(i, 1));
    }
    let snapshot = MemStoreSnapshot { index: 4, term: 1, membership: members(&[1]), data: vec![] };
    sto.finalize_snapshot_installation(
        4,
        1,
        Some(4),
        "snap".to_string(),
        snapshot,
        MemStoreStateMachine::default(),
    );
    let all = sto.get_log_entries(0, u64::MAX);
    assert_eq!(
        all,
        vec![
            Entry::new_snapshot_pointer(4, 1, "snap".to_string(), members(&[1])),
            blank(5, 1),
            blank(6, 1),
        ]
    );
}

#[test]
fn install_with_delete_through_at_the_largest_index_keeps_nothing() {
    let mut sto = MemStore::new(1);
    sto.append_entry_to_log(&blank(3, 1));
    sto.append_entry_to_log(&blank(u64::MAX, 1));
    let snapshot = MemStoreSnapshot { index: 2, term: 1, membership: members(&[1]), data: vec![] };
    sto.finalize_snapshot_installation(
        2,
        1,
        Some(u64::MAX),
        String::new(),
        snapshot,
        MemStoreStateMachine::default(),
    );
    let all: Vec<u64> = sto.get_log_entries(0, u64::MAX).iter().map(|e| e.index).collect();
    assert_eq!(all, vec![2]);
    assert!(sto.get_log().get(u64::MAX).is_none());
}

#[test]
fn install_takes_the_membership_from_the_log_it_found() {
    let mut sto = MemStore::new(1);
    sto.append_entry_to_log(&config_change(2, 1, &[1, 2]));
    sto.append_entry_to_log(&config_change(8, 1, &[1, 2, 3]));
    let snapshot = MemStoreSnapshot { index: 5, term: 1, membership: members(&[4]), data: vec![] };
    sto.finalize_snapshot_installation(
        5,
        1,
        None,
        String::new(),
        snapshot,
        MemStoreStateMachine::default(),
    );
    assert_eq!(
        sto.get_log_entries(0, 100),
        vec![Entry::new_snapshot_pointer(5, 1, String::new(), members(&[1, 2]))]
    );
}

#[test]
fn install_replaces_the_state_machine_wholesale() {
    let mut sto = MemStore::new(1);
    sto.apply_entry_to_state_machine(&1, &request("old", 1, "x"));
    let mut sm = MemStoreStateMachine::default();
    sm.apply(4, &request("new", 1, "y"));
    let snapshot = MemStoreSnapshot { index: 4, term: 1, membership: members(&[1]), data: vec![] };
    sto.finalize_snapshot_installation(4, 1, None, String::new(), snapshot, sm);
    assert_eq!(sto.get_state_machine().status(&"old".to_string()), None);
    assert_eq!(sto.get_state_machine().status(&"new".to_string()), Some(&"y".to_string()));
}

#[test]
fn no_snapshot_before_one_is_taken() {
    let sto = MemStore::new(1);
    assert_eq!(sto.get_current_snapshot(), None);
}

#[test]
fn a_created_snapshot_is_empty() {
    let sto = MemStore::new(1);
    assert_eq!(sto.create_snapshot(), (String::new(), Vec::new()));
}

#[test]
fn a_store_can_start_from_given_state() {
    let mut log = LogStore::new();
    log.insert(&blank(1, 1));
    log.insert(&blank(2, 1));
    let mut sm = MemStoreStateMachine::default();
    sm.apply(2, &request("c1", 1, "A"));
    let hs = HardState { current_term: 1, voted_for: Some(3) };
    let snapshot = MemStoreSnapshot { index: 1, term: 1, membership: members(&[3]), data: vec![5] };
    let sto = MemStore::new_with_state(3, log, sm, Some(hs), Some(snapshot.clone()));
    assert_eq!(sto.id(), 3);
    assert_eq!(sto.get_log().len(), 2);
    assert_eq!(sto.get_state_machine().last_applied_log, 2);
    assert_eq!(*sto.read_hard_state(), Some(hs));
    assert_eq!(sto.get_current_snapshot(), Some(snapshot));
}

#[test]
fn error_messages() {
    assert_eq!(
        MetaError::InconsistentLog.message(),
        "a query was received which was expecting data to be in place which does not exist in the log"
    );
    assert_eq!(
        MetaError::NodeNotFound { key: "node/3".to_string() }.message(),
        "node not found: node/3"
    );
    assert_eq!(
        MetaError::KeyNotFound { key: "k".to_string() }.message(),
        "meta data key not found: k"
    );
    assert_eq!(MetaError::WriteRejected { reason: "no".to_string() }.message(), "no");
    assert_eq!(ShutdownError::UnsafeStorageError.message(), "unsafe storage error");
}
