use ziofa::config::{Configuration, EventConfig, Filter, UInt32Filter, MISSING_BEHAVIOR_MATCH};
use ziofa::filters::Equality;
use ziofa::keyed_map::KeyedMap;
use ziofa::map_update::{pids_to_entries, plan_update, update_from_config, CurrentKeys};

#[test]
fn plan_removes_stale_keys_and_writes_target() {
    let mut target: KeyedMap<u32, u64> = KeyedMap::new();
    target.insert(2, 20);
    target.insert(3, 30);
    let update = plan_update(&vec![1, 2], &target);
    assert_eq!(update.removals, vec![1]);
    let mut inserts = update.inserts.clone();
    inserts.sort();
    assert_eq!(inserts, vec![(2, 20), (3, 30)]);
}

#[test]
fn pids_become_zero_entries() {
    let m = pids_to_entries(&[5, 7, 5]);
    assert_eq!(m.len(), 2);
    assert_eq!(m.get(&5), Some(&0));
    assert_eq!(m.get(&7), Some(&0));
    assert_eq!(m.get(&6), None);
}

#[test]
fn keyed_map_insert_get_remove() {
    let mut m: KeyedMap<String, u32> = KeyedMap::new();
    m.insert("a".to_string(), 1);
    m.insert("b".to_string(), 2);
    m.insert("a".to_string(), 3);
    assert_eq!(m.len(), 2);
    assert_eq!(m.get(&"a".to_string()), Some(&3));
    assert!(m.contains_key(&"b".to_string()));
    assert_eq!(m.remove(&"b".to_string()), Some(2));
    assert_eq!(m.remove(&"b".to_string()), None);
    assert_eq!(m.len(), 1);
}

#[test]
fn configuration_update_replaces_stale_filter_keys() {
    let config = Configuration {
        write_config: None,
        blocking_config: None,
        jni_references_config: None,
        signal_config: Some(EventConfig {
            filter: Some(Filter {
                pid_filter: Some(UInt32Filter { matching: vec![100], not_matching: vec![], missing_behavior: MISSING_BEHAVIOR_MATCH }),
                comm_filter: None,
                exe_path_filter: None,
                cmdline_filter: None,
            }),
        }),
        file_descriptor_change_config: None,
        garbage_collect_config: None,
    };
    let current = CurrentKeys { pids: vec![5, 100], comms: vec![vec![b'x'; 16]], exe_paths: vec![], cmdlines: vec![] };
    let u = update_from_config(&config, &current);
    assert_eq!(u.pid_filter.removals, vec![5]);
    assert_eq!(u.pid_filter.inserts, vec![(100, Equality { eq_for_event_kind: 4, used_for_event_kind: 4 })]);
    assert_eq!(u.comm_filter.removals, vec![vec![b'x'; 16]]);
    assert!(u.comm_filter.inserts.is_empty());
    assert_eq!(u.filter_config.len(), 6);
    assert_eq!(u.blocking_threshold, None);
}
