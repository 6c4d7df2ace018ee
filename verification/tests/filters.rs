use ziofa::config::{
    BlockingConfig, Configuration, EventConfig, Filter, StringFilter, UInt32Filter,
    MISSING_BEHAVIOR_MATCH, MISSING_BEHAVIOR_NOT_MATCH, MISSING_BEHAVIOR_UNSPECIFIED,
};
use ziofa::events::EventKind;
use ziofa::filters::{
    add_equalities, filter_tables, get_missing_behavior, zero_extend, Entry, Equality,
    FieldFilter, FilterConfig, MissingBehavior, COMM_LEN,
};
use ziofa::keyed_map::KeyedMap;

#[test]
fn missing_behavior_only_matches_when_asked() {
    assert_eq!(get_missing_behavior(MISSING_BEHAVIOR_MATCH), MissingBehavior::Match);
    assert_eq!(get_missing_behavior(MISSING_BEHAVIOR_NOT_MATCH), MissingBehavior::NotMatch);
    assert_eq!(get_missing_behavior(MISSING_BEHAVIOR_UNSPECIFIED), MissingBehavior::NotMatch);
    assert_eq!(get_missing_behavior(77), MissingBehavior::NotMatch);
}

#[test]
fn zero_extend_pads_and_cuts() {
    assert_eq!(zero_extend(b"abc", 5), vec![b'a', b'b', b'c', 0, 0]);
    assert_eq!(zero_extend(b"abcdef", 3), b"abc".to_vec());
    assert_eq!(zero_extend(b"", 2), vec![0, 0]);
}

#[test]
fn entry_value_ignores_tag() {
    assert_eq!(*Entry::Match(5u32).value(), 5);
    assert_eq!(*Entry::NotMatch(6u32).value(), 6);
}

#[test]
fn equalities_set_and_clear_bits() {
    let mut dest: KeyedMap<u32, Equality> = KeyedMap::new();
    add_equalities(&mut dest, &vec![10, 11], &vec![12], EventKind::Signal);
    assert_eq!(*dest.get(&10).unwrap(), Equality { eq_for_event_kind: 4, used_for_event_kind: 4 });
    assert_eq!(*dest.get(&12).unwrap(), Equality { eq_for_event_kind: 0, used_for_event_kind: 4 });
    add_equalities(&mut dest, &vec![10], &vec![11], EventKind::Write);
    assert_eq!(*dest.get(&10).unwrap(), Equality { eq_for_event_kind: 5, used_for_event_kind: 5 });
    // a value that does not match loses every match bit
    assert_eq!(*dest.get(&11).unwrap(), Equality { eq_for_event_kind: 0, used_for_event_kind: 5 });
    assert_eq!(dest.len(), 3);
}

fn empty_config() -> Configuration {
    Configuration {
        write_config: None,
        blocking_config: None,
        jni_references_config: None,
        signal_config: None,
        file_descriptor_change_config: None,
        garbage_collect_config: None,
    }
}

#[test]
fn empty_configuration_gives_empty_tables() {
    let t = filter_tables(&empty_config());
    assert_eq!(t.pid_filter.len(), 0);
    assert_eq!(t.comm_filter.len(), 0);
    assert_eq!(t.filter_config.len(), 6);
    assert!(t.filter_config.iter().all(|c| *c == FilterConfig::default_config()));
    assert_eq!(t.blocking_threshold, None);
}

#[test]
fn configured_filters_fill_the_tables() {
    let mut config = empty_config();
    config.write_config = Some(EventConfig {
        filter: Some(Filter {
            pid_filter: Some(UInt32Filter { matching: vec![100], not_matching: vec![200], missing_behavior: MISSING_BEHAVIOR_MATCH }),
            comm_filter: Some(StringFilter { matching: vec!["app".to_string()], not_matching: vec![], missing_behavior: 0 }),
            exe_path_filter: None,
            cmdline_filter: None,
        }),
    });
    config.blocking_config = Some(BlockingConfig { filter: None, threshold: Some(5_000) });
    let t = filter_tables(&config);
    assert_eq!(*t.pid_filter.get(&100).unwrap(), Equality { eq_for_event_kind: 1, used_for_event_kind: 1 });
    assert_eq!(*t.pid_filter.get(&200).unwrap(), Equality { eq_for_event_kind: 0, used_for_event_kind: 1 });
    let key = zero_extend(b"app", COMM_LEN);
    assert_eq!(*t.comm_filter.get(&key).unwrap(), Equality { eq_for_event_kind: 1, used_for_event_kind: 1 });
    assert_eq!(
        t.filter_config[0],
        FilterConfig {
            pid_filter: Some(FieldFilter { missing_behavior: MissingBehavior::Match }),
            comm_filter: Some(FieldFilter { missing_behavior: MissingBehavior::NotMatch }),
            exe_path_filter: Some(FieldFilter { missing_behavior: MissingBehavior::NotMatch }),
            cmdline_filter: Some(FieldFilter { missing_behavior: MissingBehavior::NotMatch }),
        }
    );
    // a configured kind without a filter filters nothing, as a missing kind
    assert_eq!(t.filter_config[1], FilterConfig::default_config());
    assert_eq!(t.blocking_threshold, Some(5_000));
}
