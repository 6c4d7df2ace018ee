use ziofa::config::{
    validate, BlockingConfig, ConfigError, Configuration, EbpfEntry, EntryConfiguration,
};
use ziofa::filesystem::{MemoryConfigurationStorage, StorageError};

fn conf(names: &[&str]) -> EntryConfiguration {
    EntryConfiguration { entries: names.iter().map(|n| EbpfEntry { ebpf_name: n.to_string() }).collect() }
}

#[test]
fn same_entries_in_any_order_validate() {
    assert!(validate(&conf(&["a", "b"]), &conf(&["b", "a"])).is_ok());
    assert!(validate(&conf(&["a"]), &conf(&["a"])).is_ok());
    assert!(validate(&conf(&[]), &conf(&[])).is_ok());
}

#[test]
fn other_entry_count_is_refused() {
    match validate(&conf(&["a", "b", "c"]), &conf(&["a"])) {
        Err(ConfigError::WrongEntryCount { old_config_count, new_config_count }) => {
            assert_eq!((old_config_count, new_config_count), (1, 3));
        }
        _ => panic!("expected a wrong entry count"),
    }
}

#[test]
fn dropped_entries_are_refused_by_name() {
    match validate(&conf(&["a", "c"]), &conf(&["a", "b"])) {
        Err(ConfigError::EntryDropped { entry_names }) => {
            assert_eq!(entry_names, vec!["b".to_string()]);
        }
        _ => panic!("expected a dropped entry"),
    }
    match validate(&conf(&["x", "y", "a"]), &conf(&["c", "a", "b"])) {
        Err(ConfigError::EntryDropped { entry_names }) => {
            assert_eq!(entry_names, vec!["c".to_string(), "b".to_string()]);
        }
        _ => panic!("expected dropped entries"),
    }
}

fn config_with_threshold(threshold: u64) -> Configuration {
    Configuration {
        write_config: None,
        blocking_config: Some(BlockingConfig { filter: None, threshold: Some(threshold) }),
        jni_references_config: None,
        signal_config: None,
        file_descriptor_change_config: None,
        garbage_collect_config: None,
    }
}

#[test]
fn memory_storage_gives_back_what_was_saved() {
    let mut storage = MemoryConfigurationStorage::new();
    assert!(matches!(storage.load("/a"), Err(StorageError::NotFound)));
    storage.save(config_with_threshold(5), "/a");
    storage.save(config_with_threshold(7), "/b");
    storage.save(config_with_threshold(9), "/a");
    let a = storage.load("/a").ok().unwrap();
    assert_eq!(a.blocking_config.as_ref().unwrap().threshold, Some(9));
    let b = storage.load("/b").ok().unwrap();
    assert_eq!(b.blocking_config.as_ref().unwrap().threshold, Some(7));
    assert!(storage.load("/c").is_err());
}
