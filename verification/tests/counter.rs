use ziofa::counter::{count_from_item, CollectingState, CounterError, CounterLinks};

#[test]
fn detach_gives_back_the_attached_link() {
    let mut links: CounterLinks<u64> = CounterLinks::new();
    links.attach("eth0".to_string(), 7);
    links.attach("wlan0".to_string(), 8);
    assert!(matches!(links.detach("eth0".to_string()), Ok(7)));
    match links.detach("eth0".to_string()) {
        Err(CounterError::InterfaceNotAttached { iface }) => assert_eq!(iface, "eth0"),
        _ => panic!("expected the interface to be detached"),
    }
    links.clear();
    assert!(links.detach("wlan0".to_string()).is_err());
}

#[test]
fn collecting_starts_once() {
    let mut state = CollectingState::new();
    assert!(matches!(state.server_count(), Err(CounterError::NotCollecting)));
    assert!(state.start().is_ok());
    assert!(matches!(state.start(), Err(CounterError::AlreadyCollecting)));
    assert!(state.server_count().is_ok());
    assert!(state.stop());
    assert!(!state.stop());
}

#[test]
fn counts_are_little_endian() {
    assert_eq!(count_from_item(&[1, 0, 0, 0]), 1);
    assert_eq!(count_from_item(&[0x78, 0x56, 0x34, 0x12]), 0x1234_5678);
}
