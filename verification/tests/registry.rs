use ziofa::registry::{path, RegistryItem, TakeError, ZIOFA_EBPF_PATH};

#[test]
fn pin_paths_are_under_the_pin_directory() {
    assert_eq!(path("VFS_WRITE_EVENTS"), "/sys/fs/bpf/ziofa/VFS_WRITE_EVENTS");
    assert_eq!(path(""), format!("{ZIOFA_EBPF_PATH}/"));
}

#[test]
fn an_item_has_one_owner_at_a_time() {
    let mut item = RegistryItem::new(41u32);
    let guard = item.try_take().ok().unwrap();
    assert_eq!(*guard.get(), 41);
    assert!(matches!(item.try_take(), Err(TakeError::AlreadyTaken)));
    guard.release(&mut item);
    let again = item.take();
    assert_eq!(*again.get(), 41);
}

#[test]
fn changes_through_the_guard_go_back_to_the_slot() {
    let mut item = RegistryItem::new(vec![1u8]);
    let mut guard = item.take();
    guard.get_mut().push(2);
    guard.release(&mut item);
    assert_eq!(*item.take().get(), vec![1u8, 2]);
}
