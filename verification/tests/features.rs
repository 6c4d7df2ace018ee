use ziofa::features::{
    fd_tracking_syscalls, feature_action, take_link, DetachError, jni_attach_point, jni_method_at, jni_symbol_name,
    FdProgram, FeatureAction, JNIMethod, JniAttachError, LinkSlots, JNI_METHOD_COUNT,
};

#[test]
fn configured_features_attach() {
    assert_eq!(feature_action(&Some(())), FeatureAction::Attach);
    assert_eq!(feature_action::<u32>(&None), FeatureAction::Detach);
}

#[test]
fn fd_tracking_attaches_to_all_fd_syscalls() {
    let v = fd_tracking_syscalls();
    assert_eq!(v.len(), 22);
    assert_eq!(v[0], (FdProgram::CreateFd, "open"));
    assert_eq!(v[17], (FdProgram::DestroyFd, "close"));
    assert_eq!(v[21], (FdProgram::CreateFd, "openat"));
    assert_eq!(v.iter().filter(|e| e.0 == FdProgram::DestroyFd).count(), 3);
}

#[test]
fn link_slots_keep_the_first_link() {
    let mut slots: LinkSlots<u32> = LinkSlots::new(2);
    assert_eq!(*slots.slot(0), None);
    slots.keep(0, 10);
    slots.keep(0, 11);
    slots.keep(1, 12);
    assert_eq!((*slots.slot(0), *slots.slot(1)), (Some(10), Some(12)));
    slots.clear();
    assert_eq!((*slots.slot(0), *slots.slot(1)), (None, None));
    slots.keep(0, 13);
    assert_eq!(*slots.slot(0), Some(13));
}

#[test]
fn jni_probes_attach_at_the_found_offset() {
    assert_eq!(jni_symbol_name(JNIMethod::AddLocal), "art::JNIEnvExt::NewLocalRef(art::mirror::Object*)");
    assert!(matches!(jni_attach_point(JNIMethod::DelGlobal, Some(0x40)), Ok(0x40)));
    match jni_attach_point(JNIMethod::DelLocal, None) {
        Err(JniAttachError::SymbolOffsetNotFound { symbol_name }) => {
            assert_eq!(symbol_name, "art::JNIEnvExt::DeleteLocalRef(_jobject*)")
        }
        _ => panic!("expected a missing offset"),
    }
}

#[test]
fn detaching_takes_the_link_once() {
    let mut slot = Some(5u32);
    assert_eq!(take_link(&mut slot), Ok(5));
    assert_eq!(slot, None);
    assert_eq!(take_link(&mut slot), Err(DetachError::NotAttached));
}

#[test]
fn attach_missing_skips_held_links_and_keeps_order() {
    let mut slots: LinkSlots<u32> = LinkSlots::new(4);
    slots.keep(1, 100);
    let mut called = Vec::new();
    let r: Result<(), ()> = slots.attach_missing(|i| {
        called.push(i);
        Ok(i as u32)
    });
    assert_eq!(r, Ok(()));
    assert_eq!(called, vec![0, 2, 3]);
    assert_eq!(*slots.slot(0), Some(0));
    assert_eq!(*slots.slot(1), Some(100));
    assert_eq!(*slots.slot(3), Some(3));
    // Everything is attached now: a second attach calls nothing.
    let mut again = Vec::new();
    let r: Result<(), ()> = slots.attach_missing(|i| {
        again.push(i);
        Ok(0)
    });
    assert_eq!(r, Ok(()));
    assert!(again.is_empty());
}

#[test]
fn attach_missing_stops_at_the_first_error() {
    let mut slots: LinkSlots<u32> = LinkSlots::new(4);
    let r = slots.attach_missing(|i| if i == 2 { Err("no offset") } else { Ok(i as u32 + 10) });
    assert_eq!(r, Err("no offset"));
    assert_eq!(*slots.slot(0), Some(10));
    assert_eq!(*slots.slot(1), Some(11));
    assert_eq!(*slots.slot(2), None);
    assert_eq!(*slots.slot(3), None);
}

#[test]
fn attach_all_fills_every_slot_and_keeps_held_links() {
    let mut slots: LinkSlots<u32> = LinkSlots::new(22);
    slots.keep(5, 500);
    let mut called = 0;
    let r: Result<(), ()> = slots.attach_all(|i| {
        called += 1;
        Ok(i as u32)
    });
    assert_eq!(r, Ok(()));
    assert_eq!(called, 22);
    for i in 0..22 {
        assert!(slots.slot(i).is_some());
    }
    assert_eq!(*slots.slot(5), Some(500));
    assert_eq!(*slots.slot(6), Some(6));
}

#[test]
fn attach_all_keeps_the_slots_before_an_error() {
    let mut slots: LinkSlots<u32> = LinkSlots::new(5);
    let r = slots.attach_all(|i| if i == 3 { Err(i) } else { Ok(i as u32) });
    assert_eq!(r, Err(3));
    assert_eq!(*slots.slot(2), Some(2));
    assert_eq!(*slots.slot(3), None);
    assert_eq!(*slots.slot(4), None);
}

#[test]
fn clearing_twice_changes_nothing() {
    let mut slots: LinkSlots<u32> = LinkSlots::new(3);
    slots.keep(0, 1);
    slots.clear();
    slots.clear();
    for i in 0..3 {
        assert_eq!(*slots.slot(i), None);
    }
}

#[test]
fn jni_slots_follow_the_attach_order() {
    assert_eq!(JNI_METHOD_COUNT, 4);
    assert_eq!(jni_method_at(0), JNIMethod::AddLocal);
    assert_eq!(jni_method_at(1), JNIMethod::DelLocal);
    assert_eq!(jni_method_at(2), JNIMethod::AddGlobal);
    assert_eq!(jni_method_at(3), JNIMethod::DelGlobal);
}

#[test]
fn attach_all_reports_a_failed_call_on_a_held_slot() {
    let mut slots: LinkSlots<u32> = LinkSlots::new(3);
    slots.keep(1, 100);
    let r = slots.attach_all(|i| if i == 1 { Err("busy") } else { Ok(i as u32) });
    assert_eq!(r, Err("busy"));
    assert_eq!(*slots.slot(0), Some(0));
    assert_eq!(*slots.slot(1), Some(100));
    assert_eq!(*slots.slot(2), None);
}
