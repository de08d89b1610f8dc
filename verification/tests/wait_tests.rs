use interception::error::{create_event_result, create_file_result, ioctl_result};
use interception::interception::{resolve_selected_slot, slot_open_policy, SlotPolicy};
use interception::wait::{check_wait_handles, classify_wait_result, wait_timeout_millis};
use interception::{
    Device, Interception, InterceptionError, KeyStroke, MouseStroke, WaitError, FILTER_KEY_ALL,
};

fn drain(slot: &mut Option<Device>) {
    match slot.as_mut() {
        Some(Device::Keyboard(k)) => {
            k.receive(10).unwrap();
        }
        Some(Device::Mouse(m)) => {
            m.receive(10).unwrap();
        }
        None => panic!("cannot drain an absent slot"),
    }
}

#[test]
fn wait_with_zero_timeout_times_out_when_nothing_is_ready() {
    let set = Interception::new().unwrap();
    assert!(matches!(set.wait(Some(0)), Err(WaitError::WaitTimeout)));
}

#[test]
fn two_ready_devices_are_returned_once_each() {
    let mut set = Interception::new().unwrap();

    // Make keyboard slot 0 and mouse slot 10 ready.
    match set.devices[0].as_mut() {
        Some(Device::Keyboard(k)) => {
            k.send(&vec![KeyStroke::down(0x41)]).unwrap();
        }
        _ => panic!("slot 0 should be a keyboard"),
    }
    match set.devices[10].as_mut() {
        Some(Device::Mouse(m)) => {
            m.send(&vec![MouseStroke::new(0, 1, 0, 5, 5, 0)]).unwrap();
        }
        _ => panic!("slot 10 should be a mouse"),
    }

    let first = set.wait(Some(0)).unwrap();
    // Drain the returned device so its wait signal clears.
    drain(&mut set.devices[first]);

    let second = set.wait(Some(0)).unwrap();
    drain(&mut set.devices[second]);

    // Each ready device exactly once: never the same one twice before
    // the other, and nothing remains afterwards.
    assert_ne!(first, second);
    assert!(first == 0 || first == 10);
    assert!(second == 0 || second == 10);
    assert!(matches!(set.wait(Some(0)), Err(WaitError::WaitTimeout)));
}

#[test]
fn configured_keyboard_delivers_down_then_up_pair() {
    let mut set = Interception::new().unwrap();
    set.set_precedence(100).unwrap();
    match set.devices[0].as_mut() {
        Some(Device::Keyboard(k)) => {
            k.set_filter(FILTER_KEY_ALL).unwrap();
            assert_eq!(k.get_filter().unwrap(), FILTER_KEY_ALL);
            assert_eq!(k.get_precedence().unwrap(), 100);
            k.send(&vec![KeyStroke::down(0x41), KeyStroke::up(0x41)])
                .unwrap();
        }
        _ => panic!("slot 0 should be a keyboard"),
    }
    let ready = set.wait(Some(0)).unwrap();
    assert_eq!(ready, 0);
    match set.devices[0].as_mut() {
        Some(Device::Keyboard(k)) => {
            let received = k.receive(10).unwrap();
            assert_eq!(received.len(), 2);
            assert_eq!(received[0].code, 0x41);
            assert_eq!(received[0].state, 0);
            assert_eq!(received[1].code, 0x41);
            assert_eq!(received[1].state, 1);
        }
        _ => unreachable!(),
    }
}

#[test]
fn set_precedence_applies_to_every_present_slot() {
    let mut set = Interception::new().unwrap();
    set.set_precedence(-7).unwrap();
    for slot in 0..set.devices.len() {
        match set.devices[slot].as_mut() {
            Some(Device::Keyboard(k)) => assert_eq!(k.get_precedence().unwrap(), -7),
            Some(Device::Mouse(m)) => assert_eq!(m.get_precedence().unwrap(), -7),
            None => panic!("every in-memory slot should be present"),
        }
    }
}

#[test]
fn set_precedence_skips_absent_slots() {
    let mut set = Interception::new().unwrap();
    set.devices[3] = None;
    set.devices[15] = None;
    set.set_precedence(42).unwrap();
    for slot in 0..set.devices.len() {
        match set.devices[slot].as_mut() {
            Some(Device::Keyboard(k)) => assert_eq!(k.get_precedence().unwrap(), 42),
            Some(Device::Mouse(m)) => assert_eq!(m.get_precedence().unwrap(), 42),
            None => assert!(slot == 3 || slot == 15),
        }
    }
    // The absent slots stayed absent.
    assert!(set.devices[3].is_none());
    assert!(set.devices[15].is_none());
}

#[test]
fn wait_never_selects_an_absent_slot() {
    let mut set = Interception::new().unwrap();
    set.devices[1] = None;
    match set.devices[2].as_mut() {
        Some(Device::Keyboard(k)) => {
            k.send(&vec![KeyStroke::down(0x1C)]).unwrap();
        }
        _ => panic!("slot 2 should be a keyboard"),
    }
    assert_eq!(set.wait(Some(0)).unwrap(), 2);
}

#[test]
fn slot_zero_is_mandatory_and_other_failures_are_absent() {
    assert_eq!(slot_open_policy(0, true), SlotPolicy::Present);
    assert_eq!(slot_open_policy(0, false), SlotPolicy::Fatal);
    for i in 1..20 {
        assert_eq!(slot_open_policy(i, true), SlotPolicy::Present);
        assert_eq!(slot_open_policy(i, false), SlotPolicy::Absent);
    }
}

#[test]
fn a_selection_resolves_only_to_a_present_slot() {
    assert_eq!(resolve_selected_slot(true, 7).unwrap(), 7);
    assert!(matches!(
        resolve_selected_slot(false, 7),
        Err(InterceptionError::InvalidDevice)
    ));
}

#[test]
fn os_statuses_classify_into_the_error_taxonomy() {
    assert_eq!(ioctl_result(true, 24, 0).unwrap(), 24);
    assert!(matches!(
        ioctl_result(false, 0, 5),
        Err(InterceptionError::DeviceIoControl(5))
    ));
    assert!(create_file_result(true, 0).is_ok());
    assert!(matches!(
        create_file_result(false, 2),
        Err(InterceptionError::CreateFile(2))
    ));
    assert!(create_event_result(true, 0).is_ok());
    assert!(matches!(
        create_event_result(false, 8),
        Err(InterceptionError::CreateEvent(8))
    ));
}

#[test]
fn raw_wait_outcomes_classify_exactly() {
    assert!(matches!(
        classify_wait_result(0xFFFFFFFF, 20, 6),
        Err(WaitError::WaitFailed(6))
    ));
    assert!(matches!(
        classify_wait_result(0x102, 20, 0),
        Err(WaitError::WaitTimeout)
    ));
    assert_eq!(classify_wait_result(3, 20, 0).unwrap(), 3);
    assert!(matches!(
        classify_wait_result(25, 20, 0),
        Err(WaitError::OutOfBounds(25))
    ));
}

#[test]
fn an_empty_handle_table_is_rejected_before_the_os_call() {
    assert!(matches!(
        check_wait_handles(0),
        Err(WaitError::EmptyHandles)
    ));
    assert!(check_wait_handles(20).is_ok());
}

#[test]
fn timeouts_encode_for_the_os_wait_primitive() {
    assert_eq!(wait_timeout_millis(Some(0)), 0);
    assert_eq!(wait_timeout_millis(Some(1500)), 1500);
    assert_eq!(wait_timeout_millis(None), 0xFFFFFFFF);
}
