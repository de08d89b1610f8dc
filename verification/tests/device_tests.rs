use interception::{
    InterceptionError, KeyStroke, KeyboardDevice, MouseDevice, MouseStroke, FILTER_KEY_ALL,
    MAX_KEYBOARD, MAX_MOUSE,
};

#[test]
fn test_device_bounds_checking() {
    // Test keyboard device creation bounds
    for i in 0..MAX_KEYBOARD {
        match KeyboardDevice::new(i) {
            Ok(_) => {}                                 // Device creation succeeded
            Err(InterceptionError::CreateFile(_)) => {} // Expected without driver
            Err(e) => panic!("Unexpected error creating keyboard {i}: {e:?}"),
        }
    }

    // Test out-of-bounds keyboard device
    assert!(matches!(
        KeyboardDevice::new(MAX_KEYBOARD),
        Err(InterceptionError::InvalidDevice)
    ));

    // Test mouse device creation bounds
    for i in 0..MAX_MOUSE {
        match MouseDevice::new(i) {
            Ok(_) => {}                                 // Device creation succeeded
            Err(InterceptionError::CreateFile(_)) => {} // Expected without driver
            Err(e) => panic!("Unexpected error creating mouse {i}: {e:?}"),
        }
    }

    // Test out-of-bounds mouse device
    assert!(matches!(
        MouseDevice::new(MAX_MOUSE),
        Err(InterceptionError::InvalidDevice)
    ));
}

#[test]
fn filter_set_then_get_returns_exactly_the_filter_set() {
    let mut keyboard = KeyboardDevice::new(0).unwrap();
    let mut f: u32 = 0;
    while f <= 0xFFFF {
        keyboard.set_filter(f as u16).unwrap();
        assert_eq!(keyboard.get_filter().unwrap(), f as u16);
        f += 1;
    }
    let mut mouse = MouseDevice::new(3).unwrap();
    mouse.set_filter(0x1000).unwrap();
    assert_eq!(mouse.get_filter().unwrap(), 0x1000);
}

#[test]
fn precedence_set_then_get_returns_exactly_the_precedence_set() {
    let mut keyboard = KeyboardDevice::new(0).unwrap();
    for p in [i32::MIN, -1, 0, 1, 100, i32::MAX] {
        keyboard.set_precedence(p).unwrap();
        assert_eq!(keyboard.get_precedence().unwrap(), p);
    }
    let mut mouse = MouseDevice::new(9).unwrap();
    mouse.set_precedence(-42).unwrap();
    assert_eq!(mouse.get_precedence().unwrap(), -42);
}

#[test]
fn send_then_receive_echoes_zero_one_and_ten_records() {
    for count in [0usize, 1, 10] {
        let mut keyboard = KeyboardDevice::new(0).unwrap();
        let mut strokes = Vec::new();
        for i in 0..count {
            strokes.push(KeyStroke::with_info(0x40 + i as u16, (i % 2) as u16, i as u32));
        }
        assert_eq!(keyboard.send(&strokes).unwrap(), count);
        let received = keyboard.receive(strokes.len()).unwrap();
        assert_eq!(received, strokes);
    }

    for count in [0usize, 1, 10] {
        let mut mouse = MouseDevice::new(0).unwrap();
        let mut strokes = Vec::new();
        for i in 0..count {
            strokes.push(MouseStroke::new(0, 1, i as i16, i as i32, -(i as i32), 0));
        }
        assert_eq!(mouse.send(&strokes).unwrap(), count);
        let received = mouse.receive(strokes.len()).unwrap();
        assert_eq!(received, strokes);
    }
}

#[test]
fn sending_nothing_writes_nothing_and_reports_zero() {
    let mut keyboard = KeyboardDevice::new(0).unwrap();
    assert_eq!(keyboard.send(&Vec::new()).unwrap(), 0);
    assert_eq!(keyboard.receive(10).unwrap().len(), 0);
}

#[test]
fn receive_never_pads_to_the_requested_count() {
    let mut keyboard = KeyboardDevice::new(0).unwrap();
    keyboard.set_filter(FILTER_KEY_ALL).unwrap();
    let strokes = vec![KeyStroke::down(0x1E), KeyStroke::up(0x1E)];
    keyboard.send(&strokes).unwrap();
    let received = keyboard.receive(64).unwrap();
    assert_eq!(received.len(), 2);
    assert_eq!(received, strokes);
}

#[test]
fn receive_drains_in_fifo_order_across_calls() {
    let mut keyboard = KeyboardDevice::new(0).unwrap();
    let strokes = vec![
        KeyStroke::down(0x10),
        KeyStroke::up(0x10),
        KeyStroke::down(0x11),
    ];
    keyboard.send(&strokes).unwrap();
    let first = keyboard.receive(2).unwrap();
    assert_eq!(first, strokes[..2].to_vec());
    let rest = keyboard.receive(2).unwrap();
    assert_eq!(rest, strokes[2..].to_vec());
    assert_eq!(keyboard.receive(2).unwrap().len(), 0);
}
