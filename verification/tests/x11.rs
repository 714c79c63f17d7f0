use statusbar::error::Error;
use statusbar::x11::{PropertyWrite, X11rb, DEFAULT_RECONNECT_THRESHOLD};

#[test]
fn new_takes_the_root_of_the_screen() {
    assert_eq!(
        X11rb::new(&[10, 20, 30], 1, 39),
        Ok(X11rb { root_window: 20, name_atom: 39, failures: 0, threshold: DEFAULT_RECONNECT_THRESHOLD })
    );
    assert_eq!(X11rb::new(&[10], 0, 39).unwrap().root_window, 10);
}

#[test]
fn new_fails_without_the_screen() {
    assert_eq!(X11rb::new(&[10], 1, 39), Err(Error::X11 { message: "no screen 1".to_string() }));
    assert_eq!(X11rb::new(&[], 0, 39), Err(Error::X11 { message: "no screen 0".to_string() }));
    assert_eq!(
        X11rb::new(&[1, 2], 12, 39),
        Err(Error::X11 { message: "no screen 12".to_string() })
    );
}

#[test]
fn threshold_can_be_set() {
    let sink = X11rb::new(&[10], 0, 39).unwrap().with_threshold(7);
    assert_eq!(sink, X11rb { root_window: 10, name_atom: 39, failures: 0, threshold: 7 });
}

#[test]
fn failures_are_counted_up_to_the_threshold() {
    let mut sink = X11rb::new(&[10], 0, 39).unwrap().with_threshold(3);
    assert!(!sink.fail());
    assert_eq!(sink.failures, 1);
    assert!(!sink.fail());
    assert!(sink.fail());
    assert_eq!(sink.failures, 3);
    assert!(sink.fail());
    assert_eq!(sink.failures, 4);
    sink.succeed();
    assert_eq!(sink.failures, 0);
    assert_eq!(sink.threshold, 3);
    assert!(!sink.fail());
}

#[test]
fn the_counter_stops_at_its_largest_number() {
    let mut sink = X11rb { root_window: 1, name_atom: 2, failures: u32::MAX - 1, threshold: u32::MAX };
    assert!(sink.fail());
    assert_eq!(sink.failures, u32::MAX);
    assert!(sink.fail());
    assert_eq!(sink.failures, u32::MAX);
}

#[test]
fn a_threshold_of_nothing_is_reached_at_once() {
    let mut sink = X11rb::new(&[10], 0, 39).unwrap().with_threshold(0);
    assert!(sink.fail());
}

#[test]
fn set_root_win_name_gives_the_bytes() {
    let sink = X11rb::new(&[10, 20], 1, 39).unwrap();
    assert_eq!(
        sink.set_root_win_name("h\u{e9}llo"),
        Ok(PropertyWrite {
            window: 20,
            property: 39,
            format: 8,
            data_len: 6,
            data: vec![b'h', 0xc3, 0xa9, b'l', b'l', b'o'],
        })
    );
    assert_eq!(
        sink.set_root_win_name(""),
        Ok(PropertyWrite { window: 20, property: 39, format: 8, data_len: 0, data: Vec::new() })
    );
}
