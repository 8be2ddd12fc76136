use swipl::decimal::dec_string;
use swipl::{init, Atom, Engine, Error};

#[test]
fn idempotent_bringup() {
    let mut e = Engine::new();
    assert!(!e.is_ready());
    assert_eq!(e.bringup_count(), 0);

    init(&mut e, 0);
    assert!(e.is_ready());
    assert_eq!(e.bringup_count(), 1);
    assert_eq!(e.attach_count(), 0);
    assert!(e.thread_attached(0));

    // again from the same thread: nothing changes
    init(&mut e, 0);
    init(&mut e, 0);
    assert_eq!(e.bringup_count(), 1);
    assert_eq!(e.attach_count(), 0);

    // first calls from two other threads: one attachment event each
    init(&mut e, 1);
    init(&mut e, 2);
    init(&mut e, 1);
    assert_eq!(e.bringup_count(), 1);
    assert_eq!(e.attach_count(), 2);
    assert!(e.thread_attached(1));
    assert!(e.thread_attached(2));
    assert!(!e.thread_attached(3));
}

#[test]
fn constructors_bring_up() {
    let mut e = Engine::new();
    let a = Atom::new(&mut e, 7, "first");
    assert!(e.is_ready());
    assert_eq!(e.bringup_count(), 1);
    assert!(e.thread_attached(7));
    assert_eq!(a.as_text(&e), "first");

    // a constructor call from a second thread attaches it
    let b = Atom::new(&mut e, 8, "second");
    assert_eq!(e.bringup_count(), 1);
    assert_eq!(e.attach_count(), 1);
    assert!(e.thread_attached(8));
    assert_eq!(b.as_text(&e), "second");
}

#[test]
fn error_text() {
    assert_eq!(Error::UnknownTermType(7).as_text(), "Unknown term type: 7");
    assert_eq!(Error::UnknownTermType(0).as_text(), "Unknown term type: 0");
    assert_eq!(Error::UnknownTermType(-3).as_text(), "Unknown term type: -3");
    assert_eq!(
        Error::UnknownTermType(i32::MIN).as_text(),
        "Unknown term type: -2147483648"
    );
}

#[test]
fn decimal_rendering() {
    assert_eq!(dec_string(0), "0");
    assert_eq!(dec_string(9), "9");
    assert_eq!(dec_string(10), "10");
    assert_eq!(dec_string(12345), "12345");
    assert_eq!(dec_string(1000), "1000");
}
