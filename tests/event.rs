use std::cell::RefCell;
use std::rc::Rc;

use rier::event::{Notifier, Return};

type Subscriber = Box<dyn Fn(&i32) -> Return<i32>>;

#[test]
fn subscriber_sees_the_event() {
    let seen = Rc::new(RefCell::new(Vec::new()));
    let log = seen.clone();
    let mut notifier = Notifier::<i32, Subscriber>::new();
    notifier.register(Box::new(move |e: &i32| {
        log.borrow_mut().push(*e);
        Return::Next
    }));
    notifier.notify(42);
    assert_eq!(*seen.borrow(), vec![42]);
}

#[test]
fn dead_subscriber_is_not_called_again() {
    let calls = Rc::new(RefCell::new(Vec::new()));
    let mut notifier = Notifier::<i32, Subscriber>::new();
    for id in 0..3 {
        let log = calls.clone();
        notifier.register(Box::new(move |e: &i32| {
            log.borrow_mut().push((id, *e));
            if id == 1 { Return::Dead } else { Return::Next }
        }));
    }
    notifier.notify(1);
    notifier.notify(2);
    assert_eq!(*calls.borrow(), vec![(0, 1), (1, 1), (2, 1), (0, 2), (2, 2)]);
}

#[test]
fn spawned_events_wait_for_their_turn() {
    let calls = Rc::new(RefCell::new(Vec::new()));
    let log = calls.clone();
    let mut notifier = Notifier::<i32, Subscriber>::new();
    notifier.register(Box::new(move |e: &i32| {
        log.borrow_mut().push(*e);
        if *e < 3 { Return::Spawn(Box::new(*e + 10)) } else { Return::Next }
    }));
    notifier.notify(1);
    notifier.notify(2);
    assert_eq!(*calls.borrow(), vec![1, 2]);
    assert!(notifier.notify_queued());
    assert!(notifier.notify_queued());
    assert!(!notifier.notify_queued());
    assert_eq!(*calls.borrow(), vec![1, 2, 11, 12]);
}
