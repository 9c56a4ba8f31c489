use rier::id::{Id, Timespec};

#[test]
fn new_id_has_a_valid_time() {
    let id = Id::new();
    assert!(id.time.nsec >= 0 && id.time.nsec < 1_000_000_000);
    assert!(id.time.sec > 0);
}

#[test]
fn ids_order_by_time_then_random() {
    let a = Id { time: Timespec { sec: 1, nsec: 5 }, random: 9 };
    let b = Id { time: Timespec { sec: 1, nsec: 6 }, random: 0 };
    let c = Id { time: Timespec { sec: 1, nsec: 6 }, random: 1 };
    assert!(a < b);
    assert!(b < c);
    assert_eq!(b, b);
}
