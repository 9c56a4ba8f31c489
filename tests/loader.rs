use rier::loader::{take_in, Loader, Resource};

struct Length;

impl Resource for Length {
    type Result = usize;

    fn load(path: &str) -> usize {
        path.len()
    }
}

#[test]
fn results_come_back_through_requested_senders() {
    let mut loader = Loader::<Length>::new();
    assert!(loader.get().is_empty());
    let a = loader.request();
    let b = loader.request();
    b.send(("b.png".to_string(), Length::load("b.png"))).unwrap();
    let first = loader.get();
    assert_eq!(first, vec![("b.png".to_string(), 5)]);
    a.send(("a/b.png".to_string(), Length::load("a/b.png"))).unwrap();
    let second = loader.get();
    assert_eq!(second, vec![("a/b.png".to_string(), 7)]);
    assert!(loader.get().is_empty());
}

#[test]
fn loader_from_resource_starts_empty() {
    let mut loader = Length::loader();
    assert_eq!(loader.pending_loads(), 0);
    assert!(loader.get().is_empty());
}

#[test]
fn take_in_appends_and_counts_off() {
    let mut loaded = vec![1];
    let mut outstanding = 2usize;
    assert!(take_in(&mut loaded, &mut outstanding, Some(2)));
    assert_eq!(loaded, vec![1, 2]);
    assert_eq!(outstanding, 1);
    assert!(!take_in(&mut loaded, &mut outstanding, Some(3)));
    assert_eq!(loaded, vec![1, 2, 3]);
    assert_eq!(outstanding, 0);
}

#[test]
fn take_in_stops_on_an_empty_channel() {
    let mut loaded: Vec<u8> = Vec::new();
    let mut outstanding = 3usize;
    assert!(!take_in(&mut loaded, &mut outstanding, None));
    assert!(loaded.is_empty());
    assert_eq!(outstanding, 3);
}

#[test]
fn get_stops_when_no_load_is_due() {
    let mut loader = Loader::<Length>::new();
    let tx = loader.request();
    tx.send(("a".to_string(), 1)).unwrap();
    tx.send(("bb".to_string(), 2)).unwrap();
    assert_eq!(loader.get(), vec![("a".to_string(), 1)]);
    assert_eq!(loader.pending_loads(), 0);
}
