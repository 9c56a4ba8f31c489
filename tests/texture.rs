use std::cell::Cell;

use rier::texture::{ClaimError, SyncError, TextureManager};

fn key(s: &str) -> String {
    s.to_string()
}

#[test]
fn second_enqueue_dispatches_nothing() {
    let mut m = TextureManager::<u32>::new();
    assert!(m.enqueue_load(key("a.png")));
    assert!(!m.enqueue_load(key("a.png")));
    assert!(m.is_loading(&key("a.png")));
    assert!(m.enqueue_load(key("b.png")));
}

#[test]
fn claim_while_loading_is_not_ready() {
    let mut m = TextureManager::<u32>::new();
    m.enqueue_load(key("a.png"));
    assert_eq!(m.claim(&key("a.png")).err(), Some(ClaimError::NotReady));
}

#[test]
fn claim_without_request_is_refused() {
    let mut m = TextureManager::<u32>::new();
    assert_eq!(m.claim(&key("never.png")).err(), Some(ClaimError::Unregistered));
}

#[test]
fn claimed_texture_is_shared_not_reloaded() {
    let mut m = TextureManager::<u32>::new();
    m.enqueue_load(key("a.png"));
    let errors = m.drain_completed(vec![(key("a.png"), Ok::<u32, String>(11))]);
    assert!(errors.is_empty());
    assert!(!m.is_loading(&key("a.png")));
    assert!(!m.enqueue_load(key("a.png")));
    let first = m.claim(&key("a.png")).unwrap();
    let second = m.claim(&key("a.png")).unwrap();
    assert_eq!(first, second);
    assert_eq!(*m.texture(&first), 11);
    assert_eq!(*m.texture(&second), 11);
}

#[test]
fn released_texture_is_loaded_afresh() {
    let mut m = TextureManager::<u32>::new();
    m.enqueue_load(key("a.png"));
    m.drain_completed(vec![(key("a.png"), Ok::<u32, ()>(1))]);
    let r = m.claim(&key("a.png")).unwrap();
    let old_handle = r.handle();
    m.release(r);
    assert_eq!(m.claim(&key("a.png")).err(), Some(ClaimError::Unregistered));
    let fresh = m.install(key("a.png"), 2);
    assert_ne!(fresh.handle(), old_handle);
    assert_eq!(*m.texture(&fresh), 2);
    let again = m.claim(&key("a.png")).unwrap();
    assert_eq!(again, fresh);
}

#[test]
fn release_keeps_texture_while_shared() {
    let mut m = TextureManager::<u32>::new();
    let r = m.install(key("a.png"), 5);
    let s = m.share(&r).unwrap();
    assert_eq!(s, r);
    m.release(r);
    assert_eq!(*m.texture(&s), 5);
    let again = m.claim(&key("a.png")).unwrap();
    assert_eq!(again, s);
    m.release(s);
    m.release(again);
    assert_eq!(m.claim(&key("a.png")).err(), Some(ClaimError::Unregistered));
    assert!(m.enqueue_load(key("a.png")));
}

#[test]
fn failed_load_is_reported_and_can_be_retried() {
    let mut m = TextureManager::<u32>::new();
    m.enqueue_load(key("a.png"));
    m.enqueue_load(key("b.png"));
    let errors = m.drain_completed(vec![
        (key("b.png"), Ok(4)),
        (key("a.png"), Err("bad header")),
    ]);
    assert_eq!(errors, vec![(key("a.png"), "bad header")]);
    assert_eq!(m.claim(&key("a.png")).err(), Some(ClaimError::Unregistered));
    let b = m.claim(&key("b.png")).unwrap();
    assert_eq!(*m.texture(&b), 4);
    assert!(m.enqueue_load(key("a.png")));
}

#[test]
fn results_for_keys_not_loading_are_dropped() {
    let mut m = TextureManager::<u32>::new();
    m.enqueue_load(key("a.png"));
    let mine = m.install(key("a.png"), 1);
    let errors = m.drain_completed(vec![
        (key("a.png"), Ok(2)),
        (key("z.png"), Err(())),
    ]);
    assert!(errors.is_empty());
    let again = m.claim(&key("a.png")).unwrap();
    assert_eq!(again, mine);
    assert_eq!(*m.texture(&again), 1);
}

#[test]
fn results_arrive_in_any_order() {
    let mut m = TextureManager::<u32>::new();
    for k in ["a", "b", "c"].iter() {
        assert!(m.enqueue_load(key(k)));
    }
    m.drain_completed(vec![(key("c"), Ok::<u32, ()>(3))]);
    m.drain_completed(vec![(key("a"), Ok::<u32, ()>(1)), (key("b"), Ok(2))]);
    for (k, v) in [("a", 1), ("b", 2), ("c", 3)].iter() {
        let r = m.claim(&key(k)).unwrap();
        assert_eq!(*m.texture(&r), *v);
    }
}

#[test]
fn load_sync_loads_once_then_shares() {
    let mut m = TextureManager::<u32>::new();
    let loads = Cell::new(0);
    let load = || {
        loads.set(loads.get() + 1);
        Ok::<u32, ()>(9)
    };
    let first = m.load_sync(key("a.png"), load).unwrap();
    let second = m.load_sync(key("a.png"), load).unwrap();
    assert_eq!(loads.get(), 1);
    assert_eq!(first, second);
    assert_eq!(*m.texture(&second), 9);
}

#[test]
fn load_sync_takes_a_pending_texture() {
    let mut m = TextureManager::<u32>::new();
    m.enqueue_load(key("a.png"));
    m.drain_completed(vec![(key("a.png"), Ok::<u32, ()>(3))]);
    let r = m.load_sync(key("a.png"), || Err::<u32, ()>(())).unwrap();
    assert_eq!(*m.texture(&r), 3);
}

#[test]
fn load_sync_failure_changes_nothing() {
    let mut m = TextureManager::<u32>::new();
    let failed = m.load_sync(key("a.png"), || Err::<u32, &str>("missing"));
    assert_eq!(failed.err(), Some(SyncError::Load("missing")));
    assert_eq!(m.claim(&key("a.png")).err(), Some(ClaimError::Unregistered));
}

#[test]
fn load_sync_after_release_loads_again() {
    let mut m = TextureManager::<u32>::new();
    let r = m.load_sync(key("a.png"), || Ok::<u32, ()>(1)).unwrap();
    let old_handle = r.handle();
    m.release(r);
    let fresh = m.load_sync(key("a.png"), || Ok::<u32, ()>(2)).unwrap();
    assert_ne!(fresh.handle(), old_handle);
    assert_eq!(*m.texture(&fresh), 2);
}

#[test]
fn handed_out_tracks_references() {
    let mut m = TextureManager::<u32>::new();
    let r = m.install(key("a.png"), 1);
    assert!(m.is_handed_out(&r));
    let s = m.share(&r).unwrap();
    m.release(r);
    assert!(m.is_handed_out(&s));
    m.release(s);
    let other = m.install(key("b.png"), 2);
    assert!(m.is_handed_out(&other));
    let stale = m.load_sync(key("a.png"), || Ok::<u32, ()>(3)).unwrap();
    assert!(m.is_handed_out(&stale));
}

#[test]
fn reference_of_another_manager_is_not_handed_out() {
    let mut m = TextureManager::<u32>::new();
    let mut other = TextureManager::<u32>::new();
    let r = other.install(key("a.png"), 1);
    assert!(!m.is_handed_out(&r));
    let mine = m.install(key("a.png"), 5);
    m.release(mine);
    assert!(!m.is_handed_out(&r));
    m.enqueue_load(key("b.png"));
    m.drain_completed(vec![(key("b.png"), Ok::<u32, ()>(2))]);
    let b = other.install(key("c.png"), 3);
    assert_eq!(b.handle(), 1);
    assert!(!m.is_handed_out(&b));
    let claimed = m.claim(&key("b.png")).unwrap();
    assert_eq!(claimed.handle(), 1);
    assert!(m.is_handed_out(&b));
}
