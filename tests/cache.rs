use rier::Cache;

#[test]
fn first_builder_wins_until_dirty() {
    let mut cache = Cache::<&'static str>::new();
    assert_eq!(cache.get(|| "Madoka"), &"Madoka");
    assert_eq!(cache.get(|| "Homura"), &"Madoka");
    cache.dirty();
    assert_eq!(cache.get(|| "Homura"), &"Homura");
}

#[test]
fn full_cache_never_runs_builder() {
    let mut cache = Cache::<u32>::new();
    let mut runs = 0u32;
    assert_eq!(*cache.get(|| { runs += 1; 7 }), 7);
    assert_eq!(*cache.get(|| { runs += 1; 8 }), 7);
    assert_eq!(runs, 1);
}

#[test]
fn try_get_and_unwrap_follow_dirty() {
    let mut cache = Cache::<u32>::new();
    assert_eq!(cache.try_get(), None);
    cache.get(|| 3);
    assert_eq!(cache.try_get(), Some(&3));
    cache.dirty();
    assert_eq!(cache.try_get(), None);
    cache.get(|| 4);
    assert_eq!(cache.unwrap(), Some(4));
}
