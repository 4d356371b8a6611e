use midtown::name_pool::NamePool;

fn pool_of(names: &[&str]) -> NamePool {
    let names: Vec<String> = names.iter().map(|n| n.to_string()).collect();
    NamePool::new(&names)
}

#[test]
fn test_allocate_returns_least_recently_used() {
    let mut pool = pool_of(&["a", "b", "c"]);
    assert_eq!(pool.allocate(None), Some("a".to_string()));
    assert_eq!(pool.allocate(None), Some("b".to_string()));
    assert_eq!(pool.allocate(None), Some("c".to_string()));
    assert_eq!(pool.allocate(None), None); // exhausted
}

#[test]
fn test_release_returns_name_to_back_of_queue() {
    let mut pool = pool_of(&["a", "b", "c"]);
    let name = pool.allocate(None).unwrap(); // "a"
    pool.release(&name);
    // "b" is now front (LRU), "a" went to back
    assert_eq!(pool.allocate(None), Some("b".to_string()));
    assert_eq!(pool.allocate(None), Some("c".to_string()));
    assert_eq!(pool.allocate(None), Some("a".to_string()));
}

#[test]
fn test_preferred_name_honored_when_available() {
    let mut pool = pool_of(&["a", "b", "c"]);
    pool.allocate(None); // takes "a"
    pool.allocate(None); // takes "b"
    pool.release("a"); // "a" returns to pool
    // Preferred name "a" is available — skip LRU order
    assert_eq!(pool.allocate(Some("a")), Some("a".to_string()));
}

#[test]
fn test_preferred_name_falls_back_to_lru_when_in_use() {
    let mut pool = pool_of(&["a", "b", "c"]);
    pool.allocate(None); // takes "a" (in use)
    // Preferred "a" is in use, fall back to LRU
    assert_eq!(pool.allocate(Some("a")), Some("b".to_string()));
}

#[test]
fn test_release_idempotent() {
    let mut pool = pool_of(&["a", "b"]);
    pool.allocate(None); // takes "a"
    pool.release("a");
    pool.release("a"); // second release is no-op
    assert_eq!(pool.available_count(), 2); // still just 2 total
}

#[test]
fn test_allocate_excluding() {
    let mut pool = pool_of(&["a", "b", "c"]);
    let excluded = vec!["a".to_string()];
    assert_eq!(
        pool.allocate_excluding(None, &excluded),
        Some("b".to_string())
    );
}

#[test]
fn test_is_allocated() {
    let mut pool = pool_of(&["a", "b"]);
    assert!(!pool.is_allocated("a"));
    pool.allocate(None);
    assert!(pool.is_allocated("a"));
    pool.release("a");
    assert!(!pool.is_allocated("a"));
}

#[test]
fn restoring_a_pool_gives_out_what_is_in_use() {
    let mut pool = pool_of(&["a", "b", "c"]);
    pool.restore(&vec!["b".to_string(), "stranger".to_string()]);
    assert_eq!(pool.peek_next(), Some("a"));
    assert_eq!(pool.allocated_count(), 1);
    assert_eq!(pool.available_count(), 2);
    assert!(pool.is_allocated("b"));
    assert!(!pool.is_allocated("stranger"));
    assert_eq!(pool.all_names(), &["a", "b", "c"]);
    pool.release("b");
    pool.release("b");
    assert_eq!(pool.available_count(), 3);
    let given: Vec<String> = std::iter::from_fn(|| pool.allocate(None)).collect();
    assert_eq!(given, ["a", "c", "b"]);
    assert_eq!(pool.peek_next(), None);
}

#[test]
fn an_excluded_name_is_not_given_out_though_it_is_preferred() {
    let excluded = vec!["\u{e9}lan".to_string(), "park".to_string()];
    let mut pool = pool_of(&["\u{c9}lan", "Park", "York"]);
    assert_eq!(pool.allocate_excluding(Some("PARK"), &excluded), Some("York".to_string()));
    assert_eq!(pool.allocate_excluding(Some("\u{c9}LAN"), &excluded), None);
    assert_eq!(pool.allocate_excluding(Some("park"), &vec![]), Some("Park".to_string()));
}
