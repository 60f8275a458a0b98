use network::UpgradePool;

#[test]
fn a_new_pool_is_empty() {
    let pool: UpgradePool<&str> = UpgradePool::new();
    assert_eq!(pool.pending(), 0);
    assert!(!pool.contains(0));
}

#[test]
fn the_pool_counts_what_it_holds() {
    let mut pool = UpgradePool::new();
    assert_eq!(pool.insert(0, "a"), None);
    assert_eq!(pool.insert(1, "b"), None);
    assert_eq!(pool.insert(7, "c"), None);
    assert_eq!(pool.pending(), 3);
    assert!(pool.contains(0) && pool.contains(1) && pool.contains(7));
    assert!(!pool.contains(2));
}

#[test]
fn upgrades_leave_in_any_order() {
    let mut pool = UpgradePool::new();
    pool.insert(0, "a");
    pool.insert(1, "b");
    pool.insert(2, "c");
    assert_eq!(pool.resolve(1), Some("b"));
    assert_eq!(pool.pending(), 2);
    assert_eq!(pool.resolve(2), Some("c"));
    assert_eq!(pool.resolve(0), Some("a"));
    assert_eq!(pool.pending(), 0);
}

#[test]
fn an_upgrade_leaves_once() {
    let mut pool = UpgradePool::new();
    pool.insert(4, "a");
    assert_eq!(pool.resolve(4), Some("a"));
    assert_eq!(pool.resolve(4), None);
    assert_eq!(pool.pending(), 0);
    assert_eq!(pool.resolve(5), None);
    assert_eq!(pool.pending(), 0);
}

#[test]
fn a_token_in_use_is_not_given_away() {
    let mut pool = UpgradePool::new();
    assert_eq!(pool.insert(3, "first"), None);
    assert_eq!(pool.insert(3, "second"), Some("second"));
    assert_eq!(pool.pending(), 1);
    assert_eq!(pool.resolve(3), Some("first"));
}

#[test]
fn a_pool_takes_upgrades_while_others_are_pending() {
    let mut pool = UpgradePool::new();
    pool.insert(0, "a");
    assert_eq!(pool.resolve(0), Some("a"));
    pool.insert(1, "b");
    pool.insert(2, "c");
    assert_eq!(pool.resolve(1), Some("b"));
    pool.insert(3, "d");
    assert_eq!(pool.pending(), 2);
    assert_eq!(pool.resolve(2), Some("c"));
    assert_eq!(pool.resolve(3), Some("d"));
}
