use ip_proxy_pool::ProxyPool;
use std::sync::Arc;

fn pool_of(items: &[&str]) -> ProxyPool {
    ProxyPool::new(items.iter().map(|s| s.to_string()).collect())
}

fn drain(pool: &mut ProxyPool, n: usize) -> Vec<String> {
    (0..n).map(|_| pool.get_proxy().expect("pool is not empty")).collect()
}

#[test]
fn two_endpoints_rotate() {
    let mut pool = pool_of(&["p1:1000", "p2:2000"]);
    assert_eq!(pool.get_proxy(), Some("p1:1000".to_string()));
    // the pool now stands as p2, p1
    assert_eq!(pool.get_proxy(), Some("p2:2000".to_string()));
    // and is back in its first order
    assert_eq!(drain(&mut pool, 2), vec!["p1:1000", "p2:2000"]);
}

#[test]
fn empty_pool_gives_nothing() {
    let mut pool = ProxyPool::new(Vec::new());
    assert_eq!(pool.get_proxy(), None);
    assert_eq!(pool.get_proxy(), None);
}

#[test]
fn full_cycle_returns_each_endpoint_once_in_order() {
    let items = ["a:1", "b:2", "c:3", "d:4"];
    let mut pool = pool_of(&items);
    let first_cycle = drain(&mut pool, items.len());
    assert_eq!(first_cycle, items);
    // draw N + 1 is the first endpoint again
    assert_eq!(pool.get_proxy(), Some("a:1".to_string()));
}

#[test]
fn single_endpoint_is_returned_every_time() {
    let mut pool = pool_of(&["only:1"]);
    assert_eq!(drain(&mut pool, 3), vec!["only:1", "only:1", "only:1"]);
}

#[test]
fn duplicates_are_kept_by_new() {
    let mut pool = pool_of(&["a:1", "a:1", "b:2"]);
    assert_eq!(drain(&mut pool, 4), vec!["a:1", "a:1", "b:2", "a:1"]);
}

#[test]
fn added_endpoint_waits_for_the_queued_ones() {
    let mut pool = pool_of(&["a:1", "b:2"]);
    assert_eq!(pool.get_proxy(), Some("a:1".to_string()));
    pool.add_proxy("c:3".to_string());
    // b and a were queued before c
    assert_eq!(drain(&mut pool, 4), vec!["b:2", "a:1", "c:3", "b:2"]);
}

#[test]
fn add_to_empty_pool() {
    let mut pool = ProxyPool::new(Vec::new());
    pool.add_proxy("a:1".to_string());
    assert_eq!(pool.get_proxy(), Some("a:1".to_string()));
}

#[test]
fn add_then_remove_restores_the_order() {
    let mut pool = pool_of(&["a:1", "b:2", "c:3"]);
    assert_eq!(pool.get_proxy(), Some("a:1".to_string()));
    // the order is now b, c, a
    pool.add_proxy("x:9".to_string());
    pool.remove_proxy("x:9");
    assert_eq!(drain(&mut pool, 4), vec!["b:2", "c:3", "a:1", "b:2"]);
}

#[test]
fn add_then_remove_of_a_held_endpoint_removes_it_everywhere() {
    let mut pool = pool_of(&["a:1", "b:2"]);
    pool.add_proxy("a:1".to_string());
    pool.remove_proxy("a:1");
    assert_eq!(drain(&mut pool, 2), vec!["b:2", "b:2"]);
}

#[test]
fn remove_takes_every_occurrence_and_keeps_the_rest_in_order() {
    let mut pool = pool_of(&["a:1", "b:2", "a:1", "c:3", "a:1"]);
    pool.remove_proxy("a:1");
    assert_eq!(drain(&mut pool, 3), vec!["b:2", "c:3", "b:2"]);
}

#[test]
fn remove_of_an_absent_endpoint_changes_nothing() {
    let mut pool = pool_of(&["a:1", "b:2"]);
    pool.remove_proxy("z:0");
    assert_eq!(drain(&mut pool, 3), vec!["a:1", "b:2", "a:1"]);
}

#[test]
fn remove_is_exact_about_case_and_length() {
    let mut pool = pool_of(&["Host:1", "host:1", "host:10"]);
    pool.remove_proxy("host:1");
    assert_eq!(drain(&mut pool, 2), vec!["Host:1", "host:10"]);
}

#[test]
fn remove_last_endpoint_empties_the_pool() {
    let mut pool = pool_of(&["a:1"]);
    pool.remove_proxy("a:1");
    assert_eq!(pool.get_proxy(), None);
}

#[test]
fn concurrent_draws_get_distinct_endpoints() {
    let runtime = tokio::runtime::Builder::new_multi_thread()
        .worker_threads(2)
        .build()
        .expect("runtime");
    let shared = Arc::new(tokio::sync::Mutex::new(pool_of(&["p1:1000", "p2:2000"])));
    let (first, second) = runtime.block_on(async {
        let a = {
            let pool = shared.clone();
            tokio::spawn(async move { pool.lock().await.get_proxy() })
        };
        let b = {
            let pool = shared.clone();
            tokio::spawn(async move { pool.lock().await.get_proxy() })
        };
        (a.await.expect("task"), b.await.expect("task"))
    });
    let first = first.expect("pool is not empty");
    let second = second.expect("pool is not empty");
    assert_ne!(first, second);
    let mut drawn = vec![first, second];
    drawn.sort();
    assert_eq!(drawn, vec!["p1:1000", "p2:2000"]);
    // after both draws the pool is back in its first order
    let after = runtime.block_on(async {
        let mut pool = shared.lock().await;
        drain(&mut pool, 2)
    });
    assert_eq!(after, vec!["p1:1000", "p2:2000"]);
}
