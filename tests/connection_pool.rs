use mongo_tunnel::registry::{Claim, ConnectionRegistry};

#[test]
fn concurrent_requests_build_once() {
    let mut pool: ConnectionRegistry<u32> = ConnectionRegistry::new();
    let claims: Vec<Claim> = (0..8).map(|_| pool.begin("db1")).collect();
    assert_eq!(claims.iter().filter(|c| **c == Claim::Build).count(), 1);
    assert_eq!(claims[0], Claim::Build);
    assert!(claims[1..].iter().all(|c| *c == Claim::Wait));
    pool.complete("db1", 41);
    assert_eq!(pool.begin("db1"), Claim::Ready);
    assert_eq!(pool.get("db1"), Some(&41));
}

#[test]
fn abandoned_build_can_be_retried() {
    let mut pool: ConnectionRegistry<u32> = ConnectionRegistry::new();
    assert_eq!(pool.begin("x"), Claim::Build);
    pool.abandon("x");
    assert_eq!(pool.get("x"), None);
    assert_eq!(pool.begin("x"), Claim::Build);
}

#[test]
fn remove_hands_out_the_entry() {
    let mut pool: ConnectionRegistry<u32> = ConnectionRegistry::new();
    pool.begin("a");
    pool.complete("a", 1);
    pool.begin("b");
    pool.complete("b", 2);
    assert_eq!(pool.remove("a"), Some(1));
    assert_eq!(pool.remove("a"), None);
    assert_eq!(pool.get("a"), None);
    assert_eq!(pool.get("b"), Some(&2));
    assert_eq!(pool.begin("a"), Claim::Build);
}
