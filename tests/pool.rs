use std::sync::mpsc::channel;

use cyper::{domain_key, Pool, PoolError, PoolKey};

fn key(scheme: &str, authority: &str) -> PoolKey {
    PoolKey { scheme: scheme.to_string(), authority: authority.to_string() }
}

#[test]
fn second_attempt_is_refused() {
    let mut pool: Pool<String, ()> = Pool::new();
    let k = key("https", "example.com");
    assert_eq!(pool.begin_get_or_connect(&k), Ok(None));
    assert_eq!(
        pool.begin_get_or_connect(&k),
        Err(PoolError::AlreadyConnecting(key("https", "example.com")))
    );
    // Another destination is not affected.
    assert_eq!(pool.begin_get_or_connect(&key("https", "other.com")), Ok(None));
}

#[test]
fn connect_then_reuse() {
    let mut pool: Pool<String, ()> = Pool::new();
    let k = key("https", "example.com");
    assert_eq!(pool.begin_get_or_connect(&k), Ok(None));
    let (_tx, rx) = channel::<()>();
    let got = pool.finish_get_or_connect::<String>(k.duplicate(), Ok(("sender".to_string(), rx)));
    assert_eq!(got, Ok("sender".to_string()));
    assert_eq!(pool.try_pool(&k), Some("sender".to_string()));
    assert_eq!(pool.begin_get_or_connect(&k), Ok(Some("sender".to_string())));
    // No attempt is in flight any more.
    assert_eq!(pool.connecting(k.duplicate()), Ok(()));
}

#[test]
fn failed_connect_releases_key() {
    let mut pool: Pool<String, ()> = Pool::new();
    let k = key("https", "example.com");
    assert_eq!(pool.begin_get_or_connect(&k), Ok(None));
    let got = pool.finish_get_or_connect(k.duplicate(), Err("refused".to_string()));
    assert_eq!(got, Err("refused".to_string()));
    assert_eq!(pool.begin_get_or_connect(&k), Ok(None));
}

#[test]
fn dead_connection_is_evicted() {
    let mut pool: Pool<String, String> = Pool::new();
    let k = key("https", "example.com");
    pool.connecting(k.duplicate()).unwrap();
    let (tx, rx) = channel::<String>();
    assert_eq!(pool.new_connection(k.duplicate(), "s".to_string(), rx), "s".to_string());
    assert_eq!(pool.try_pool(&k), Some("s".to_string()));
    tx.send("connection closed".to_string()).unwrap();
    assert_eq!(pool.try_pool(&k), None);
    // The entry is gone, and a new attempt may start.
    assert_eq!(pool.try_pool(&k), None);
    assert_eq!(pool.begin_get_or_connect(&k), Ok(None));
}

#[test]
fn dropped_driver_counts_as_dead() {
    let mut pool: Pool<String, ()> = Pool::new();
    let k = key("http", "a:80");
    pool.connecting(k.duplicate()).unwrap();
    let (tx, rx) = channel::<()>();
    pool.new_connection_at(k.duplicate(), "s".to_string(), rx, 7);
    drop(tx);
    assert_eq!(pool.try_pool(&k), None);
}

#[test]
fn reuse_decides_on_liveness() {
    let mut pool: Pool<String, ()> = Pool::new();
    let k = key("https", "example.com");
    assert_eq!(pool.reuse(&k, false, 1), None);
    pool.connecting(k.duplicate()).unwrap();
    let (_tx, rx) = channel::<()>();
    pool.new_connection_at(k.duplicate(), "s".to_string(), rx, 1);
    assert_eq!(pool.reuse(&k, false, 2), Some("s".to_string()));
    assert_eq!(pool.reuse(&k, true, 3), None);
    assert_eq!(pool.reuse(&k, false, 4), None);
}

#[test]
fn abandon_releases() {
    let mut pool: Pool<String, ()> = Pool::new();
    let k = key("https", "example.com");
    pool.connecting(k.duplicate()).unwrap();
    assert!(pool.connecting(k.duplicate()).is_err());
    pool.abandon(&k);
    assert_eq!(pool.connecting(k.duplicate()), Ok(()));
}

#[test]
fn domain_key_needs_both_parts() {
    assert_eq!(
        domain_key(Some("https".to_string()), Some("example.com:443".to_string())),
        Ok(key("https", "example.com:443"))
    );
    assert_eq!(domain_key(None, Some("example.com".to_string())), Err(PoolError::MissingDomain));
    assert_eq!(domain_key(Some("https".to_string()), None), Err(PoolError::MissingDomain));
}
