use scred_http::h2::upstream_pool::{UpstreamH2Connection, UpstreamH2Pool};

#[test]
fn test_pool_creation() {
    let mut pool = UpstreamH2Pool::new();
    let conn = pool.get_or_create("example.com", 443).unwrap();
    assert_eq!(conn.hostname(), "example.com");
    assert_eq!(conn.port(), 443);
}

#[test]
fn test_connection_reuse() {
    let mut pool = UpstreamH2Pool::new();
    let conn1 = pool.get_or_create("example.com", 443).unwrap();
    let conn2 = pool.get_or_create("example.com", 443).unwrap();
    assert_eq!(conn1.id(), conn2.id());
}

#[test]
fn test_different_hosts_separate_connections() {
    let mut pool = UpstreamH2Pool::new();
    let conn1 = pool.get_or_create("example.com", 443).unwrap();
    let conn2 = pool.get_or_create("other.com", 443).unwrap();
    assert_ne!(conn1.id(), conn2.id());
}

#[test]
fn test_pool_stats() {
    let mut pool = UpstreamH2Pool::new();
    pool.get_or_create("example.com", 443).ok();
    pool.get_or_create("other.com", 443).ok();
    let stats = pool.stats();
    assert_eq!(stats.total_hosts, 2);
    assert_eq!(stats.total_connections, 2);
}

#[test]
fn test_stream_counting() {
    let mut pool = UpstreamH2Pool::new();
    let mut conn = pool.get_or_create("example.com", 443).unwrap();
    assert_eq!(conn.active_stream_count(), 0);
    conn.increment_streams();
    assert_eq!(conn.active_stream_count(), 1);
    conn.increment_streams();
    assert_eq!(conn.active_stream_count(), 2);
    conn.decrement_streams();
    assert_eq!(conn.active_stream_count(), 1);
}

#[test]
fn test_close_connection() {
    let mut pool = UpstreamH2Pool::new();
    let conn = pool.get_or_create("example.com", 443).unwrap();
    let conn_id = conn.id();
    pool.close_connection("example.com", 443, conn_id).ok();
    let stats = pool.stats();
    assert_eq!(stats.total_connections, 0);
}

#[test]
fn test_saturated_connections_and_limit() {
    let mut pool = UpstreamH2Pool::new();
    let mut ids = Vec::new();
    for _ in 0..4 {
        let c = pool.get_or_create("h", 80).unwrap();
        assert!(!ids.contains(&c.id()));
        // A connection with room is handed out again.
        assert_eq!(pool.get_or_create("h", 80).unwrap().id(), c.id());
        for _ in 0..100 {
            pool.increment_streams("h", 80, c.id());
        }
        ids.push(c.id());
    }
    assert_eq!(ids, vec![0, 1, 2, 3]);
    let err = pool.get_or_create("h", 80).unwrap_err();
    assert_eq!(err, "UpstreamH2Pool: Max connections reached for h:80");
    let stats = pool.stats();
    assert_eq!(stats.total_hosts, 1);
    assert_eq!(stats.total_connections, 4);
    assert_eq!(stats.total_active_streams, 400);
    assert_eq!(stats.hosts, vec![("h:80".to_string(), 4, 400)]);
    assert_eq!(stats.to_string(), "UpstreamH2Pool: 1 hosts, 4 connections, 400 active streams");
    pool.decrement_streams("h", 80, 2);
    assert_eq!(pool.get_or_create("h", 80).unwrap().id(), 2);
}

#[test]
fn test_close_keeps_other_connections_and_drops_empty_pool() {
    let mut pool = UpstreamH2Pool::new();
    let a = pool.get_or_create("a", 1).unwrap();
    pool.increment_streams("a", 1, a.id());
    let a2 = pool.get_or_create("a", 1).unwrap();
    assert_eq!(a.id(), a2.id());
    pool.close_connection("a", 1, 999).unwrap();
    assert_eq!(pool.stats().total_connections, 1);
    pool.close_connection("a", 1, a.id()).unwrap();
    assert_eq!(pool.stats().total_hosts, 0);
    let fresh = UpstreamH2Connection::new(7, "x".to_string(), 9);
    assert_eq!(fresh.active_stream_count(), 0);
}
