use rust_crawler::proxy::{ProxyError, ProxyPool, ProxyProtocol};

fn ids_of(pool: &ProxyPool) -> Vec<String> {
    pool.list().into_iter().map(|d| d.id).collect()
}

#[test]
fn add_plain_then_list() {
    let mut pool = ProxyPool::new();
    let d = pool.add("10.0.0.1:8080").unwrap();
    assert_eq!(d.id, "10.0.0.1:8080");
    let listed = pool.list();
    assert_eq!(listed.len(), 1);
    assert_eq!(listed[0].id, "10.0.0.1:8080");
    assert_eq!(listed[0].host, "10.0.0.1");
    assert_eq!(listed[0].port, 8080);
    assert!(listed[0].username.is_none());
    assert!(listed[0].password.is_none());
    assert!(listed[0].healthy);
    assert!(!listed[0].requires_auth());
}

#[test]
fn add_with_credentials_then_list() {
    let mut pool = ProxyPool::new();
    pool.add("user:pass@1.2.3.4:8080").unwrap();
    let listed = pool.list();
    assert_eq!(listed.len(), 1);
    assert_eq!(listed[0].id, "1.2.3.4:8080");
    assert_eq!(listed[0].username.as_deref(), Some("user"));
    assert_eq!(listed[0].password.as_deref(), Some("pass"));
    assert!(listed[0].requires_auth());
}

#[test]
fn scheme_prefix_sets_protocol() {
    let mut pool = ProxyPool::new();
    let d = pool.add("socks5://proxy.example:1080").unwrap();
    assert_eq!(d.protocol, ProxyProtocol::Socks5);
    assert_eq!(d.id, "proxy.example:1080");
    assert_eq!(d.chrome_arg(), "socks5://proxy.example:1080");
    let h = pool.add("https://a.example:443").unwrap();
    assert_eq!(h.protocol, ProxyProtocol::Https);
}

#[test]
fn malformed_specs_are_parse_errors() {
    let mut pool = ProxyPool::new();
    for bad in ["", "hostonly", "host:", ":8080", "host:0", "host:65536", "host:80x", "user@host:80", ":pw@host:80", "host:080"] {
        assert_eq!(pool.add(bad).unwrap_err(), ProxyError::Parse, "spec {:?}", bad);
    }
    assert_eq!(pool.list().len(), 0);
    assert!(pool.add("host:65535").is_ok());
}

#[test]
fn duplicate_id_is_refused() {
    let mut pool = ProxyPool::new();
    pool.add("1.2.3.4:8080").unwrap();
    assert_eq!(pool.add("u:p@1.2.3.4:8080").unwrap_err(), ProxyError::Duplicate);
    assert_eq!(pool.list().len(), 1);
}

#[test]
fn unknown_id_is_not_found() {
    let mut pool = ProxyPool::new();
    assert_eq!(pool.remove("x:1"), Err(ProxyError::NotFound));
    assert_eq!(pool.enable("x:1"), Err(ProxyError::NotFound));
    assert_eq!(pool.disable("x:1"), Err(ProxyError::NotFound));
    assert_eq!(pool.record_outcome("x:1", true), Err(ProxyError::NotFound));
}

#[test]
fn empty_pool_gives_none() {
    let mut pool = ProxyPool::new();
    assert!(pool.get_next().is_none());
}

#[test]
fn round_robin_is_balanced_and_ordered() {
    let mut pool = ProxyPool::new();
    for s in ["a:1", "b:2", "c:3"] {
        pool.add(s).unwrap();
    }
    let picks: Vec<String> = (0..7).map(|_| pool.get_next().unwrap().id).collect();
    assert_eq!(picks, vec!["a:1", "b:2", "c:3", "a:1", "b:2", "c:3", "a:1"]);
    let count = |id: &str| picks.iter().filter(|p| p.as_str() == id).count();
    assert_eq!(count("a:1"), 3);
    assert_eq!(count("b:2"), 2);
    assert_eq!(count("c:3"), 2);
}

#[test]
fn disabled_never_reappears_until_enabled() {
    let mut pool = ProxyPool::new();
    for s in ["a:1", "b:2", "c:3"] {
        pool.add(s).unwrap();
    }
    pool.disable("b:2").unwrap();
    pool.disable("b:2").unwrap();
    for _ in 0..9 {
        let p = pool.get_next().unwrap();
        assert_ne!(p.id, "b:2");
        pool.record_outcome("b:2", true).unwrap();
    }
    pool.enable("b:2").unwrap();
    let picks: Vec<String> = (0..3).map(|_| pool.get_next().unwrap().id).collect();
    assert!(picks.contains(&"b:2".to_string()));
}

#[test]
fn all_disabled_gives_none() {
    let mut pool = ProxyPool::new();
    pool.add("a:1").unwrap();
    pool.disable("a:1").unwrap();
    assert!(pool.get_next().is_none());
}

#[test]
fn consecutive_failures_demote_and_success_promotes() {
    let mut pool = ProxyPool::new();
    pool.add("a:1").unwrap();
    pool.record_outcome("a:1", false).unwrap();
    pool.record_outcome("a:1", false).unwrap();
    assert!(pool.list()[0].healthy);
    pool.record_outcome("a:1", false).unwrap();
    let d = &pool.list()[0];
    assert!(!d.healthy);
    assert_eq!(d.failure_count, 3);
    assert!(pool.get_next().is_none());
    pool.record_outcome("a:1", true).unwrap();
    let d = &pool.list()[0];
    assert!(d.healthy);
    assert_eq!(d.success_count, 1);
    assert_eq!(d.consecutive_failures, 0);
}

#[test]
fn remove_takes_descriptor_out() {
    let mut pool = ProxyPool::new();
    pool.add("a:1").unwrap();
    pool.add("b:2").unwrap();
    pool.remove("a:1").unwrap();
    assert_eq!(ids_of(&pool), vec!["b:2"]);
    assert_eq!(pool.get_next().unwrap().id, "b:2");
}

#[test]
fn stats_count_and_average() {
    let mut pool = ProxyPool::new();
    let empty = pool.stats();
    assert_eq!((empty.total, empty.healthy_count, empty.average_success_permille), (0, 0, 0));
    pool.add("a:1").unwrap();
    pool.add("b:2").unwrap();
    pool.record_outcome("a:1", true).unwrap();
    pool.record_outcome("a:1", false).unwrap();
    pool.disable("b:2").unwrap();
    let st = pool.stats();
    assert_eq!(st.total, 2);
    assert_eq!(st.healthy_count, 1);
    // a: 500 permille, b: no attempts, 1000 permille.
    assert_eq!(st.average_success_permille, 750);
}
