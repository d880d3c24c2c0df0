use authcore::errors::AuthError;
use authcore::tenant::{MetaResolver, TenantInfo};

fn resolver() -> MetaResolver {
    MetaResolver::new("postgres://localhost:5432/school_demo".to_string())
}

#[test]
fn loopback_hosts_resolve_to_the_default_tenant() {
    let mut r = resolver();
    for host in ["localhost", "localhost:8787", "127.0.0.1", "127.0.0.1:8080"] {
        let info = r.resolve_tenant(host).expect("loopback must resolve locally");
        assert_eq!(info.school_id, 1);
        assert_eq!(info.dsn, "postgres://localhost:5432/school_demo");
    }
}

#[test]
fn unknown_host_defers_to_the_store_then_caches() {
    let mut r = resolver();
    // first resolution: cache miss, not loopback, so the caller must query
    assert!(r.resolve_tenant("school-a.example.org").is_none());
    // the store returned a mapping; it is cached and returned
    let fetched = TenantInfo {
        school_id: 42,
        dsn: "postgres://db-a:5432/school_a".to_string(),
    };
    let info = r.resolve_tenant_fetched("school-a.example.org", Some(fetched)).unwrap();
    assert_eq!(info.school_id, 42);
    // second resolution answers from the cache: no store query is needed
    let again = r.resolve_tenant("school-a.example.org").expect("cached");
    assert_eq!(again.school_id, 42);
    assert_eq!(again.dsn, "postgres://db-a:5432/school_a");
    // an unrelated host still misses
    assert!(r.resolve_tenant("school-b.example.org").is_none());
}

#[test]
fn missing_mapping_is_tenant_not_found() {
    let mut r = resolver();
    assert!(r.resolve_tenant("nowhere.example.org").is_none());
    let e = r.resolve_tenant_fetched("nowhere.example.org", None).unwrap_err();
    assert_eq!(e, AuthError::TenantNotFound);
    // a failed resolution caches nothing
    assert!(r.resolve_tenant("nowhere.example.org").is_none());
}

#[test]
fn cached_loopback_entry_wins_on_the_second_call() {
    let mut r = resolver();
    let first = r.resolve_tenant("localhost").unwrap();
    let second = r.resolve_tenant("localhost").unwrap();
    assert_eq!(first.school_id, second.school_id);
    assert_eq!(first.dsn, second.dsn);
}
