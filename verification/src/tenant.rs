//! Tenant resolution: maps a request host to a tenant identifier and the
//! connection descriptor of its dedicated data store, with an in-memory
//! cache. The cache is consulted first; loopback hosts short-circuit to the
//! fixed default tenant; only then does the caller query the store and hand
//! the row back in.

use vstd::prelude::*;

verus! {

use crate::errors::AuthError;

/// A tenant identifier and its data-store connection descriptor.
#[derive(Debug)]
pub struct TenantInfo {
    pub school_id: u128,
    pub dsn: String,
}

/// Specification-level shape of `TenantInfo`.
pub ghost struct TenantInfoV {
    pub school_id: u128,
    pub dsn: Seq<char>,
}

impl View for TenantInfo {
    type V = TenantInfoV;

    open spec fn view(&self) -> TenantInfoV {
        TenantInfoV { school_id: self.school_id, dsn: self.dsn@ }
    }
}

struct CacheEntry {
    host: String,
    info: TenantInfo,
}

/// Specification-level shape of one cache entry.
pub ghost struct CacheEntryV {
    pub host: Seq<char>,
    pub info: TenantInfoV,
}

impl View for CacheEntry {
    type V = CacheEntryV;

    closed spec fn view(&self) -> CacheEntryV {
        CacheEntryV { host: self.host@, info: self.info@ }
    }
}

impl DeepView for CacheEntry {
    type V = CacheEntryV;

    closed spec fn deep_view(&self) -> CacheEntryV {
        self.view()
    }
}

/// Specification-level shape of the resolver.
pub ghost struct ResolverV {
    pub default_dsn: Seq<char>,
    pub cache: Seq<CacheEntryV>,
}

/// First cached mapping for a host, if any.
pub open spec fn cache_lookup(cache: Seq<CacheEntryV>, host: Seq<char>) -> Option<TenantInfoV>
    decreases cache.len(),
{
    if cache.len() == 0 {
        None
    } else if cache[0].host == host {
        Some(cache[0].info)
    } else {
        cache_lookup(cache.drop_first(), host)
    }
}

/// The fixed tenant identifier of local-development deployments.
pub open spec fn default_school_id() -> u128 {
    1
}

/// Loopback hosts short-circuit to the default tenant.
pub open spec fn is_loopback(host: Seq<char>) -> bool {
    (host.len() >= 9 && host.take(9) == "localhost"@) || (host.len() >= 9 && host.take(9)
        == "127.0.0.1"@)
}

/// Whether `s` begins with `p`.
fn starts_with_str(s: &str, p: &str) -> (r: bool)
    ensures
        r == (s@.len() >= p@.len() && s@.take(p@.len() as int) == p@),
{
    let m = p.unicode_len();
    if s.unicode_len() < m {
        return false;
    }
    let mut i: usize = 0;
    while i < m
        invariant
            0 <= i <= m,
            m == p@.len(),
            s@.len() >= m,
            forall|t: int| 0 <= t < i ==> s@[t] == p@[t],
        decreases m - i,
    {
        if s.get_char(i) != p.get_char(i) {
            proof {
                assert(s@.take(m as int)[i as int] != p@[i as int]);
            }
            return false;
        }
        i = i + 1;
    }
    proof {
        assert(s@.take(m as int) =~= p@);
    }
    true
}

/// Maps request hosts to tenants, caching every successful resolution. The
/// data-store query itself happens outside: `resolve_tenant` answers from
/// the cache or the loopback rule, and `resolve_tenant_fetched` takes the
/// queried row and completes the resolution.
pub struct MetaResolver {
    default_tenant_db: String,
    cache: Vec<CacheEntry>,
}

impl View for MetaResolver {
    type V = ResolverV;

    closed spec fn view(&self) -> ResolverV {
        ResolverV { default_dsn: self.default_tenant_db@, cache: self.cache.deep_view() }
    }
}

proof fn lemma_cache_lookup_at(cache: Seq<CacheEntryV>, host: Seq<char>, i: int)
    requires
        0 <= i < cache.len(),
        cache[i].host == host,
        forall|t: int| 0 <= t < i ==> (#[trigger] cache[t]).host != host,
    ensures
        cache_lookup(cache, host) == Some(cache[i].info),
    decreases i,
{
    if i == 0 {
    } else {
        assert(cache[0].host != host);
        assert(cache.drop_first()[i - 1] == cache[i]);
        assert(forall|t: int|
            0 <= t < i - 1 ==> (#[trigger] cache.drop_first()[t]) == cache[t + 1]);
        lemma_cache_lookup_at(cache.drop_first(), host, i - 1);
    }
}

proof fn lemma_cache_lookup_none(cache: Seq<CacheEntryV>, host: Seq<char>)
    requires
        forall|t: int| 0 <= t < cache.len() ==> (#[trigger] cache[t]).host != host,
    ensures
        cache_lookup(cache, host) is None,
    decreases cache.len(),
{
    if cache.len() > 0 {
        assert(forall|t: int|
            0 <= t < cache.len() - 1 ==> (#[trigger] cache.drop_first()[t]) == cache[t + 1]);
        lemma_cache_lookup_none(cache.drop_first(), host);
    }
}

/// Tenant cache coherency: once a resolution for a host is cached, looking
/// the host up yields exactly that mapping, so a second resolution answers
/// from the cache and no further store query is needed.
pub proof fn lemma_cache_coherency(cache: Seq<CacheEntryV>, host: Seq<char>, info: TenantInfoV)
    requires
        cache_lookup(cache, host) is None,
    ensures
        cache_lookup(cache.push(CacheEntryV { host, info }), host) == Some(info),
    decreases cache.len(),
{
    if cache.len() == 0 {
        assert(cache.push(CacheEntryV { host, info })[0].host == host);
    } else {
        assert(cache[0].host != host);
        lemma_cache_coherency(cache.drop_first(), host, info);
        assert(cache.push(CacheEntryV { host, info }).drop_first() =~= cache.drop_first().push(
            CacheEntryV { host, info },
        ));
    }
}

impl MetaResolver {
    pub fn new(default_tenant_db: String) -> (r: MetaResolver)
        ensures
            r@.default_dsn == default_tenant_db@,
            r@.cache == Seq::<CacheEntryV>::empty(),
    {
        let r = MetaResolver { default_tenant_db, cache: Vec::new() };
        proof {
            assert(r@.cache =~= Seq::<CacheEntryV>::empty());
        }
        r
    }

    fn cache_get(&self, host: &str) -> (r: Option<TenantInfo>)
        ensures
            match r {
                Some(info) => cache_lookup(self@.cache, host@) == Some(info@),
                None => cache_lookup(self@.cache, host@) is None,
            },
    {
        let n = self.cache.len();
        let mut i: usize = 0;
        while i < n
            invariant
                0 <= i <= n,
                n == self.cache.len(),
                forall|t: int| 0 <= t < i ==> (#[trigger] self@.cache[t]).host != host@,
            decreases n - i,
        {
            let entry = &self.cache[i];
            proof {
                assert(self@.cache[i as int] == entry@);
            }
            if crate::rbac::str_eq(entry.host.as_str(), host) {
                let info = TenantInfo {
                    school_id: entry.info.school_id,
                    dsn: entry.info.dsn.clone(),
                };
                proof {
                    lemma_cache_lookup_at(self@.cache, host@, i as int);
                }
                return Some(info);
            }
            i = i + 1;
        }
        proof {
            lemma_cache_lookup_none(self@.cache, host@);
        }
        None
    }

    /// The local step of resolution: answers from the cache when the host
    /// is known; a loopback host resolves to the fixed default tenant
    /// regardless of store contents and is cached. `None` means the caller
    /// must query the tenant-domain mapping and finish with
    /// `resolve_tenant_fetched`.
    pub fn resolve_tenant(&mut self, host: &str) -> (r: Option<TenantInfo>)
        ensures
            final(self)@.default_dsn == old(self)@.default_dsn,
            match cache_lookup(old(self)@.cache, host@) {
                Some(info) => r matches Some(i) && i@ == info && final(self)@ == old(self)@,
                None => if is_loopback(host@) {
                    &&& r matches Some(i) && i@ == (TenantInfoV {
                        school_id: default_school_id(),
                        dsn: old(self)@.default_dsn,
                    })
                    &&& final(self)@.cache == old(self)@.cache.push(
                        CacheEntryV {
                            host: host@,
                            info: TenantInfoV {
                                school_id: default_school_id(),
                                dsn: old(self)@.default_dsn,
                            },
                        },
                    )
                } else {
                    r is None && final(self)@ == old(self)@
                },
            },
    {
        if let Some(info) = self.cache_get(host) {
            return Some(info);
        }
        if starts_with_str(host, "localhost") || starts_with_str(host, "127.0.0.1") {
            proof {
                reveal_strlit("localhost");
                reveal_strlit("127.0.0.1");
            }
            let info = TenantInfo { school_id: 1, dsn: self.default_tenant_db.clone() };
            let ghost iv = info@;
            let entry = CacheEntry {
                host: host.to_owned(),
                info: TenantInfo { school_id: 1, dsn: self.default_tenant_db.clone() },
            };
            let ghost ev = entry@;
            self.cache.push(entry);
            proof {
                assert(final(self)@.cache =~= old(self)@.cache.push(ev));
            }
            return Some(info);
        }
        proof {
            reveal_strlit("localhost");
            reveal_strlit("127.0.0.1");
        }
        None
    }

    /// Completes a resolution with the row the caller fetched from the
    /// tenant-domain mapping: a match is cached and returned, no match is
    /// the tenant-not-found failure.
    pub fn resolve_tenant_fetched(&mut self, host: &str, fetched: Option<TenantInfo>) -> (r:
        Result<TenantInfo, AuthError>)
        ensures
            final(self)@.default_dsn == old(self)@.default_dsn,
            match fetched {
                Some(info) => {
                    &&& r matches Ok(i) && i@ == info@
                    &&& final(self)@.cache == old(self)@.cache.push(
                        CacheEntryV { host: host@, info: info@ },
                    )
                },
                None => r == Err::<TenantInfo, AuthError>(AuthError::TenantNotFound)
                    && final(self)@ == old(self)@,
            },
    {
        match fetched {
            Some(info) => {
                let out = TenantInfo { school_id: info.school_id, dsn: info.dsn.clone() };
                let entry = CacheEntry { host: host.to_owned(), info };
                let ghost ev = entry@;
                self.cache.push(entry);
                proof {
                    assert(final(self)@.cache =~= old(self)@.cache.push(ev));
                }
                Ok(out)
            },
            None => Err(AuthError::TenantNotFound),
        }
    }
}

} // verus!
