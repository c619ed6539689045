//! A lazy service container: factories are registered under a key, and the
//! first request for a key builds its service, which is then kept and
//! handed out again on every later request.

use vstd::prelude::*;
use std::collections::HashMap;

verus! {

broadcast use vstd::std_specs::hash::group_hash_axioms;

/// Builds a service when it is first requested. It may resolve the
/// services it depends on through the registry and cache it is given, so
/// dependencies are built lazily, whatever order they were registered in.
pub trait ServiceFactory<S>: Sized {
    /// Whether building from `registry` with the cache `before` can leave
    /// the cache as `after` and give `service`. Any outcome, unless a
    /// factory says more.
    open spec fn builds(self, registry: Registry<Self>, before: ServiceCache<S>, after: ServiceCache<S>, service: S) -> bool {
        true
    }

    /// Builds the service.
    fn build(&self, registry: &Registry<Self>, cache: &mut ServiceCache<S>) -> (r: S)
        ensures
            self.builds(*registry, *old(cache), *final(cache), r),
    ;
}

/// The registered factories, at most one per key.
pub struct Registry<F> {
    factories: HashMap<u64, F>,
}

impl<F> Registry<F> {
    /// The registered factories, by key.
    pub closed spec fn entries(self) -> Map<u64, F> {
        self.factories@
    }

    /// Whether a factory is registered under `k`.
    pub open spec fn has(self, k: u64) -> bool {
        self.entries().contains_key(k)
    }

    /// The factory registered under `k`.
    pub open spec fn factory(self, k: u64) -> F {
        self.entries()[k]
    }
}

/// The services built so far, at most one per key.
pub struct ServiceCache<S> {
    services: HashMap<u64, S>,
}

impl<S> ServiceCache<S> {
    /// The services built so far, by key.
    pub closed spec fn entries(self) -> Map<u64, S> {
        self.services@
    }

    /// Whether a service is cached under `k`.
    pub open spec fn has(self, k: u64) -> bool {
        self.entries().contains_key(k)
    }

    /// The service cached under `k`.
    pub open spec fn service(self, k: u64) -> S {
        self.entries()[k]
    }
}

/// Resolves the service registered under `key`: a cached service is
/// handed out again; otherwise the factory builds one, which is cached
/// (unless building it already cached one under the same key, which then
/// wins) and handed out. `None` when no factory is registered.
pub fn resolve<F: ServiceFactory<S>, S: Clone>(registry: &Registry<F>, cache: &mut ServiceCache<S>, key: u64) -> (r: Option<S>)
    ensures
        old(cache).has(key) ==> *final(cache) == *old(cache) && r is Some
            && cloned(old(cache).service(key), r->0),
        !old(cache).has(key) && !registry.has(key) ==> *final(cache) == *old(cache) && r is None,
        !old(cache).has(key) && registry.has(key) ==> r is Some && final(cache).has(key)
            && cloned(final(cache).service(key), r->0),
        !old(cache).has(key) && registry.has(key) ==> exists|mid: ServiceCache<S>, built: S|
            #[trigger] registry.factory(key).builds(*registry, *old(cache), mid, built) && if mid.has(key) {
                *final(cache) == mid
            } else {
                final(cache).entries() == mid.entries().insert(key, built)
            },
{
    if let Some(s) = cache.services.get(&key) {
        return Some(s.clone());
    }
    let factory = match registry.factories.get(&key) {
        Some(f) => f,
        None => {
            return None;
        },
    };
    let ghost before_build = *cache;
    let built = factory.build(registry, cache);
    let ghost mid = *cache;
    assert(registry.factory(key).builds(*registry, before_build, mid, built));
    if let Some(s) = cache.services.get(&key) {
        return Some(s.clone());
    }
    let handed = built.clone();
    cache.services.insert(key, built);
    assert(cache.entries() == mid.entries().insert(key, built));
    Some(handed)
}

/// The container: registered factories and the services built from them.
pub struct Ioc<F, S> {
    registry: Registry<F>,
    cache: ServiceCache<S>,
}

impl<F: ServiceFactory<S>, S: Clone> Ioc<F, S> {
    /// The registered factories.
    pub closed spec fn registry(self) -> Registry<F> {
        self.registry
    }

    /// The services built so far.
    pub closed spec fn cache(self) -> ServiceCache<S> {
        self.cache
    }

    /// An empty container.
    pub fn new() -> (r: Self)
        ensures
            r.registry().entries() == Map::<u64, F>::empty(),
            r.cache().entries() == Map::<u64, S>::empty(),
    {
        Ioc { registry: Registry { factories: HashMap::new() }, cache: ServiceCache { services: HashMap::new() } }
    }

    /// Whether no factory is registered and no service is cached.
    pub fn is_empty(&self) -> (r: bool)
        ensures
            r == (self.registry().entries().len() == 0 && self.cache().entries().len() == 0),
    {
        self.registry.factories.len() == 0 && self.cache.services.len() == 0
    }

    /// Registers `factory` under `key`, replacing an earlier factory for the
    /// same key. Services already built are kept.
    pub fn register(&mut self, key: u64, factory: F)
        ensures
            final(self).registry().entries() == old(self).registry().entries().insert(key, factory),
            final(self).cache() == old(self).cache(),
    {
        self.registry.factories.insert(key, factory);
    }

    /// The service registered under `key`; see [`resolve`]. Once a service
    /// is handed out it is kept, so every later `get` of `key` hands out a
    /// clone of that same service and leaves the cache as it is.
    pub fn get(&mut self, key: u64) -> (r: Option<S>)
        ensures
            final(self).registry() == old(self).registry(),
            old(self).cache().has(key) ==> final(self).cache() == old(self).cache() && r is Some
                && cloned(old(self).cache().service(key), r->0),
            !old(self).cache().has(key) && !old(self).registry().has(key) ==> final(self).cache()
                == old(self).cache() && r is None,
            !old(self).cache().has(key) && old(self).registry().has(key) ==> r is Some
                && final(self).cache().has(key) && cloned(final(self).cache().service(key), r->0),
            !old(self).cache().has(key) && old(self).registry().has(key) ==> exists|mid: ServiceCache<S>, built: S|
                #[trigger] old(self).registry().factory(key).builds(old(self).registry(), old(self).cache(), mid, built)
                    && if mid.has(key) {
                    final(self).cache() == mid
                } else {
                    final(self).cache().entries() == mid.entries().insert(key, built)
                },
            r matches Some(x) ==> final(self).cache().has(key) && cloned(final(self).cache().service(key), x),
    {
        resolve(&self.registry, &mut self.cache, key)
    }
}

} // verus!
