//! `ServiceRegistry`: owns pluggable discovery backends and builds locators.

use super::locator::LocatorConfig;
use super::peers::PeerFeedSpec;
use crate::octets::{copy_bytes, same_bytes};
use crate::pool::PoolOptions;
use crate::time::{duration_of_secs, same_duration};
use std::time::Duration;
use vstd::prelude::*;

verus! {

/// What tells shared pools apart.
pub struct PoolKey {
    /// The ALPN of the service.
    pub alpn: Vec<u8>,
    /// The options of the pool.
    pub options: PoolOptions,
}

impl View for PoolKey {
    type V = (Seq<u8>, PoolOptions);

    open spec fn view(&self) -> (Seq<u8>, PoolOptions) {
        (self.alpn@, self.options)
    }
}

/// Whether the options are the same.
fn same_options(a: &PoolOptions, b: &PoolOptions) -> (r: bool)
    ensures
        r == (*a == *b),
{
    same_duration(&a.idle_timeout, &b.idle_timeout) && same_duration(
        &a.connect_timeout,
        &b.connect_timeout,
    ) && a.max_connections == b.max_connections
}

/// What entries map keys to; of two entries with one key the later counts.
pub open spec fn cached<P>(entries: Seq<(PoolKey, P)>) -> Map<(Seq<u8>, PoolOptions), P>
    decreases entries.len(),
{
    if entries.len() == 0 {
        Map::empty()
    } else {
        cached(entries.drop_last()).insert(entries.last().0@, entries.last().1)
    }
}

proof fn lemma_cached<P>(entries: Seq<(PoolKey, P)>)
    requires
        forall|i: int, j: int|
            0 <= i < j < entries.len() ==> (#[trigger] entries[i]).0@ != (#[trigger] entries[j]).0@,
    ensures
        forall|i: int|
            0 <= i < entries.len() ==> cached(entries).contains_key((#[trigger] entries[i]).0@)
                && cached(entries)[entries[i].0@] == entries[i].1,
        forall|key: (Seq<u8>, PoolOptions)| #[trigger]
            cached(entries).contains_key(key) ==> exists|i: int|
                0 <= i < entries.len() && (#[trigger] entries[i]).0@ == key,
    decreases entries.len(),
{
    if entries.len() > 0 {
        let rest = entries.drop_last();
        let last = entries.last();
        assert forall|i: int, j: int| 0 <= i < j < rest.len() implies (#[trigger] rest[i]).0@ != (
        #[trigger] rest[j]).0@ by {
            assert(entries[i].0@ != entries[j].0@);
        }
        lemma_cached(rest);
        assert forall|i: int| 0 <= i < entries.len() implies cached(entries).contains_key(
            (#[trigger] entries[i]).0@,
        ) && cached(entries)[entries[i].0@] == entries[i].1 by {
            if i < rest.len() {
                assert(rest[i] == entries[i]);
                assert(entries[i].0@ != entries[entries.len() - 1].0@);
            }
        }
        assert forall|key: (Seq<u8>, PoolOptions)| #[trigger]
            cached(entries).contains_key(key) implies exists|i: int|
            0 <= i < entries.len() && (#[trigger] entries[i]).0@ == key by {
            if key == last.0@ {
                assert(entries[entries.len() - 1].0@ == key);
            } else {
                assert(cached(rest).contains_key(key));
                let i = choose|i: int| 0 <= i < rest.len() && (#[trigger] rest[i]).0@ == key;
                assert(entries[i].0@ == key);
            }
        }
    }
}

/// The pools that are shared, one for each service and options.
pub struct PoolCache<P> {
    entries: Vec<(PoolKey, P)>,
}

impl<P> View for PoolCache<P> {
    type V = Map<(Seq<u8>, PoolOptions), P>;

    closed spec fn view(&self) -> Map<(Seq<u8>, PoolOptions), P> {
        cached(self.entries@)
    }
}

impl<P> PoolCache<P> {
    /// No key occurs twice.
    pub closed spec fn wf(&self) -> bool {
        forall|i: int, j: int|
            0 <= i < j < self.entries.len() ==> (#[trigger] self.entries@[i]).0@ != (
            #[trigger] self.entries@[j]).0@
    }

    /// Without any pool.
    pub fn new() -> (r: PoolCache<P>)
        ensures
            r.wf(),
            r@ == Map::<(Seq<u8>, PoolOptions), P>::empty(),
    {
        PoolCache { entries: Vec::new() }
    }

    fn position(&self, alpn: &[u8], options: &PoolOptions) -> (r: Option<usize>)
        requires
            self.wf(),
        ensures
            r is Some <==> self@.contains_key((alpn@, *options)),
            r matches Some(k) ==> k < self.entries.len() && self.entries@[k as int].0@ == (
                alpn@,
                *options,
            ) && self@[(alpn@, *options)] == self.entries@[k as int].1,
    {
        let mut k: usize = 0;
        while k < self.entries.len()
            invariant
                k <= self.entries.len(),
                self.wf(),
                forall|j: int|
                    0 <= j < k ==> (#[trigger] self.entries@[j]).0@ != (alpn@, *options),
            decreases self.entries.len() - k,
        {
            if same_bytes(self.entries[k].0.alpn.as_slice(), alpn) && same_options(
                &self.entries[k].0.options,
                options,
            ) {
                proof {
                    lemma_cached(self.entries@);
                    assert(self.entries@[k as int].0@ == (alpn@, *options));
                }
                return Some(k);
            }
            k = k + 1;
        }
        proof {
            lemma_cached(self.entries@);
        }
        None
    }

    /// The pool that is shared for the service with the options, if there is one.
    pub fn get(&self, alpn: &[u8], options: &PoolOptions) -> (r: Option<&P>)
        requires
            self.wf(),
        ensures
            r is Some <==> self@.contains_key((alpn@, *options)),
            r matches Some(pool) ==> *pool == self@[(alpn@, *options)],
    {
        match self.position(alpn, options) {
            Some(k) => Some(&self.entries[k].1),
            None => None,
        }
    }

    /// The pool that is shared for the service with the options. It is made where there is none yet;
    /// pools that are there stay as they are.
    pub fn pool_for_alpn<F: FnOnce() -> P>(
        &mut self,
        alpn: &[u8],
        options: &PoolOptions,
        make: F,
    ) -> (r: &P)
        requires
            old(self).wf(),
            make.requires(()),
        ensures
            final(self).wf(),
            final(self)@.contains_key((alpn@, *options)),
            *r == final(self)@[(alpn@, *options)],
            if old(self)@.contains_key((alpn@, *options)) {
                final(self)@ == old(self)@
            } else {
                exists|pool: P| #[trigger]
                    make.ensures((), pool) && final(self)@ == old(self)@.insert(
                        (alpn@, *options),
                        pool,
                    )
            },
    {
        let found = self.position(alpn, options);
        let k: usize = match found {
            Some(k) => k,
            None => {
                let pool = make();
                self.insert(alpn, options, pool);
                self.entries.len() - 1
            },
        };
        proof {
            lemma_cached(self.entries@);
        }
        &self.entries[k].1
    }

    /// Shares the pool for the service with the options, where none is shared yet.
    fn insert(&mut self, alpn: &[u8], options: &PoolOptions, pool: P)
        requires
            old(self).wf(),
            !old(self)@.contains_key((alpn@, *options)),
        ensures
            final(self).wf(),
            final(self)@ == old(self)@.insert((alpn@, *options), pool),
            final(self).entries.len() > 0,
            final(self).entries@.last().0@ == (alpn@, *options),
    {
        let ghost before = self.entries@;
        let key = PoolKey { alpn: copy_bytes(alpn), options: options.clone() };
        assert(key@ == (alpn@, *options));
        self.entries.push((key, pool));
        proof {
            lemma_cached(before);
            assert(self.entries@.drop_last() =~= before);
            assert forall|i: int, j: int| 0 <= i < j < self.entries.len() implies (
            #[trigger] self.entries@[i]).0@ != (#[trigger] self.entries@[j]).0@ by {
                assert(cached(before).contains_key(before[i].0@));
                if j < before.len() {
                    assert(before[i].0@ != before[j].0@);
                }
            }
        }
    }
}

/// The lists, one behind the other.
pub open spec fn concatenated<T>(lists: Seq<Seq<T>>) -> Seq<T>
    decreases lists.len(),
{
    if lists.len() == 0 {
        Seq::empty()
    } else {
        concatenated(lists.drop_last()) + lists.last()
    }
}

/// The contents of the lists of several backends.
pub open spec fn feed_lists<F>(lists: Seq<Vec<PeerFeedSpec<F>>>) -> Seq<Seq<PeerFeedSpec<F>>> {
    Seq::new(lists.len(), |i: int| lists[i]@)
}

/// The feeds of all backends, in the order of the backends.
pub fn build_feeds<F>(lists: Vec<Vec<PeerFeedSpec<F>>>) -> (feeds: Vec<PeerFeedSpec<F>>)
    ensures
        feeds@ == concatenated(feed_lists(lists@)),
{
    let ghost all = feed_lists(lists@);
    let mut rest = lists;
    let mut feeds: Vec<PeerFeedSpec<F>> = Vec::new();
    let ghost mut done: int = 0;
    assert(all.take(0) =~= Seq::empty());
    while rest.len() > 0
        invariant
            0 <= done <= all.len(),
            feed_lists(rest@) == all.skip(done),
            rest.len() == all.len() - done,
            feeds@ == concatenated(all.take(done)),
        decreases rest.len(),
    {
        let ghost before = rest@;
        let mut list = rest.remove(0);
        proof {
            assert(feed_lists(before)[0] == all[done]);
            assert(feed_lists(rest@) =~= all.skip(done + 1)) by {
                assert forall|i: int| 0 <= i < rest.len() implies #[trigger] feed_lists(rest@)[i]
                    == all.skip(done + 1)[i] by {
                    assert(rest@[i] == before[i + 1]);
                    assert(feed_lists(before)[i + 1] == all.skip(done)[i + 1]);
                }
            }
            assert(all.take(done + 1).drop_last() =~= all.take(done));
        }
        feeds.append(&mut list);
        proof {
            done = done + 1;
        }
    }
    assert(all.take(done) =~= all);
    feeds
}

/// Unified registry for pluggable peer discovery backends.
#[derive(Clone)]
pub struct ServiceRegistry<E, B> {
    endpoint: E,
    backends: Vec<B>,
    pool_options: PoolOptions,
}

impl<E, B> ServiceRegistry<E, B> {
    /// The endpoint.
    pub closed spec fn host(self) -> E {
        self.endpoint
    }

    /// The backends, in the order in which they were added.
    pub closed spec fn added(self) -> Seq<B> {
        self.backends@
    }

    /// The options of pools that are made from now on.
    pub closed spec fn pool_defaults(self) -> PoolOptions {
        self.pool_options
    }

    /// Create an empty registry with no backends.
    #[must_use]
    pub fn new(endpoint: E) -> (r: ServiceRegistry<E, B>)
        ensures
            r.host() == endpoint,
            r.added() == Seq::<B>::empty(),
            r.pool_defaults().idle_timeout == duration_of_secs(10),
            r.pool_defaults().connect_timeout == duration_of_secs(5),
            r.pool_defaults().max_connections == 1024,
    {
        ServiceRegistry { endpoint, backends: Vec::new(), pool_options: PoolOptions::default() }
    }

    /// Add a discovery backend.
    pub fn add(&mut self, backend: B)
        ensures
            final(self).host() == old(self).host(),
            final(self).added() == old(self).added().push(backend),
            final(self).pool_defaults() == old(self).pool_defaults(),
    {
        self.backends.push(backend);
    }

    /// Access the endpoint.
    #[must_use]
    pub fn endpoint(&self) -> (r: &E)
        ensures
            *r == self.host(),
    {
        &self.endpoint
    }

    /// The backends, in the order in which they were added.
    pub fn backends(&self) -> (r: &[B])
        ensures
            r@ == self.added(),
    {
        self.backends.as_slice()
    }

    /// Set default pool options used for service-scoped connection reuse.
    ///
    /// Existing cached pools are retained; the new options apply to pools that are created after
    /// this call.
    pub fn with_pool_options(&mut self, options: PoolOptions)
        ensures
            final(self).host() == old(self).host(),
            final(self).added() == old(self).added(),
            final(self).pool_defaults() == options,
    {
        self.pool_options = options;
    }

    /// The options of pools that are made from now on.
    pub fn default_pool_options(&self) -> (r: PoolOptions)
        ensures
            r == self.pool_defaults(),
    {
        self.pool_options.clone()
    }

    /// Build a locator builder for racing connections.
    #[must_use]
    pub fn find(&self) -> (r: LocatorBuilder)
        ensures
            r.pool_options == self.pool_defaults(),
            r.locator_cfg.max_inflight == 8,
            r.locator_cfg.timeout_each == duration_of_secs(2),
            r.locator_cfg.timeout is None,
            r.locator_cfg.limit == 4,
    {
        LocatorBuilder {
            locator_cfg: LocatorConfig::default(),
            pool_options: self.pool_options.clone(),
        }
    }
}

/// Fluent builder to configure a locator.
pub struct LocatorBuilder {
    /// How connections are raced.
    pub locator_cfg: LocatorConfig,
    /// How the pool is made that the connections come from.
    pub pool_options: PoolOptions,
}

impl LocatorBuilder {
    /// Maximum simultaneous connection attempts.
    #[must_use]
    pub fn max_inflight(self, n: usize) -> (r: LocatorBuilder)
        ensures
            r == (LocatorBuilder {
                locator_cfg: LocatorConfig { max_inflight: n, ..self.locator_cfg },
                ..self
            }),
    {
        let mut r = self;
        r.locator_cfg.max_inflight = n;
        r
    }

    /// Timeout for each individual attempt, and for each connection of the pool.
    #[must_use]
    pub fn timeout_each(self, d: Duration) -> (r: LocatorBuilder)
        ensures
            r == (LocatorBuilder {
                locator_cfg: LocatorConfig { timeout_each: d, ..self.locator_cfg },
                pool_options: PoolOptions { connect_timeout: d, ..self.pool_options },
            }),
    {
        let mut r = self;
        r.locator_cfg.timeout_each = d;
        r.pool_options.connect_timeout = d;
        r
    }

    /// Overall timeout for the locator.
    #[must_use]
    pub fn timeout(self, d: Duration) -> (r: LocatorBuilder)
        ensures
            r == (LocatorBuilder {
                locator_cfg: LocatorConfig { timeout: Some(d), ..self.locator_cfg },
                ..self
            }),
    {
        let mut r = self;
        r.locator_cfg.timeout = Some(d);
        r
    }

    /// Buffer size for successful connections.
    #[must_use]
    pub fn limit(self, n: usize) -> (r: LocatorBuilder)
        ensures
            r == (LocatorBuilder {
                locator_cfg: LocatorConfig { limit: n, ..self.locator_cfg },
                ..self
            }),
    {
        let mut r = self;
        r.locator_cfg.limit = n;
        r
    }

    /// Override the pool options used for this service locator; an attempt may then take as long as
    /// a connection.
    #[must_use]
    pub fn pool_options(self, options: PoolOptions) -> (r: LocatorBuilder)
        ensures
            r == (LocatorBuilder {
                locator_cfg: LocatorConfig {
                    timeout_each: options.connect_timeout,
                    ..self.locator_cfg
                },
                pool_options: options,
            }),
    {
        let mut r = self;
        r.locator_cfg.timeout_each = options.connect_timeout;
        r.pool_options = options;
        r
    }
}

/// The feeds of several backends are those of the first ones followed by those of the others, and
/// those of one backend are its own.
pub proof fn feeds_follow_the_backends<T>(first: Seq<Seq<T>>, others: Seq<Seq<T>>, one: Seq<T>)
    ensures
        concatenated(first + others) == concatenated(first) + concatenated(others),
        concatenated(seq![one]) == one,
        concatenated(Seq::<Seq<T>>::empty()) == Seq::<T>::empty(),
    decreases others.len(),
{
    assert(seq![one].drop_last() =~= Seq::<Seq<T>>::empty());
    assert(concatenated(Seq::<Seq<T>>::empty()) =~= Seq::<T>::empty());
    assert(seq![one].last() == one);
    assert(concatenated(seq![one]) == concatenated(seq![one].drop_last()) + one);
    assert(concatenated(seq![one]) =~= one);
    if others.len() == 0 {
        assert(first + others =~= first);
        assert(concatenated(first) + concatenated(others) =~= concatenated(first));
    } else {
        feeds_follow_the_backends(first, others.drop_last(), one);
        assert((first + others).drop_last() =~= first + others.drop_last());
        assert((first + others).last() == others.last());
        assert(concatenated(first + others) =~= concatenated(first) + concatenated(others));
    }
}

} // verus!
