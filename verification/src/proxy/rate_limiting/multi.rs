//! A rate limiter with one bucket per request key, in a bounded cache.
//!
//! See the [`Rater`] structure for more details

use crate::net::{ClientAddr, ClientAddrView, IpAddress};
use crate::proxy::rate_limiting::{
    bucket_settings_of, new_bucket, regex_matches, share_bucket, BucketSettings, RegexShim, Ticket,
};
use crate::session::{Session, SessionView};
use concread::arcache::{ARCache, ARCacheBuilder};
use std::fmt::Debug;
use std::hash::Hash;
use std::sync::Arc;
use vstd::prelude::*;
use vstd::std_specs::cmp::PartialEqSpecImpl;

verus! {

#[verifier::external_type_specification]
#[verifier::external_body]
#[verifier::reject_recursive_types(K)]
#[verifier::reject_recursive_types(V)]
pub struct ExARCache<K, V>(ARCache<K, V>) where
    K: Hash + Eq + Ord + Clone + Debug + Sync + Send + 'static,
    V: Clone + Debug + Sync + Send + 'static,
;

#[derive(Debug, Clone, PartialEq)]
pub struct MultiRaterInstanceConfig {
    pub rater_cfg: MultiRaterConfig,
    pub kind: MultiRequestKeyKind,
}

/// Configuration for the [`Rater`]
#[derive(Debug, PartialEq, Eq, Clone, Copy, Structural)]
pub struct MultiRaterConfig {
    /// The number of expected concurrent threads - should match the number of
    /// tokio threadpool workers
    pub threads: usize,
    /// The peak number of leaky buckets we aim to have live at once
    ///
    /// NOTE: This is not a hard limit of the amount of memory used.
    pub max_buckets: usize,
    /// The max and initial number of tokens in the leaky bucket - this is the number of
    /// requests that can go through without any waiting if the bucket is full
    pub max_tokens_per_bucket: usize,
    /// The interval between "refills" of the bucket, e.g. the bucket refills `refill_qty`
    /// every `refill_interval_millis`
    pub refill_interval_millis: usize,
    /// The number of tokens added to the bucket every `refill_interval_millis`
    pub refill_qty: usize,
}

impl MultiRaterConfig {
    /// The buckets that this configuration asks for: fair, and full at the
    /// start. A bucket never refills by more than it holds.
    pub open spec fn settings(self) -> BucketSettings {
        BucketSettings::full(
            self.max_tokens_per_bucket,
            self.refill_interval_millis,
            if self.refill_qty <= self.max_tokens_per_bucket {
                self.refill_qty
            } else {
                self.max_tokens_per_bucket
            },
        )
    }

    /// The number of readers that the cache is made for: the number of
    /// threads, and one where there is none.
    pub open spec fn readers(self) -> usize {
        if self.threads < 1 {
            1
        } else {
            self.threads
        }
    }

    /// A limiter can be built from this configuration: its buckets can be
    /// built, and the cache sizes fit the cache's signed arithmetic.
    pub open spec fn valid(self) -> bool {
        &&& self.settings().valid()
        &&& self.max_buckets <= isize::MAX
        &&& self.threads <= isize::MAX
    }

    /// Whether a limiter can be built from this configuration.
    pub fn is_valid(&self) -> (r: bool)
        ensures
            r == self.valid(),
    {
        self.refill_interval_millis > 0 && self.refill_qty > 0 && self.max_tokens_per_bucket > 0
            && self.max_buckets <= isize::MAX as usize && self.threads <= isize::MAX as usize
    }
}

#[derive(Debug, Clone, PartialEq)]
pub enum MultiRequestKeyKind {
    /// One bucket per client IP address.
    SourceIp,
    /// One bucket per URI path that matches the pattern.
    Uri { pattern: RegexShim },
}

/// What a rate-limit bucket is kept under.
#[derive(Debug, Clone, Eq, PartialOrd, Ord, Hash)]
pub enum MultiRequestKey {
    Source(IpAddress),
    Uri(String),
}

impl PartialEq for MultiRequestKey {
    /// Keys are equal when they are of one variant and hold the same
    /// address, or the same path character by character.
    fn eq(&self, other: &Self) -> (r: bool) {
        match (self, other) {
            (MultiRequestKey::Source(a), MultiRequestKey::Source(b)) => *a == *b,
            (MultiRequestKey::Uri(a), MultiRequestKey::Uri(b)) => *a == *b,
            _ => false,
        }
    }
}

impl PartialEqSpecImpl for MultiRequestKey {
    open spec fn obeys_eq_spec() -> bool {
        true
    }

    open spec fn eq_spec(&self, other: &Self) -> bool {
        self@ == other@
    }
}

/// What a `MultiRequestKey` holds.
pub enum MultiRequestKeyView {
    Source(IpAddress),
    Uri(Seq<char>),
}

impl View for MultiRequestKey {
    type V = MultiRequestKeyView;

    open spec fn view(&self) -> MultiRequestKeyView {
        match self {
            MultiRequestKey::Source(ip) => MultiRequestKeyView::Source(*ip),
            MultiRequestKey::Uri(path) => MultiRequestKeyView::Uri(path@),
        }
    }
}

/// Keys of different variants are different keys, whatever they hold: an
/// address never stands for a path. Keys of one variant are equal exactly
/// when they hold the same address, or the same path character by character.
/// This is the equality that `==` computes.
pub proof fn lemma_key_variants_differ(a: MultiRequestKey, b: MultiRequestKey)
    ensures
        vstd::std_specs::cmp::PartialEqSpec::eq_spec(&a, &b) == (a@ == b@),
        (a is Source) != (b is Source) ==> a@ != b@,
        a is Source && b is Source ==> (a@ == b@ <==> a->Source_0 == b->Source_0),
        a is Uri && b is Uri ==> (a@ == b@ <==> a->Uri_0@ == b->Uri_0@),
{
}

impl MultiRequestKeyKind {
    /// The key of a request under a rule of this kind, for the requests that
    /// the rule applies to.
    pub open spec fn key_of(self, session: SessionView) -> Option<MultiRequestKeyView> {
        match self {
            MultiRequestKeyKind::SourceIp => match session.client_addr {
                Some(ClientAddrView::Inet(addr)) => Some(MultiRequestKeyView::Source(addr.ip)),
                _ => None,
            },
            MultiRequestKeyKind::Uri { pattern } => if regex_matches(
                pattern.pattern(),
                session.req_header.path,
            ) {
                Some(MultiRequestKeyView::Uri(session.req_header.path))
            } else {
                None
            },
        }
    }
}

pub struct MultiRaterInstance {
    pub rater: Rater,
    pub kind: MultiRequestKeyKind,
}

impl MultiRaterInstance {
    pub fn new(config: MultiRaterConfig, kind: MultiRequestKeyKind) -> (r: Self)
        requires
            config.valid(),
        ensures
            r.kind == kind,
            r.rater.settings() == config.settings(),
            r.rater.max_buckets() == config.max_buckets,
            r.rater.readers() == config.readers(),
    {
        MultiRaterInstance { rater: Rater::new(config), kind }
    }

    /// A ticket on the bucket of this request's key, for a request that the
    /// rule applies to, and nothing for any other request. The bucket has
    /// the parameters of this limiter.
    pub fn get_ticket(&self, session: &Session) -> (r: Option<Ticket>)
        ensures
            r.is_some() == self.kind.key_of(session@).is_some(),
            r matches Some(t) ==> t.bucket() == self.rater.settings().bounded(),
    {
        match self.get_key(session) {
            Some(key) => Some(self.rater.get_ticket(key)),
            None => None,
        }
    }

    /// The key that this request is counted under, if the rule applies to it.
    pub fn get_key(&self, session: &Session) -> (r: Option<MultiRequestKey>)
        ensures
            match r {
                Some(key) => self.kind.key_of(session@) == Some(key@),
                None => self.kind.key_of(session@).is_none(),
            },
    {
        match &self.kind {
            MultiRequestKeyKind::SourceIp => {
                match &session.client_addr {
                    Some(ClientAddr::Inet(addr)) => Some(MultiRequestKey::Source(addr.ip)),
                    _ => None,
                }
            },
            MultiRequestKeyKind::Uri { pattern } => {
                if pattern.is_match(session.req_header.path.as_str()) {
                    Some(MultiRequestKey::Uri(session.req_header.path.clone()))
                } else {
                    None
                }
            },
        }
    }
}

/// The number of items and the number of reading threads that a cache was
/// sized for.
pub uninterp spec fn cache_workload(
    cache: ARCache<MultiRequestKey, Arc<leaky_bucket::RateLimiter>>,
) -> (usize, usize);

/// The buckets of one limiter: a bounded cache, and the parameters of every
/// bucket that is put into it.
pub struct BucketCache {
    cache: ARCache<MultiRequestKey, Arc<leaky_bucket::RateLimiter>>,
    settings: BucketSettings,
}

impl BucketCache {
    /// The parameters of every bucket in this cache.
    pub closed spec fn settings(&self) -> BucketSettings {
        self.settings
    }

    /// The number of buckets that the cache was sized for.
    pub closed spec fn max_buckets(&self) -> usize {
        cache_workload(self.cache).0
    }

    /// The number of reading threads that the cache was sized for.
    pub closed spec fn readers(&self) -> usize {
        cache_workload(self.cache).1
    }
}

/// `ARCacheBuilder::set_expected_workload` with one expected miss per read
/// and per write and no read cache, then `build`. The sizes are converted to
/// `isize`, which panics above `isize::MAX`; with both sizes set, `build`
/// gives a cache, sized for these numbers of items and of readers.
#[verifier::external_body]
fn new_cache(max_buckets: usize, threads: usize) -> (r: Option<
    ARCache<MultiRequestKey, Arc<leaky_bucket::RateLimiter>>,
>)
    requires
        max_buckets <= isize::MAX,
        threads <= isize::MAX,
    ensures
        r.is_some(),
        r matches Some(cache) ==> cache_workload(cache) == (max_buckets, threads),
{
    ARCacheBuilder::new().set_expected_workload(max_buckets, threads, 1, 1, false).build()
}

/// `ARCache::read`, then `get` on the read transaction. Whether a bucket is
/// found depends on what this and other threads have inserted and on what
/// was evicted. A bucket that is found is a handle that was inserted: the
/// cache of a `BucketCache` is filled by `cache_insert` alone, which takes
/// only buckets with the parameters of the cache.
#[verifier::external_body]
fn cache_lookup(cache: &BucketCache, key: &MultiRequestKey) -> (r: Option<
    Arc<leaky_bucket::RateLimiter>,
>)
    ensures
        r matches Some(bucket) ==> bucket_settings_of(*bucket) == cache.settings().bounded(),
{
    let mut reader = cache.cache.read();
    reader.get(key).cloned()
}

/// `ARCache::read`, then `insert` and `finish` on the read transaction. The
/// cache takes the bucket in when it next settles.
#[verifier::external_body]
fn cache_insert(cache: &BucketCache, key: MultiRequestKey, bucket: Arc<leaky_bucket::RateLimiter>)
    requires
        bucket_settings_of(*bucket) == cache.settings().bounded(),
{
    let mut reader = cache.cache.read();
    reader.insert(key, bucket);
    reader.finish();
}

/// A concurrent rate limiting structure
///
/// ## Implementation details and notes
///
/// For performance and resource reasons, this provides an *approximation* of exact rate
/// limiting. Currently, there are a few "false positive" cases that can permit more than
/// the expected number of actions to occur.
///
/// Rater is currently modeled as a Least Recently Used (LRU) cache of leaky buckets mapped
/// by a key. This is done to provide a bounded quantity of leaky buckets, without requiring
/// a worker task to "cull" the oldest buckets. Instead, unused buckets will naturally
/// "fall out" of the cache if they are not used.
///
/// ### Too many unique keys at too high of a rate
///
/// If there is a very high diversity of Keys provided, it is possible that keys could
/// be evicted from the cache before they would naturally expire or be refilled. In this
/// case, Rater will appear to not apply rate limiting, as the evicted bucket will be
/// replaced with a new, initially full bucket. This can be mitigated by choosing a
/// bucket storage capacity that is large enough to hold enough buckets to handle the
/// expected requests per second.
///
/// ### A burst of previously-unseen keys
///
/// If a number of requests appear around the same time for a Key that is not resident
/// in the cache, it is possible that all worker threads will create a new bucket and
/// attempt to add their buckets to the cache, though only one will be persisted, and
/// the others will be lost.
///
/// There is no mitigation for this currently, other than treating the "max tokens per
/// bucket" as an approximate value, with up to "number of worker threads" of false
/// positives as an acceptable bound.
pub struct Rater {
    buckets: BucketCache,
}

impl Rater {
    #[verifier::type_invariant]
    spec fn buckets_can_be_built(&self) -> bool {
        self.settings().valid()
    }

    /// The parameters of every bucket of this limiter.
    pub closed spec fn settings(&self) -> BucketSettings {
        self.buckets.settings()
    }

    /// The number of buckets that the cache of this limiter was sized for.
    pub closed spec fn max_buckets(&self) -> usize {
        self.buckets.max_buckets()
    }

    /// The number of reading threads that the cache of this limiter was
    /// sized for.
    pub closed spec fn readers(&self) -> usize {
        self.buckets.readers()
    }

    /// Create a new rate limiter with the given configuration.
    ///
    /// See [`MultiRaterConfig`] for configuration options.
    ///
    /// Its buckets are fair and start full, with the refill at most the
    /// bucket size; its cache is sized for `max_buckets` buckets and for
    /// the number of threads, at least one.
    pub fn new(config: MultiRaterConfig) -> (r: Self)
        requires
            config.valid(),
        ensures
            r.settings() == config.settings(),
            r.max_buckets() == config.max_buckets,
            r.readers() == config.readers(),
    {
        let threads = if config.threads < 1 {
            1
        } else {
            config.threads
        };
        let cache = match new_cache(config.max_buckets, threads) {
            Some(cache) => cache,
            None => vstd::pervasive::unreached(),
        };
        let refill_qty = if config.refill_qty <= config.max_tokens_per_bucket {
            config.refill_qty
        } else {
            config.max_tokens_per_bucket
        };
        Rater {
            buckets: BucketCache {
                cache,
                settings: BucketSettings {
                    max_tokens: config.max_tokens_per_bucket,
                    initial: config.max_tokens_per_bucket,
                    refill_interval_millis: config.refill_interval_millis,
                    refill_qty,
                    fair: true,
                },
            },
        }
    }

    /// The parameters of every bucket of this limiter.
    pub fn bucket_settings(&self) -> (r: BucketSettings)
        ensures
            r == self.settings(),
            r.valid(),
    {
        proof {
            use_type_invariant(self);
        }
        self.buckets.settings
    }

    /// Obtain a ticket for the given Key.
    ///
    /// If the Key does not exist already, it will be created.
    ///
    /// The ticket draws on the bucket that the cache holds under the key,
    /// or, where it holds none, on a fresh and full bucket that the cache is
    /// handed to keep under the key. Either way the bucket has the
    /// parameters of this limiter.
    pub fn get_ticket(&self, key: MultiRequestKey) -> (r: Ticket)
        ensures
            r.bucket() == self.settings().bounded(),
    {
        let found = cache_lookup(&self.buckets, &key);
        self.ticket_for(key, found)
    }

    /// A fresh bucket with the parameters of this limiter.
    fn new_rate_limiter(&self) -> (r: Arc<leaky_bucket::RateLimiter>)
        ensures
            bucket_settings_of(*r) == self.settings().bounded(),
    {
        new_bucket(self.bucket_settings())
    }

    /// The ticket for a key, given what the cache holds under it: a ticket
    /// on the bucket that was found, or, where none was found, on a fresh
    /// and full bucket with the parameters of this limiter, which the cache
    /// is handed to keep under the key.
    pub fn ticket_for(&self, key: MultiRequestKey, found: Option<Arc<leaky_bucket::RateLimiter>>) -> (r:
        Ticket)
        ensures
            match found {
                Some(bucket) => r.limiter == bucket,
                None => r.bucket() == self.settings().bounded(),
            },
    {
        match found {
            Some(bucket) => Ticket { limiter: bucket },
            None => {
                let new_limiter = self.new_rate_limiter();
                cache_insert(&self.buckets, key, share_bucket(&new_limiter));
                Ticket { limiter: new_limiter }
            },
        }
    }
}

} // verus!
