//! Rate limiting: leaky-token buckets, alone or in a bounded cache.
//!
//! * A *multi* limiter keeps one bucket per request key, such as one per
//!   source address, in a cache of bounded size.
//! * A *single* limiter keeps one bucket for every request that matches a
//!   URI pattern.

use std::sync::Arc;
use std::time::Duration;
use vstd::prelude::*;
use vstd::std_specs::cmp::PartialEqSpecImpl;

pub mod multi;
pub mod single;

verus! {

#[verifier::external_type_specification]
#[verifier::external_body]
pub struct ExRegex(regex::Regex);

#[verifier::external_type_specification]
#[verifier::external_body]
pub struct ExRegexError(regex::Error);

#[verifier::external_type_specification]
#[verifier::external_body]
pub struct ExRateLimiter(leaky_bucket::RateLimiter);

/// The pattern text that a compiled expression was built from.
pub uninterp spec fn regex_source(re: regex::Regex) -> Seq<char>;

/// Whether the regex compiler accepts a pattern text.
pub uninterp spec fn regex_accepts(pattern: Seq<char>) -> bool;

/// Whether the expression written as `pattern` matches somewhere in `text`.
pub uninterp spec fn regex_matches(pattern: Seq<char>, text: Seq<char>) -> bool;

/// `text` with the leftmost match of `pattern` replaced by the expansion of
/// `template`, in which `$1`, `$name` and `${name}` stand for capture groups.
pub uninterp spec fn regex_replaced(
    pattern: Seq<char>,
    text: Seq<char>,
    template: Seq<char>,
) -> Seq<char>;

/// `regex::Regex::new`: compiles the patterns that the compiler accepts,
/// with the default options, and the compiled expression keeps its source
/// text.
#[verifier::external_body]
fn regex_compile(pattern: &str) -> (r: Result<RegexShim, regex::Error>)
    ensures
        r.is_ok() == regex_accepts(pattern@),
        r matches Ok(re) ==> re.pattern() == pattern@,
{
    regex::Regex::new(pattern).map(RegexShim)
}

/// `regex::Regex::as_str`: the text that the expression was compiled from.
#[verifier::external_body]
fn regex_as_str(re: &RegexShim) -> (r: &str)
    ensures
        r@ == re.pattern(),
{
    re.0.as_str()
}

/// `regex::Regex::is_match`, on an expression compiled with the default
/// options: whether it matches depends on its pattern and the text alone.
#[verifier::external_body]
fn regex_is_match(re: &RegexShim, text: &str) -> (r: bool)
    ensures
        r == regex_matches(re.pattern(), text@),
{
    re.0.is_match(text)
}

/// `regex::Regex::replace`, on an expression compiled with the default
/// options: replaces the leftmost match; a text without a match comes back
/// unchanged.
#[verifier::external_body]
fn regex_replace(re: &RegexShim, text: &str, template: &str) -> (r: String)
    ensures
        r@ == regex_replaced(re.pattern(), text@, template@),
        !regex_matches(re.pattern(), text@) ==> r@ == text@,
{
    re.0.replace(text, template).into_owned()
}

/// `Clone` for `regex::Regex`: the copy has the same source text.
pub assume_specification[ <regex::Regex as Clone>::clone ](re: &regex::Regex) -> (r: regex::Regex)
    ensures
        regex_source(r) == regex_source(*re),
;

/// A compiled regular expression that compares by its pattern text.
///
/// The expression is compiled by [`RegexShim::new`], with the default
/// options, and there is no other way to make one: what it matches follows
/// from its pattern.
#[derive(Debug, Clone)]
pub struct RegexShim(regex::Regex);

impl RegexShim {
    /// The pattern text of this expression.
    pub closed spec fn pattern(&self) -> Seq<char> {
        regex_source(self.0)
    }

    /// Compiles `pattern`. Fails exactly on the patterns that the regex
    /// compiler rejects.
    pub fn new(pattern: &str) -> (r: Result<Self, regex::Error>)
        ensures
            r.is_ok() == regex_accepts(pattern@),
            r matches Ok(shim) ==> shim.pattern() == pattern@,
    {
        regex_compile(pattern)
    }

    /// The pattern text of this expression.
    pub fn as_str(&self) -> (r: &str)
        ensures
            r@ == self.pattern(),
    {
        regex_as_str(self)
    }

    /// Whether this expression matches somewhere in `text`.
    pub fn is_match(&self, text: &str) -> (r: bool)
        ensures
            r == regex_matches(self.pattern(), text@),
    {
        regex_is_match(self, text)
    }

    /// `text` with the leftmost match replaced by the expansion of `template`.
    pub fn replace(&self, text: &str, template: &str) -> (r: String)
        ensures
            r@ == regex_replaced(self.pattern(), text@, template@),
            !regex_matches(self.pattern(), text@) ==> r@ == text@,
    {
        regex_replace(self, text, template)
    }
}

impl PartialEq for RegexShim {
    fn eq(&self, other: &Self) -> (r: bool) {
        crate::text::str_eq(self.as_str(), other.as_str())
    }
}

impl PartialEqSpecImpl for RegexShim {
    open spec fn obeys_eq_spec() -> bool {
        true
    }

    open spec fn eq_spec(&self, other: &Self) -> bool {
        self.pattern() == other.pattern()
    }
}

/// One rate-limiting rule of a service.
#[derive(Debug, PartialEq, Clone)]
#[allow(inconsistent_fields)]
pub enum AllRateConfig {
    /// One bucket for every request that the kind applies to.
    Single { kind: single::SingleRequestKeyKind, config: single::SingleInstanceConfig },
    /// One bucket per key that the kind derives from a request.
    Multi { kind: multi::MultiRequestKeyKind, config: multi::MultiRaterConfig },
}

impl AllRateConfig {
    /// A limiter can be built for this rule.
    pub open spec fn valid(&self) -> bool {
        match self {
            AllRateConfig::Single { config, .. } => config.valid(),
            AllRateConfig::Multi { config, .. } => config.valid(),
        }
    }

    /// Whether a limiter can be built for this rule.
    pub fn is_valid(&self) -> (r: bool)
        ensures
            r == self.valid(),
    {
        match self {
            AllRateConfig::Single { config, .. } => config.is_valid(),
            AllRateConfig::Multi { config, .. } => config.is_valid(),
        }
    }
}

/// Why a ticket cannot be waited for.
#[derive(Debug, PartialEq, Eq, Clone, Copy, Structural)]
pub enum TicketError {
    BurstLimitExceeded,
}

/// Whether a rate-limited request may go ahead.
#[derive(Debug, PartialEq, Eq, Clone, Copy, Structural)]
pub enum Outcome {
    Approved,
    Declined,
}

/// The outcome that stands for the answer of a non-blocking acquisition.
pub fn outcome_of(acquired: bool) -> (r: Outcome)
    ensures
        r == (if acquired {
            Outcome::Approved
        } else {
            Outcome::Declined
        }),
{
    if acquired {
        Outcome::Approved
    } else {
        Outcome::Declined
    }
}

/// The parameters of one leaky-token bucket.
#[derive(Debug, PartialEq, Eq, Clone, Copy, Structural)]
pub struct BucketSettings {
    /// The most tokens the bucket holds.
    pub max_tokens: usize,
    /// The number of tokens the bucket starts with.
    pub initial: usize,
    /// The time between refills, in milliseconds.
    pub refill_interval_millis: usize,
    /// The number of tokens added at each refill.
    pub refill_qty: usize,
    /// Whether waiters are served in the order they came. A fair bucket
    /// declines a request that does not wait while others do.
    pub fair: bool,
}

/// `n`, or `isize::MAX` where `n` is larger: the largest balance that a
/// bucket counts.
pub open spec fn balance_bound(n: usize) -> usize {
    if n <= isize::MAX {
        n
    } else {
        isize::MAX as usize
    }
}

impl BucketSettings {
    /// A bucket can be built: it refills by at least one token, and its
    /// interval is not zero.
    pub open spec fn valid(self) -> bool {
        self.refill_interval_millis > 0 && self.refill_qty > 0
    }

    /// A fair bucket that starts full: it holds and starts with `max_tokens`
    /// tokens and gains `refill_qty` every `refill_interval_millis`.
    pub open spec fn full(max_tokens: usize, refill_interval_millis: usize, refill_qty: usize) -> Self {
        BucketSettings {
            max_tokens,
            initial: max_tokens,
            refill_interval_millis,
            refill_qty,
            fair: true,
        }
    }

    /// These parameters as a bucket keeps them: no balance is counted
    /// beyond `isize::MAX`, and a bucket never starts with more than it
    /// holds.
    pub open spec fn bounded(self) -> BucketSettings {
        BucketSettings {
            max_tokens: balance_bound(self.max_tokens),
            initial: if balance_bound(self.initial) <= balance_bound(self.max_tokens) {
                balance_bound(self.initial)
            } else {
                balance_bound(self.max_tokens)
            },
            refill_interval_millis: self.refill_interval_millis,
            refill_qty: balance_bound(self.refill_qty),
            fair: self.fair,
        }
    }
}

/// The parameters that a bucket was built with: the maximum, the balance it
/// started with, the interval, the refill and the fairness.
pub uninterp spec fn bucket_settings_of(limiter: leaky_bucket::RateLimiter) -> BucketSettings;

/// `leaky_bucket::RateLimiter::builder`, with `initial`, `max`, `interval`,
/// `refill` and `fair`, then `build`. The builder panics on a zero interval
/// and on a zero refill. The bucket keeps the interval and the fairness; it
/// keeps the maximum, the refill and the initial balance up to the largest
/// balance it can count, and the initial balance up to the maximum.
#[verifier::external_body]
pub(crate) fn new_bucket(settings: BucketSettings) -> (r: Arc<leaky_bucket::RateLimiter>)
    requires
        settings.valid(),
    ensures
        bucket_settings_of(*r) == settings.bounded(),
{
    let limiter = leaky_bucket::RateLimiter::builder()
        .initial(settings.initial)
        .max(settings.max_tokens)
        .interval(Duration::from_millis(settings.refill_interval_millis as u64))
        .refill(settings.refill_qty)
        .fair(settings.fair)
        .build();
    Arc::new(limiter)
}

/// `leaky_bucket::RateLimiter::try_acquire` of one token. Whether it succeeds
/// depends on the time and on what other holders of the bucket have taken.
#[verifier::external_body]
pub(crate) fn try_acquire_one(limiter: &Arc<leaky_bucket::RateLimiter>) -> (r: bool) {
    limiter.try_acquire(1)
}

/// `Arc::clone`: another handle to the same bucket.
#[verifier::external_body]
pub(crate) fn share_bucket(limiter: &Arc<leaky_bucket::RateLimiter>) -> (r: Arc<
    leaky_bucket::RateLimiter,
>)
    ensures
        r == *limiter,
{
    Arc::clone(limiter)
}

/// A claim on one token of a bucket.
///
/// Call [`Ticket::now_or_never`] to learn whether the token is there.
#[must_use]
pub struct Ticket {
    pub limiter: Arc<leaky_bucket::RateLimiter>,
}

impl Ticket {
    /// The parameters of the bucket that this ticket draws on.
    pub open spec fn bucket(&self) -> BucketSettings {
        bucket_settings_of(*self.limiter)
    }

    /// Try to get a token immediately from the bucket.
    pub fn now_or_never(self) -> (r: Outcome) {
        outcome_of(try_acquire_one(&self.limiter))
    }
}

} // verus!
