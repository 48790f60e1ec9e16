//! A rate limiter with one bucket for all requests that match a pattern.

use crate::proxy::rate_limiting::{
    bucket_settings_of, new_bucket, regex_matches, share_bucket, BucketSettings, RegexShim, Ticket,
};
use crate::session::{Session, SessionView};
use std::sync::Arc;
use vstd::prelude::*;

verus! {

#[derive(Debug, PartialEq, Eq, Clone, Copy, Structural)]
pub struct SingleInstanceConfig {
    /// The max and initial number of tokens in the leaky bucket - this is the number of
    /// requests that can go through without any waiting if the bucket is full
    pub max_tokens_per_bucket: usize,
    /// The interval between "refills" of the bucket, e.g. the bucket refills `refill_qty`
    /// every `refill_interval_millis`
    pub refill_interval_millis: usize,
    /// The number of tokens added to the bucket every `refill_interval_millis`
    pub refill_qty: usize,
}

impl SingleInstanceConfig {
    /// The bucket that this configuration asks for: fair, and full at the
    /// start.
    pub open spec fn settings(self) -> BucketSettings {
        BucketSettings::full(
            self.max_tokens_per_bucket,
            self.refill_interval_millis,
            self.refill_qty,
        )
    }

    /// A limiter can be built from this configuration: the refill interval
    /// and the refill quantity are not zero.
    pub open spec fn valid(self) -> bool {
        self.settings().valid()
    }

    /// Whether a limiter can be built from this configuration.
    pub fn is_valid(&self) -> (r: bool)
        ensures
            r == self.valid(),
    {
        self.refill_interval_millis > 0 && self.refill_qty > 0
    }
}

#[derive(Debug, Clone, PartialEq)]
pub enum SingleRequestKeyKind {
    /// Every request whose URI path matches the pattern.
    UriGroup { pattern: RegexShim },
}

impl SingleRequestKeyKind {
    /// Whether a rule of this kind applies to a request.
    pub open spec fn applies(self, session: SessionView) -> bool {
        match self {
            SingleRequestKeyKind::UriGroup { pattern } => regex_matches(
                pattern.pattern(),
                session.req_header.path,
            ),
        }
    }
}

pub struct SingleInstance {
    pub limiter: Arc<leaky_bucket::RateLimiter>,
    pub kind: SingleRequestKeyKind,
}

impl SingleInstance {
    /// The parameters of the one bucket of this limiter.
    pub open spec fn settings(&self) -> BucketSettings {
        bucket_settings_of(*self.limiter)
    }

    /// Create a new rate limiter with the given configuration.
    ///
    /// See [`SingleInstanceConfig`] for configuration options.
    pub fn new(config: SingleInstanceConfig, kind: SingleRequestKeyKind) -> (r: Self)
        requires
            config.valid(),
        ensures
            r.kind == kind,
            r.settings() == config.settings().bounded(),
    {
        let limiter = new_bucket(
            BucketSettings {
                max_tokens: config.max_tokens_per_bucket,
                initial: config.max_tokens_per_bucket,
                refill_interval_millis: config.refill_interval_millis,
                refill_qty: config.refill_qty,
                fair: true,
            },
        );
        SingleInstance { limiter, kind }
    }

    /// A ticket on the one bucket of this limiter, for a request that the
    /// rule applies to, and nothing for any other request.
    pub fn get_ticket(&self, session: &Session) -> (r: Option<Ticket>)
        ensures
            r.is_some() == self.kind.applies(session@),
            r matches Some(t) ==> t.limiter == self.limiter && t.bucket() == self.settings(),
    {
        match &self.kind {
            SingleRequestKeyKind::UriGroup { pattern } => {
                if pattern.is_match(session.req_header.path.as_str()) {
                    Some(Ticket { limiter: share_bucket(&self.limiter) })
                } else {
                    None
                }
            },
        }
    }
}

} // verus!
