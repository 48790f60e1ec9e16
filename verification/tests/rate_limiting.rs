use river::net::{ClientAddr, IpAddress, SocketAddress};
use river::proxy::rate_limiting::multi::{
    MultiRaterConfig, MultiRaterInstance, MultiRequestKey, MultiRequestKeyKind, Rater,
};
use river::proxy::rate_limiting::single::{
    SingleInstance, SingleInstanceConfig, SingleRequestKeyKind,
};
use river::proxy::rate_limiting::{outcome_of, AllRateConfig, BucketSettings, Outcome, RegexShim};
use river::session::{HeaderList, RequestHeader, Session};
use std::time::{Duration, Instant};

fn rate_session(client_addr: Option<ClientAddr>, path: &str) -> Session {
    Session {
        client_addr,
        req_header: RequestHeader {
            method: "GET".to_string(),
            path: path.to_string(),
            query: None,
            headers: HeaderList { entries: Vec::new() },
        },
    }
}

fn client(last: u8) -> Option<ClientAddr> {
    Some(ClientAddr::Inet(SocketAddress {
        ip: IpAddress::V4(u32::from_be_bytes([203, 0, 113, last])),
        port: 5000,
    }))
}

#[test]
fn rate_limit_source_ip_scenario() {
    let config = MultiRaterConfig {
        threads: 1,
        max_buckets: 128,
        max_tokens_per_bucket: 3,
        refill_interval_millis: 10,
        refill_qty: 1,
    };
    assert!(config.is_valid());
    // The counts below are those of an undisturbed run: ten requests within
    // a millisecond or so, an idle time, ten more before the next refill. A
    // run in which the machine stalled is made again.
    for _ in 0..20 {
        let instance = MultiRaterInstance::new(config, MultiRequestKeyKind::SourceIp);
        let session = rate_session(client(7), "/");
        let start = Instant::now();
        let mut approved = 0;
        for _ in 0..10 {
            if instance.get_ticket(&session).unwrap().now_or_never() == Outcome::Approved {
                approved += 1;
            }
        }
        if start.elapsed() >= Duration::from_millis(5) {
            continue;
        }
        while start.elapsed() < Duration::from_millis(35) {
            std::hint::spin_loop();
        }
        let mut later = 0;
        for _ in 0..10 {
            if instance.get_ticket(&session).unwrap().now_or_never() == Outcome::Approved {
                later += 1;
            }
        }
        if start.elapsed() >= Duration::from_millis(39) {
            continue;
        }
        assert_eq!(approved, 3);
        assert_eq!(later, 3);
        return;
    }
    panic!("no undisturbed run in twenty");
}

fn smoke_run(config: MultiRaterConfig) -> (f64, f64) {
    let rater = Rater::new(config);
    let start = Instant::now();
    let mut approved = 0;
    for i in 0..100u32 {
        while start.elapsed() < Duration::from_millis(6) * i {
            std::hint::spin_loop();
        }
        let ticket = rater.get_ticket(MultiRequestKey::Uri("bob".to_string()));
        match ticket.now_or_never() {
            Outcome::Approved => approved += 1,
            Outcome::Declined => {}
        }
    }
    (start.elapsed().as_secs_f64(), approved as f64)
}

#[test]
fn multi_smoke() {
    let config = MultiRaterConfig {
        threads: 2,
        max_buckets: 5,
        max_tokens_per_bucket: 3,
        refill_interval_millis: 10,
        refill_qty: 1,
    };
    let expected_rate = 1000.0f64 / config.refill_interval_millis as f64;
    // A run of a hundred ticks of 6 ms that took much longer than 600 ms was
    // stalled, and says nothing about the rate: it is made again.
    let mut run = smoke_run(config);
    for _ in 0..4 {
        if run.0 < 0.62 {
            break;
        }
        run = smoke_run(config);
    }
    let (duration, approved) = run;
    let expected_ttl = (duration * expected_rate) + config.max_tokens_per_bucket as f64;

    // Did we get +/-10% of the expected number of approvals?
    assert!(approved > (expected_ttl * 0.9f64));
    assert!(approved < (expected_ttl * 1.1f64));
}

#[test]
fn one_key_is_bounded_by_burst_and_refills() {
    // max = 5, refill = 2 every 20 ms: over a window of T ms no more than
    // 5 + floor(T / 20) * 2 requests are approved.
    let config = MultiRaterConfig {
        threads: 1,
        max_buckets: 16,
        max_tokens_per_bucket: 5,
        refill_interval_millis: 20,
        refill_qty: 2,
    };
    let instance = MultiRaterInstance::new(config, MultiRequestKeyKind::SourceIp);
    let session = rate_session(client(9), "/");
    let start = Instant::now();
    let mut approved: u128 = 0;
    while start.elapsed() < Duration::from_millis(110) {
        if instance.get_ticket(&session).unwrap().now_or_never() == Outcome::Approved {
            approved += 1;
        }
    }
    let window = start.elapsed().as_millis();
    assert!(approved >= 5);
    assert!(approved <= 5 + (window / 20) * 2);
}

#[test]
fn keys_of_different_kinds_never_collide() {
    let source = MultiRequestKey::Source(IpAddress::V4(0x0a00_0001));
    let uri = MultiRequestKey::Uri("10.0.0.1".to_string());
    assert_ne!(source, uri);
    assert_ne!(
        MultiRequestKey::Source(IpAddress::V4(1)),
        MultiRequestKey::Source(IpAddress::V6(1))
    );
    assert_eq!(MultiRequestKey::Uri("/a".to_string()), MultiRequestKey::Uri("/a".to_string()));
    assert_ne!(MultiRequestKey::Uri("/a".to_string()), MultiRequestKey::Uri("/a/".to_string()));
    assert_ne!(MultiRequestKey::Uri("/a".to_string()), MultiRequestKey::Uri("/A".to_string()));

    // Buckets of different keys are different buckets.
    let rater = Rater::new(MultiRaterConfig {
        threads: 1,
        max_buckets: 16,
        max_tokens_per_bucket: 1,
        refill_interval_millis: 60_000,
        refill_qty: 1,
    });
    assert_eq!(rater.get_ticket(source.clone()).now_or_never(), Outcome::Approved);
    assert_eq!(rater.get_ticket(uri.clone()).now_or_never(), Outcome::Approved);
    assert_eq!(rater.get_ticket(source).now_or_never(), Outcome::Declined);
    assert_eq!(rater.get_ticket(uri).now_or_never(), Outcome::Declined);
}

#[test]
fn multi_keys_follow_the_kind() {
    let by_source = MultiRaterInstance::new(
        MultiRaterConfig {
            threads: 1,
            max_buckets: 8,
            max_tokens_per_bucket: 2,
            refill_interval_millis: 1000,
            refill_qty: 1,
        },
        MultiRequestKeyKind::SourceIp,
    );
    assert_eq!(
        by_source.get_key(&rate_session(client(1), "/x")),
        Some(MultiRequestKey::Source(IpAddress::V4(u32::from_be_bytes([203, 0, 113, 1]))))
    );
    assert_eq!(by_source.get_key(&rate_session(Some(ClientAddr::Unix("(unnamed)".to_string())), "/x")), None);
    assert_eq!(by_source.get_key(&rate_session(None, "/x")), None);
    assert!(by_source.get_ticket(&rate_session(Some(ClientAddr::Unix("(unnamed)".to_string())), "/x")).is_none());
    assert!(by_source.get_ticket(&rate_session(client(1), "/x")).is_some());

    let by_uri = MultiRaterInstance::new(
        MultiRaterConfig {
            threads: 1,
            max_buckets: 8,
            max_tokens_per_bucket: 2,
            refill_interval_millis: 1000,
            refill_qty: 1,
        },
        MultiRequestKeyKind::Uri { pattern: RegexShim::new("static/.*").unwrap() },
    );
    assert_eq!(
        by_uri.get_key(&rate_session(None, "/static/app.js")),
        Some(MultiRequestKey::Uri("/static/app.js".to_string()))
    );
    assert_eq!(by_uri.get_key(&rate_session(client(1), "/api")), None);
    assert!(by_uri.get_ticket(&rate_session(client(1), "/api")).is_none());
}

#[test]
fn rater_clamps_the_refill_to_the_bucket_size() {
    let config = MultiRaterConfig {
        threads: 0,
        max_buckets: 4,
        max_tokens_per_bucket: 2,
        refill_interval_millis: 7,
        refill_qty: 9,
    };
    let rater = Rater::new(config);
    assert_eq!(
        rater.bucket_settings(),
        BucketSettings {
            max_tokens: 2,
            initial: 2,
            refill_interval_millis: 7,
            refill_qty: 2,
            fair: true
        }
    );
    let ticket = rater.get_ticket(MultiRequestKey::Uri("k".to_string()));
    assert_eq!(ticket.limiter.max(), 2);
    assert_eq!(ticket.limiter.refill(), 2);
    assert_eq!(ticket.limiter.interval(), Duration::from_millis(7));
    assert!(ticket.limiter.is_fair());
    assert_eq!(ticket.limiter.balance(), 2);
}

#[test]
fn a_ticket_follows_what_the_cache_holds() {
    let rater = Rater::new(MultiRaterConfig {
        threads: 1,
        max_buckets: 8,
        max_tokens_per_bucket: 4,
        refill_interval_millis: 250,
        refill_qty: 3,
    });
    let key = MultiRequestKey::Uri("/a".to_string());
    // Nothing found: a fresh, full bucket with the limiter's parameters.
    let fresh = rater.ticket_for(key.clone(), None);
    assert_eq!(fresh.limiter.max(), 4);
    assert_eq!(fresh.limiter.refill(), 3);
    assert_eq!(fresh.limiter.interval(), Duration::from_millis(250));
    assert_eq!(fresh.limiter.balance(), 4);
    // A bucket found: the ticket draws on that very bucket.
    let found = fresh.limiter.clone();
    let again = rater.ticket_for(key.clone(), Some(found.clone()));
    assert!(std::sync::Arc::ptr_eq(&again.limiter, &found));
    assert_eq!(again.now_or_never(), Outcome::Approved);
    assert_eq!(found.balance(), 3);
    // The fresh bucket was handed to the cache: the next ticket draws on it.
    let next = rater.get_ticket(key);
    assert!(std::sync::Arc::ptr_eq(&next.limiter, &found));
}

#[test]
fn rate_config_validity() {
    let good = MultiRaterConfig {
        threads: 8,
        max_buckets: 4000,
        max_tokens_per_bucket: 10,
        refill_interval_millis: 10,
        refill_qty: 1,
    };
    assert!(good.is_valid());
    assert!(!MultiRaterConfig { refill_interval_millis: 0, ..good }.is_valid());
    assert!(!MultiRaterConfig { refill_qty: 0, ..good }.is_valid());
    assert!(!MultiRaterConfig { max_tokens_per_bucket: 0, ..good }.is_valid());
    assert!(!MultiRaterConfig { max_buckets: usize::MAX, ..good }.is_valid());
    let single =
        SingleInstanceConfig { max_tokens_per_bucket: 0, refill_interval_millis: 3, refill_qty: 2 };
    assert!(single.is_valid());
    assert!(!SingleInstanceConfig { refill_qty: 0, ..single }.is_valid());
    assert!(!SingleInstanceConfig { refill_interval_millis: 0, ..single }.is_valid());
    let rule = AllRateConfig::Multi { kind: MultiRequestKeyKind::SourceIp, config: good };
    assert!(rule.is_valid());
    let bad = AllRateConfig::Single {
        kind: SingleRequestKeyKind::UriGroup { pattern: RegexShim::new("a").unwrap() },
        config: SingleInstanceConfig { refill_qty: 0, ..single },
    };
    assert!(!bad.is_valid());
}

#[test]
fn single_instance_shares_one_bucket() {
    let instance = SingleInstance::new(
        SingleInstanceConfig {
            max_tokens_per_bucket: 2,
            refill_interval_millis: 60_000,
            refill_qty: 1,
        },
        SingleRequestKeyKind::UriGroup { pattern: RegexShim::new(r".*\.mp4").unwrap() },
    );
    assert!(instance.get_ticket(&rate_session(client(1), "/index.html")).is_none());
    let a = instance.get_ticket(&rate_session(client(1), "/a.mp4")).unwrap();
    let b = instance.get_ticket(&rate_session(client(2), "/b.mp4")).unwrap();
    let c = instance.get_ticket(&rate_session(None, "/c.mp4")).unwrap();
    assert!(std::sync::Arc::ptr_eq(&a.limiter, &instance.limiter));
    assert_eq!(a.now_or_never(), Outcome::Approved);
    assert_eq!(b.now_or_never(), Outcome::Approved);
    assert_eq!(c.now_or_never(), Outcome::Declined);
    assert_eq!(instance.limiter.max(), 2);
}

#[test]
fn outcome_follows_the_acquisition() {
    assert_eq!(outcome_of(true), Outcome::Approved);
    assert_eq!(outcome_of(false), Outcome::Declined);
}

#[test]
fn regex_shim_compares_by_pattern() {
    let a = RegexShim::new("static/.*").unwrap();
    let b = RegexShim::new("static/.*").unwrap();
    let c = RegexShim::new("static/.+").unwrap();
    assert!(a == b);
    assert!(a != c);
    assert!(a.clone() == a);
    assert_eq!(a.as_str(), "static/.*");
    assert!(a.is_match("/static/x"));
    assert!(!a.is_match("/dynamic/x"));
    assert_eq!(a.replace("/static/x", "S"), "/S");
    assert_eq!(a.replace("/dynamic/x", "S"), "/dynamic/x");
    assert!(RegexShim::new("(").is_err());
    let named = RegexShim::new("^/(?P<first>[^/]+)/(.*)$").unwrap();
    assert_eq!(named.replace("/a/b/c", "/$2/${first}"), "/b/c/a");
}
