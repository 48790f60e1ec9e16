//! Proxy handling: the phases of a request and what runs in each.

pub mod load_balancing;
pub mod phase;
pub mod rate_limiting;
pub mod request_filters;
pub mod request_modifiers;
pub mod request_selector;
pub mod response_modifiers;

use crate::config::internal::{
    ListenerConfig, ListenerKind, PathControl, ProxyConfig, SelectionKind, UpstreamPeer,
};
use crate::proxy::load_balancing::{backend_set, hashed_choice, Backend, LoadBalancer};
use crate::proxy::rate_limiting::multi::{MultiRaterConfig, MultiRaterInstance, MultiRequestKeyKind};
use crate::proxy::rate_limiting::single::{
    SingleInstance, SingleInstanceConfig, SingleRequestKeyKind,
};
use crate::proxy::rate_limiting::{AllRateConfig, Outcome};
use crate::proxy::request_filters::{
    request_filter_of, Decision, RequestFilter, RequestFilterMod, RequestFilterView,
};
use crate::proxy::request_modifiers::{
    request_modifier_of, RequestModifier, RequestModifierView, RequestModifyMod,
};
use crate::proxy::request_selector::RequestSelector;
use crate::proxy::response_modifiers::{
    response_modifier_of, ResponseModifier, ResponseModifierView, ResponseModifyMod,
};
use crate::session::{
    RequestHeader, RequestHeaderView, ResponseHeader, ResponseHeaderView, Session, SessionView,
};
use crate::settings::{lookup, without_key, Settings};
use vstd::prelude::*;

verus! {

/// Why a service cannot be built from its configuration, or why a request
/// cannot be served.
#[derive(Debug, Clone, Copy, PartialEq, Eq, Structural)]
pub enum ProxyError {
    /// A filter lacks a setting that its kind requires.
    MissingConfigurationField,
    /// A filter has a setting that its kind does not know.
    UnknownConfigKey,
    /// A filter names a kind that its list does not offer.
    UnknownFilterKind,
    /// A CIDR range is not valid.
    InvalidCidr,
    /// A regular expression is not valid.
    InvalidRegex,
    /// The load balancer selected no backend.
    NoBackend,
    /// The selected backend carries no peer.
    BackendMetaMissing,
    /// A service has no upstream to forward to.
    NoUpstreams,
    /// A service has more upstreams than the balancer takes.
    TooManyUpstreams,
    /// A selection that hashes a key is configured without a key selector.
    MissingSelector,
    /// A rate-limiting rule asks for a bucket that never refills.
    InvalidRateLimit,
    /// A file server could not answer a request.
    RequestFailed,
}

/// Per-request scratch pad, owned by the engine between phases.
#[derive(Debug, Clone, PartialEq, Eq)]
pub struct RiverContext {
    /// The bytes of a formatted selector key. Empty between requests.
    pub selector_buf: Vec<u8>,
}

/// Helper function that extracts the value of a given key.
///
/// Returns an error if the key does not exist.
pub fn extract_val(key: &str, map: &mut Settings) -> (r: Result<String, ProxyError>)
    ensures
        final(map)@ == without_key(old(map)@, key@),
        match r {
            Ok(v) => lookup(old(map)@, key@) == Some(v@),
            Err(e) => e == ProxyError::MissingConfigurationField && lookup(old(map)@, key@).is_none(),
        },
{
    match map.remove(key) {
        Some(v) => Ok(v),
        None => Err(ProxyError::MissingConfigurationField),
    }
}

/// Helper function to make sure the map is empty.
///
/// This is used to reject unknown configuration keys.
pub fn ensure_empty(map: &Settings) -> (r: Result<(), ProxyError>)
    ensures
        r.is_ok() == (map@.len() == 0),
        r matches Err(e) ==> e == ProxyError::UnknownConfigKey,
{
    if !map.is_empty() {
        Err(ProxyError::UnknownConfigKey)
    } else {
        Ok(())
    }
}

/// What each of `confs` builds to under `build`, in order, or the first
/// error that one of them gives.
pub open spec fn build_all<T>(
    confs: Seq<Seq<(Seq<char>, Seq<char>)>>,
    build: spec_fn(Seq<(Seq<char>, Seq<char>)>) -> Result<T, ProxyError>,
) -> Result<Seq<T>, ProxyError>
    decreases confs.len(),
{
    if confs.len() == 0 {
        Ok(Seq::empty())
    } else {
        match build_all(confs.drop_last(), build) {
            Err(e) => Err(e),
            Ok(items) => match build(confs.last()) {
                Ok(item) => Ok(items.push(item)),
                Err(e) => Err(e),
            },
        }
    }
}

/// What a list of settings holds.
pub open spec fn settings_views(list: Seq<Settings>) -> Seq<Seq<(Seq<char>, Seq<char>)>> {
    list.map_values(|s: Settings| s@)
}

/// All modifiers of a service, by the phase they run in.
#[derive(Debug, Clone)]
pub struct Modifiers {
    /// Filters of the request phase.
    pub request_filters: Vec<RequestFilter>,
    /// Modifiers of the request that goes upstream.
    pub upstream_request_filters: Vec<RequestModifier>,
    /// Modifiers of the response that came from upstream.
    pub upstream_response_filters: Vec<ResponseModifier>,
}

/// What `Modifiers` hold.
pub struct ModifiersView {
    pub request_filters: Seq<RequestFilterView>,
    pub upstream_request_filters: Seq<RequestModifierView>,
    pub upstream_response_filters: Seq<ResponseModifierView>,
}

impl View for Modifiers {
    type V = ModifiersView;

    open spec fn view(&self) -> ModifiersView {
        ModifiersView {
            request_filters: self.request_filters@.map_values(|f: RequestFilter| f@),
            upstream_request_filters: self.upstream_request_filters@.map_values(
                |m: RequestModifier| m@,
            ),
            upstream_response_filters: self.upstream_response_filters@.map_values(
                |m: ResponseModifier| m@,
            ),
        }
    }
}

/// The modifiers that a path control describes: one per entry of each list,
/// in the order of the list. The first entry that cannot be built gives the
/// error, request filters first, then request modifiers, then response
/// modifiers.
pub open spec fn modifiers_of(conf: PathControl) -> Result<ModifiersView, ProxyError> {
    match build_all(
        settings_views(conf.request_filters@),
        |s: Seq<(Seq<char>, Seq<char>)>| request_filter_of(s),
    ) {
        Err(e) => Err(e),
        Ok(request_filters) => match build_all(
            settings_views(conf.upstream_request_filters@),
            |s: Seq<(Seq<char>, Seq<char>)>| request_modifier_of(s),
        ) {
            Err(e) => Err(e),
            Ok(upstream_request_filters) => match build_all(
                settings_views(conf.upstream_response_filters@),
                |s: Seq<(Seq<char>, Seq<char>)>| response_modifier_of(s),
            ) {
                Err(e) => Err(e),
                Ok(upstream_response_filters) => Ok(
                    ModifiersView {
                        request_filters,
                        upstream_request_filters,
                        upstream_response_filters,
                    },
                ),
            },
        },
    }
}

impl Modifiers {
    /// Build all modifiers from the provided [PathControl]
    pub fn from_conf(conf: &PathControl) -> (r: Result<Self, ProxyError>)
        ensures
            match r {
                Ok(m) => modifiers_of(*conf) == Ok::<ModifiersView, ProxyError>(m@),
                Err(e) => modifiers_of(*conf) == Err::<ModifiersView, ProxyError>(e),
            },
    {
        let ghost build_filter = |s: Seq<(Seq<char>, Seq<char>)>| request_filter_of(s);
        let ghost filter_confs = settings_views(conf.request_filters@);
        let mut request_filters: Vec<RequestFilter> = Vec::new();
        let mut i: usize = 0;
        assert(request_filters@.map_values(|f: RequestFilter| f@) =~= Seq::empty());
        assert(filter_confs.take(0) =~= Seq::empty());
        while i < conf.request_filters.len()
            invariant
                i <= conf.request_filters@.len(),
                build_filter == |s: Seq<(Seq<char>, Seq<char>)>| request_filter_of(s),
                filter_confs == settings_views(conf.request_filters@),
                build_all(filter_confs.take(i as int), build_filter) == Ok::<
                    Seq<RequestFilterView>,
                    ProxyError,
                >(request_filters@.map_values(|f: RequestFilter| f@)),
            decreases conf.request_filters@.len() - i,
        {
            let ghost prev = request_filters@.map_values(|f: RequestFilter| f@);
            proof {
                assert(filter_confs.take(i + 1).drop_last() =~= filter_confs.take(i as int));
                assert(filter_confs.take(i + 1).last() == conf.request_filters@[i as int]@);
            }
            match RequestFilter::from_settings(conf.request_filters[i].duplicate()) {
                Ok(f) => {
                    request_filters.push(f);
                    assert(request_filters@.map_values(|f: RequestFilter| f@) =~= prev.push(f@));
                },
                Err(e) => {
                    proof {
                        lemma_build_all_error(filter_confs, build_filter, i + 1);
                    }
                    return Err(e);
                },
            }
            i += 1;
        }
        assert(filter_confs.take(i as int) =~= filter_confs);

        let ghost build_request = |s: Seq<(Seq<char>, Seq<char>)>| request_modifier_of(s);
        let ghost request_confs = settings_views(conf.upstream_request_filters@);
        let mut upstream_request_filters: Vec<RequestModifier> = Vec::new();
        let mut i: usize = 0;
        assert(upstream_request_filters@.map_values(|m: RequestModifier| m@) =~= Seq::empty());
        assert(request_confs.take(0) =~= Seq::empty());
        while i < conf.upstream_request_filters.len()
            invariant
                i <= conf.upstream_request_filters@.len(),
                build_request == |s: Seq<(Seq<char>, Seq<char>)>| request_modifier_of(s),
                request_confs == settings_views(conf.upstream_request_filters@),
                build_all(
                    settings_views(conf.request_filters@),
                    |s: Seq<(Seq<char>, Seq<char>)>| request_filter_of(s),
                ) == Ok::<Seq<RequestFilterView>, ProxyError>(
                    request_filters@.map_values(|f: RequestFilter| f@),
                ),
                build_all(request_confs.take(i as int), build_request) == Ok::<
                    Seq<RequestModifierView>,
                    ProxyError,
                >(upstream_request_filters@.map_values(|m: RequestModifier| m@)),
            decreases conf.upstream_request_filters@.len() - i,
        {
            let ghost prev = upstream_request_filters@.map_values(|m: RequestModifier| m@);
            proof {
                assert(request_confs.take(i + 1).drop_last() =~= request_confs.take(i as int));
                assert(request_confs.take(i + 1).last() == conf.upstream_request_filters@[i as int]@);
            }
            match RequestModifier::from_settings(conf.upstream_request_filters[i].duplicate()) {
                Ok(m) => {
                    upstream_request_filters.push(m);
                    assert(upstream_request_filters@.map_values(|m: RequestModifier| m@)
                        =~= prev.push(m@));
                },
                Err(e) => {
                    proof {
                        lemma_build_all_error(request_confs, build_request, i + 1);
                    }
                    return Err(e);
                },
            }
            i += 1;
        }
        assert(request_confs.take(i as int) =~= request_confs);

        let ghost build_response = |s: Seq<(Seq<char>, Seq<char>)>| response_modifier_of(s);
        let ghost response_confs = settings_views(conf.upstream_response_filters@);
        let mut upstream_response_filters: Vec<ResponseModifier> = Vec::new();
        let mut i: usize = 0;
        assert(upstream_response_filters@.map_values(|m: ResponseModifier| m@) =~= Seq::empty());
        assert(response_confs.take(0) =~= Seq::empty());
        while i < conf.upstream_response_filters.len()
            invariant
                i <= conf.upstream_response_filters@.len(),
                build_response == |s: Seq<(Seq<char>, Seq<char>)>| response_modifier_of(s),
                response_confs == settings_views(conf.upstream_response_filters@),
                build_all(
                    settings_views(conf.request_filters@),
                    |s: Seq<(Seq<char>, Seq<char>)>| request_filter_of(s),
                ) == Ok::<Seq<RequestFilterView>, ProxyError>(
                    request_filters@.map_values(|f: RequestFilter| f@),
                ),
                build_all(
                    settings_views(conf.upstream_request_filters@),
                    |s: Seq<(Seq<char>, Seq<char>)>| request_modifier_of(s),
                ) == Ok::<Seq<RequestModifierView>, ProxyError>(
                    upstream_request_filters@.map_values(|m: RequestModifier| m@),
                ),
                build_all(response_confs.take(i as int), build_response) == Ok::<
                    Seq<ResponseModifierView>,
                    ProxyError,
                >(upstream_response_filters@.map_values(|m: ResponseModifier| m@)),
            decreases conf.upstream_response_filters@.len() - i,
        {
            let ghost prev = upstream_response_filters@.map_values(|m: ResponseModifier| m@);
            proof {
                assert(response_confs.take(i + 1).drop_last() =~= response_confs.take(i as int));
                assert(response_confs.take(i + 1).last()
                    == conf.upstream_response_filters@[i as int]@);
            }
            match ResponseModifier::from_settings(conf.upstream_response_filters[i].duplicate()) {
                Ok(m) => {
                    upstream_response_filters.push(m);
                    assert(upstream_response_filters@.map_values(|m: ResponseModifier| m@)
                        =~= prev.push(m@));
                },
                Err(e) => {
                    proof {
                        lemma_build_all_error(response_confs, build_response, i + 1);
                    }
                    return Err(e);
                },
            }
            i += 1;
        }
        assert(response_confs.take(i as int) =~= response_confs);

        Ok(Modifiers { request_filters, upstream_request_filters, upstream_response_filters })
    }
}

/// An error among the first entries of a list is the error of the whole list.
proof fn lemma_build_all_error<T>(
    confs: Seq<Seq<(Seq<char>, Seq<char>)>>,
    build: spec_fn(Seq<(Seq<char>, Seq<char>)>) -> Result<T, ProxyError>,
    k: int,
)
    requires
        0 <= k <= confs.len(),
        build_all(confs.take(k), build).is_err(),
    ensures
        build_all(confs, build) == build_all(confs.take(k), build),
    decreases confs.len(),
{
    if k == confs.len() {
        assert(confs.take(k) =~= confs);
    } else {
        assert(confs.drop_last().take(k) =~= confs.take(k));
        lemma_build_all_error(confs.drop_last(), build, k);
    }
}

/// The rate limiters of a service. Single limiters are asked first.
pub struct RateLimiters {
    pub request_filter_stage_multi: Vec<MultiRaterInstance>,
    pub request_filter_stage_single: Vec<SingleInstance>,
}

/// The number of `singles` whose rule applies to a request.
pub open spec fn singles_applying(singles: Seq<SingleInstance>, session: SessionView) -> nat
    decreases singles.len(),
{
    if singles.len() == 0 {
        0
    } else {
        singles_applying(singles.drop_last(), session) + (if singles.last().kind.applies(session) {
            1nat
        } else {
            0nat
        })
    }
}

/// The number of `multis` whose rule applies to a request.
pub open spec fn multis_applying(multis: Seq<MultiRaterInstance>, session: SessionView) -> nat
    decreases multis.len(),
{
    if multis.len() == 0 {
        0
    } else {
        multis_applying(multis.drop_last(), session) + (if multis.last().kind.key_of(
            session,
        ).is_some() {
            1nat
        } else {
            0nat
        })
    }
}

proof fn lemma_singles_applying(singles: Seq<SingleInstance>, session: SessionView, k: int)
    requires
        0 <= k <= singles.len(),
    ensures
        singles_applying(singles.take(k), session) <= singles_applying(singles, session),
        (forall|i: int| 0 <= i < singles.len() ==> !(#[trigger] singles[i]).kind.applies(session))
            ==> singles_applying(singles, session) == 0,
    decreases singles.len(),
{
    if singles.len() > 0 {
        if k == singles.len() {
            assert(singles.take(k) =~= singles);
            lemma_singles_applying(singles.drop_last(), session, k - 1);
        } else {
            assert(singles.drop_last().take(k) =~= singles.take(k));
            lemma_singles_applying(singles.drop_last(), session, k);
        }
        assert forall|i: int| 0 <= i < singles.len() - 1 implies singles.drop_last()[i]
            == singles[i] by {}
    } else {
        assert(singles.take(k) =~= singles);
    }
}

proof fn lemma_multis_applying(multis: Seq<MultiRaterInstance>, session: SessionView, k: int)
    requires
        0 <= k <= multis.len(),
    ensures
        multis_applying(multis.take(k), session) <= multis_applying(multis, session),
        (forall|i: int|
            0 <= i < multis.len() ==> (#[trigger] multis[i]).kind.key_of(session).is_none())
            ==> multis_applying(multis, session) == 0,
    decreases multis.len(),
{
    if multis.len() > 0 {
        if k == multis.len() {
            assert(multis.take(k) =~= multis);
            lemma_multis_applying(multis.drop_last(), session, k - 1);
        } else {
            assert(multis.drop_last().take(k) =~= multis.take(k));
            lemma_multis_applying(multis.drop_last(), session, k);
        }
        assert forall|i: int| 0 <= i < multis.len() - 1 implies multis.drop_last()[i]
            == multis[i] by {}
    } else {
        assert(multis.take(k) =~= multis);
    }
}

/// Whether one of the outcomes is a decline.
pub fn any_outcome_declined(outcomes: &Vec<Outcome>) -> (declined: bool)
    ensures
        declined == exists|i: int| 0 <= i < outcomes@.len() && outcomes@[i] == Outcome::Declined,
{
    let mut i: usize = 0;
    while i < outcomes.len()
        invariant
            i <= outcomes@.len(),
            forall|j: int| 0 <= j < i ==> outcomes@[j] != Outcome::Declined,
        decreases outcomes@.len() - i,
    {
        if outcomes[i] == Outcome::Declined {
            return true;
        }
        i += 1;
    }
    false
}

impl RateLimiters {
    /// The number of rules of these limiters that apply to a request.
    pub open spec fn applicable(&self, session: SessionView) -> nat {
        singles_applying(self.request_filter_stage_single@, session) + multis_applying(
            self.request_filter_stage_multi@,
            session,
        )
    }

    /// Asks the limiters that apply to the request for one token each, the
    /// single limiters first, each list in its order, and stops after the
    /// first that declines. The outcomes are handed back in the order asked.
    ///
    /// Whether a token is there depends on the time and on the requests
    /// before. Whatever the buckets answer: every outcome before the last is
    /// an approval, no more limiters are asked than apply, and where none
    /// declines every limiter that applies was asked.
    pub fn try_tickets(&self, session: &Session) -> (outcomes: Vec<Outcome>)
        ensures
            outcomes@.len() <= self.applicable(session@),
            forall|i: int| 0 <= i < outcomes@.len() - 1 ==> outcomes@[i] == Outcome::Approved,
            (outcomes@.len() == 0 || outcomes@.last() == Outcome::Approved) ==> outcomes@.len()
                == self.applicable(session@),
    {
        let mut outcomes: Vec<Outcome> = Vec::new();
        let singles = &self.request_filter_stage_single;
        let mut i: usize = 0;
        assert(singles@.take(0) =~= Seq::empty());
        while i < singles.len()
            invariant
                i <= singles@.len(),
                singles == &self.request_filter_stage_single,
                outcomes@.len() == singles_applying(singles@.take(i as int), session@),
                forall|j: int| 0 <= j < outcomes@.len() ==> outcomes@[j] == Outcome::Approved,
            decreases singles@.len() - i,
        {
            proof {
                assert(singles@.take(i + 1).drop_last() =~= singles@.take(i as int));
                assert(singles@.take(i + 1).last() == singles@[i as int]);
                lemma_singles_applying(singles@, session@, i + 1);
            }
            if let Some(ticket) = singles[i].get_ticket(session) {
                let outcome = ticket.now_or_never();
                outcomes.push(outcome);
                if outcome == Outcome::Declined {
                    return outcomes;
                }
            }
            i += 1;
        }
        assert(singles@.take(i as int) =~= singles@);
        let multis = &self.request_filter_stage_multi;
        let mut i: usize = 0;
        assert(multis@.take(0) =~= Seq::empty());
        while i < multis.len()
            invariant
                i <= multis@.len(),
                multis == &self.request_filter_stage_multi,
                outcomes@.len() == singles_applying(self.request_filter_stage_single@, session@)
                    + multis_applying(multis@.take(i as int), session@),
                forall|j: int| 0 <= j < outcomes@.len() ==> outcomes@[j] == Outcome::Approved,
            decreases multis@.len() - i,
        {
            proof {
                assert(multis@.take(i + 1).drop_last() =~= multis@.take(i as int));
                assert(multis@.take(i + 1).last() == multis@[i as int]);
                lemma_multis_applying(multis@, session@, i + 1);
            }
            if let Some(ticket) = multis[i].get_ticket(session) {
                let outcome = ticket.now_or_never();
                outcomes.push(outcome);
                if outcome == Outcome::Declined {
                    return outcomes;
                }
            }
            i += 1;
        }
        assert(multis@.take(i as int) =~= multis@);
        outcomes
    }

    /// Asks every limiter that applies to the request for one token, the
    /// single limiters first, and stops at the first that declines. Whether
    /// a token is there depends on the time and on the requests before; a
    /// request that no rule applies to is never declined.
    pub fn any_declined(&self, session: &Session) -> (declined: bool)
        ensures
            declined ==> self.applies(session@),
    {
        let outcomes = self.try_tickets(session);
        proof {
            if !self.applies(session@) {
                lemma_singles_applying(self.request_filter_stage_single@, session@, 0);
                lemma_multis_applying(self.request_filter_stage_multi@, session@, 0);
            }
        }
        any_outcome_declined(&outcomes)
    }

    /// Whether a rule of these limiters applies to a request.
    pub open spec fn applies(&self, session: SessionView) -> bool {
        ||| exists|i: int|
            0 <= i < self.request_filter_stage_single@.len() && (
            #[trigger] self.request_filter_stage_single@[i]).kind.applies(session)
        ||| exists|i: int|
            0 <= i < self.request_filter_stage_multi@.len() && (
            #[trigger] self.request_filter_stage_multi@[i]).kind.key_of(session).is_some()
    }
}

/// The rules of one bucket among `rules`, in order.
pub open spec fn singles_of(rules: Seq<AllRateConfig>) -> Seq<
    (SingleRequestKeyKind, SingleInstanceConfig),
>
    decreases rules.len(),
{
    if rules.len() == 0 {
        Seq::empty()
    } else {
        match rules.last() {
            AllRateConfig::Single { kind, config } => singles_of(rules.drop_last()).push(
                (kind, config),
            ),
            AllRateConfig::Multi { .. } => singles_of(rules.drop_last()),
        }
    }
}

/// The rules of one bucket per key among `rules`, in order.
pub open spec fn multis_of(rules: Seq<AllRateConfig>) -> Seq<(MultiRequestKeyKind, MultiRaterConfig)>
    decreases rules.len(),
{
    if rules.len() == 0 {
        Seq::empty()
    } else {
        match rules.last() {
            AllRateConfig::Multi { kind, config } => multis_of(rules.drop_last()).push(
                (kind, config),
            ),
            AllRateConfig::Single { .. } => multis_of(rules.drop_last()),
        }
    }
}

/// Whether limiters are the ones that `rules` describe: one per rule, of
/// the rule's kind and with the rule's bucket parameters, in order; the
/// cache of a limiter with one bucket per key is sized as its rule says.
pub open spec fn limiters_match(limiters: RateLimiters, rules: Seq<AllRateConfig>) -> bool {
    let singles = singles_of(rules);
    let multis = multis_of(rules);
    &&& limiters.request_filter_stage_single@.len() == singles.len()
    &&& forall|i: int|
        0 <= i < singles.len() ==> (#[trigger] limiters.request_filter_stage_single@[i]).kind
            == singles[i].0 && limiters.request_filter_stage_single@[i].settings()
            == singles[i].1.settings().bounded()
    &&& limiters.request_filter_stage_multi@.len() == multis.len()
    &&& forall|i: int|
        0 <= i < multis.len() ==> (#[trigger] limiters.request_filter_stage_multi@[i]).kind
            == multis[i].0 && limiters.request_filter_stage_multi@[i].rater.settings()
            == multis[i].1.settings() && limiters.request_filter_stage_multi@[i].rater.max_buckets()
            == multis[i].1.max_buckets && limiters.request_filter_stage_multi@[i].rater.readers()
            == multis[i].1.readers()
}

/// Whether a limiter can be built for every one of `rules`.
pub open spec fn all_rules_valid(rules: Seq<AllRateConfig>) -> bool {
    forall|i: int| 0 <= i < rules.len() ==> (#[trigger] rules[i]).valid()
}

/// The backends of a list of upstreams: each upstream under its address,
/// carrying itself as the peer.
pub open spec fn backends_of(upstreams: Seq<UpstreamPeer>) -> Seq<Backend> {
    upstreams.map_values(|p: UpstreamPeer| Backend { addr: p.address, peer: Some(p) })
}

/// Why no service can be built from a configuration, if that is so. The
/// checks are made in this order: the modifiers, the upstreams, the selector,
/// the rate-limiting rules.
pub open spec fn service_error(conf: ProxyConfig) -> Option<ProxyError> {
    if modifiers_of(conf.path_control) is Err {
        Some(modifiers_of(conf.path_control)->Err_0)
    } else if conf.upstreams@.len() == 0 {
        Some(ProxyError::NoUpstreams)
    } else if conf.upstreams@.len() > LoadBalancer::max_backends() {
        Some(ProxyError::TooManyUpstreams)
    } else if !conf.upstream_options.wf() {
        Some(ProxyError::MissingSelector)
    } else if !all_rules_valid(conf.rate_limiting.rules@) {
        Some(ProxyError::InvalidRateLimit)
    } else {
        None
    }
}

/// How a listener is to be bound.
#[derive(Debug, Clone, PartialEq, Eq)]
pub enum ListenerBind {
    /// Plain TCP on an address.
    Tcp { addr: String },
    /// TLS over TCP on an address, with the paths of the certificate and key.
    Tls { addr: String, cert_path: String, key_path: String, offer_h2: bool },
    /// A Unix-domain socket at a path.
    Uds { path: String },
}

impl ListenerBind {
    /// The way to bind a listener of this configuration.
    pub open spec fn of(config: ListenerConfig) -> ListenerBind {
        match config.source {
            ListenerKind::Tcp { addr, tls: Some(tls), offer_h2 } => ListenerBind::Tls {
                addr,
                cert_path: tls.cert_path,
                key_path: tls.key_path,
                offer_h2,
            },
            ListenerKind::Tcp { addr, tls: None, offer_h2 } => ListenerBind::Tcp { addr },
            ListenerKind::Uds(path) => ListenerBind::Uds { path },
        }
    }
}

/// The bind specification of each listener, in order.
pub fn populate_listners(listeners: Vec<ListenerConfig>) -> (binds: Vec<ListenerBind>)
    ensures
        binds@.len() == listeners@.len(),
        forall|i: int| 0 <= i < listeners@.len() ==> binds@[i] == ListenerBind::of(listeners@[i]),
{
    let ghost all = listeners@;
    let mut binds: Vec<ListenerBind> = Vec::new();
    for list_cfg in it: listeners
        invariant
            it.seq() == all,
            binds@.len() == it.index(),
            forall|i: int| 0 <= i < it.index() ==> binds@[i] == ListenerBind::of(all[i]),
    {
        let bind = match list_cfg.source {
            ListenerKind::Tcp { addr, tls: Some(tls_cfg), offer_h2 } => ListenerBind::Tls {
                addr,
                cert_path: tls_cfg.cert_path,
                key_path: tls_cfg.key_path,
                offer_h2,
            },
            ListenerKind::Tcp { addr, tls: None, offer_h2 } => ListenerBind::Tcp { addr },
            ListenerKind::Uds(path) => ListenerBind::Uds { path },
        };
        binds.push(bind);
    }
    binds
}

/// The [RiverProxyService] holds what the phases of a request consult: the
/// modifiers, the load balancer with its key selector, and the rate
/// limiters.
pub struct RiverProxyService {
    /// The name of the service.
    pub name: String,
    /// The listeners that the service is to be bound to.
    pub listeners: Vec<ListenerConfig>,
    /// All modifiers of the service.
    pub modifiers: Modifiers,
    /// Load Balancer
    pub load_balancer: LoadBalancer,
    pub request_selector: RequestSelector,
    pub rate_limiters: RateLimiters,
}

/// Whether `service` is the service that `conf` describes.
pub open spec fn service_matches(service: RiverProxyService, conf: ProxyConfig) -> bool {
    &&& service.name == conf.name
    &&& service.listeners == conf.listeners
    &&& modifiers_of(conf.path_control) == Ok::<ModifiersView, ProxyError>(service.modifiers@)
    &&& service.load_balancer.kind() == conf.upstream_options.selection
    &&& service.load_balancer.backends() == backend_set(backends_of(conf.upstreams@))
    &&& service.request_selector == conf.upstream_options.selector
    &&& limiters_match(service.rate_limiters, conf.rate_limiting.rules@)
}

/// Create a proxy service for the selection that the configuration names
pub fn river_proxy_service(conf: ProxyConfig) -> (r: Result<RiverProxyService, ProxyError>)
    ensures
        match r {
            Ok(service) => service_error(conf).is_none() && service_matches(service, conf),
            Err(e) => service_error(conf) == Some(e),
        },
{
    RiverProxyService::from_basic_conf(conf)
}

/// The decision of the first of `filters` that does not let the request
/// pass, or to go on where all of them do.
pub open spec fn filters_decision(filters: Seq<RequestFilter>, session: SessionView) -> Result<
    Decision,
    ProxyError,
>
    decreases filters.len(),
{
    if filters.len() == 0 {
        Ok(Decision::Continue)
    } else {
        match filters[0].decision(session) {
            Ok(Decision::Continue) => filters_decision(
                filters.subrange(1, filters.len() as int),
                session,
            ),
            other => other,
        }
    }
}

/// The header after each of `modifiers` has changed it, one after the other
/// in the order of the list.
pub open spec fn request_modified(
    modifiers: Seq<RequestModifier>,
    session: SessionView,
    header: RequestHeaderView,
) -> RequestHeaderView
    decreases modifiers.len(),
{
    if modifiers.len() == 0 {
        header
    } else {
        modifiers.last().transformed(
            session,
            request_modified(modifiers.drop_last(), session, header),
        )
    }
}

/// The header after each of `modifiers` has changed it, one after the other
/// in the order of the list.
pub open spec fn response_modified(
    modifiers: Seq<ResponseModifier>,
    session: SessionView,
    header: ResponseHeaderView,
) -> ResponseHeaderView
    decreases modifiers.len(),
{
    if modifiers.len() == 0 {
        header
    } else {
        modifiers.last().transformed(
            session,
            response_modified(modifiers.drop_last(), session, header),
        )
    }
}

/// The peer of a selected backend, or the reason why there is none.
pub open spec fn peer_of(selected: Option<Backend>) -> Result<UpstreamPeer, ProxyError> {
    match selected {
        None => Err(ProxyError::NoBackend),
        Some(backend) => match backend.peer {
            None => Err(ProxyError::BackendMetaMissing),
            Some(peer) => Ok(peer),
        },
    }
}

/// The peer to connect to once the balancer has answered: the one that the
/// selected backend carries.
pub fn resolve_peer<'a>(selected: Option<&'a Backend>) -> (r: Result<&'a UpstreamPeer, ProxyError>)
    ensures
        match r {
            Ok(peer) => selected.is_some() && peer_of(Some(*selected.unwrap())) == Ok::<
                UpstreamPeer,
                ProxyError,
            >(*peer),
            Err(e) => (match selected {
                Some(b) => peer_of(Some(*b)),
                None => peer_of(None),
            }) == Err::<UpstreamPeer, ProxyError>(e),
        },
{
    match selected {
        None => Err(ProxyError::NoBackend),
        Some(backend) => match &backend.peer {
            None => Err(ProxyError::BackendMetaMissing),
            Some(peer) => Ok(peer),
        },
    }
}

impl RiverProxyService {
    /// Create a new [RiverProxyService] from the given [ProxyConfig]
    #[verifier::loop_isolation(false)]
    pub fn from_basic_conf(conf: ProxyConfig) -> (r: Result<Self, ProxyError>)
        ensures
            match r {
                Ok(service) => service_error(conf).is_none() && service_matches(service, conf),
                Err(e) => service_error(conf) == Some(e),
            },
    {
        let modifiers = match Modifiers::from_conf(&conf.path_control) {
            Ok(m) => m,
            Err(e) => {
                return Err(e);
            },
        };
        if conf.upstreams.len() == 0 {
            return Err(ProxyError::NoUpstreams);
        }
        if conf.upstreams.len() > 0x0199_9999 {
            return Err(ProxyError::TooManyUpstreams);
        }
        let options = conf.upstream_options;
        if (options.selection == SelectionKind::Fnv || options.selection == SelectionKind::Ketama)
            && options.selector == RequestSelector::Null {
            return Err(ProxyError::MissingSelector);
        }
        let ghost rules = conf.rate_limiting.rules@;
        let mut r: usize = 0;
        while r < conf.rate_limiting.rules.len()
            invariant
                r <= conf.rate_limiting.rules@.len(),
                forall|j: int| 0 <= j < r ==> (#[trigger] conf.rate_limiting.rules@[j]).valid(),
            decreases conf.rate_limiting.rules@.len() - r,
        {
            if !conf.rate_limiting.rules[r].is_valid() {
                assert(!conf.rate_limiting.rules@[r as int].valid());
                return Err(ProxyError::InvalidRateLimit);
            }
            r += 1;
        }

        let ghost upstreams = conf.upstreams@;
        let mut backends: Vec<Backend> = Vec::new();
        for uppy in it: conf.upstreams
            invariant
                it.seq() == upstreams,
                backends@ == backends_of(upstreams.take(it.index() as int)),
        {
            let ghost prev = backends@;
            let ghost k = it.index() as int;
            backends.push(Backend { addr: uppy.address, peer: Some(uppy) });
            proof {
                assert(upstreams.take(k + 1) =~= upstreams.take(k).push(upstreams[k]));
                assert(backends@ =~= backends_of(upstreams.take(k + 1)));
            }
        }
        assert(upstreams.take(upstreams.len() as int) =~= upstreams);
        let load_balancer = LoadBalancer::from_backends(options.selection, backends);

        let mut request_filter_stage_multi: Vec<MultiRaterInstance> = Vec::new();
        let mut request_filter_stage_single: Vec<SingleInstance> = Vec::new();
        for rule in it: conf.rate_limiting.rules
            invariant
                it.seq() == rules,
                all_rules_valid(rules),
                limiters_match(
                    RateLimiters { request_filter_stage_multi, request_filter_stage_single },
                    rules.take(it.index() as int),
                ),
        {
            let ghost k = it.index() as int;
            proof {
                assert(rules.take(k + 1).drop_last() =~= rules.take(k));
                assert(rules.take(k + 1).last() == rules[k]);
                assert(rules[k].valid());
            }
            match rule {
                AllRateConfig::Single { kind, config } => {
                    let rater = SingleInstance::new(config, kind);
                    request_filter_stage_single.push(rater);
                },
                AllRateConfig::Multi { kind, config } => {
                    let rater = MultiRaterInstance::new(config, kind);
                    request_filter_stage_multi.push(rater);
                },
            }
        }
        assert(rules.take(rules.len() as int) =~= rules);

        Ok(
            RiverProxyService {
                name: conf.name,
                listeners: conf.listeners,
                modifiers,
                load_balancer,
                request_selector: options.selector,
                rate_limiters: RateLimiters {
                    request_filter_stage_multi,
                    request_filter_stage_single,
                },
            },
        )
    }

    /// A fresh context for one request.
    pub fn new_ctx(&self) -> (ctx: RiverContext)
        ensures
            ctx.selector_buf@.len() == 0,
    {
        RiverContext { selector_buf: Vec::new() }
    }

    /// Handle the "Request filter" stage
    ///
    /// Every rate limiter that applies to the request is asked for one
    /// token; the request is answered with 429 as soon as one declines.
    /// Otherwise the request filters decide, in the order of the
    /// configuration. A request that no limiter applies to is never answered
    /// with 429 by the limiters.
    pub fn request_filter(&self, session: &Session, ctx: &mut RiverContext) -> (r: Result<
        Decision,
        ProxyError,
    >)
        ensures
            r == Ok::<Decision, ProxyError>(Decision::Respond(429)) || r == filters_decision(
                self.modifiers.request_filters@,
                session@,
            ),
            !self.rate_limiters.applies(session@) ==> r == filters_decision(
                self.modifiers.request_filters@,
                session@,
            ),
            *final(ctx) == *old(ctx),
    {
        let declined = self.rate_limiters.any_declined(session);
        self.decide_request(declined, session, ctx)
    }

    /// What the request phase decides once the rate limiters have answered:
    /// 429 where a ticket was declined, and else what the request filters
    /// decide.
    pub fn decide_request(&self, declined: bool, session: &Session, ctx: &mut RiverContext) -> (r:
        Result<Decision, ProxyError>)
        ensures
            r == (if declined {
                Ok(Decision::Respond(429))
            } else {
                filters_decision(self.modifiers.request_filters@, session@)
            }),
            *final(ctx) == *old(ctx),
    {
        if declined {
            Ok(Decision::Respond(429))
        } else {
            self.run_request_filters(session, ctx)
        }
    }

    /// Runs the request filters in the order of the configuration, up to the
    /// first that does not let the request pass.
    pub fn run_request_filters(&self, session: &Session, ctx: &mut RiverContext) -> (r: Result<
        Decision,
        ProxyError,
    >)
        ensures
            r == filters_decision(self.modifiers.request_filters@, session@),
            *final(ctx) == *old(ctx),
    {
        let filters = &self.modifiers.request_filters;
        let mut i: usize = 0;
        assert(filters@.subrange(0, filters@.len() as int) =~= filters@);
        while i < filters.len()
            invariant
                i <= filters@.len(),
                filters == &self.modifiers.request_filters,
                *ctx == *old(ctx),
                filters_decision(filters@, session@) == filters_decision(
                    filters@.subrange(i as int, filters@.len() as int),
                    session@,
                ),
            decreases filters@.len() - i,
        {
            let ghost rest = filters@.subrange(i as int, filters@.len() as int);
            assert(rest[0] == filters@[i as int]);
            assert(rest.subrange(1, rest.len() as int) =~= filters@.subrange(
                i + 1,
                filters@.len() as int,
            ));
            let decision = filters[i].request_filter(session, ctx);
            assert(decision == rest[0].decision(session@));
            match decision {
                Ok(Decision::Continue) => {},
                _ => {
                    return decision;
                },
            }
            i += 1;
        }
        Ok(Decision::Continue)
    }

    /// Handle the "upstream peer" phase, where we pick which upstream to proxy to.
    ///
    /// The selector makes the key, the balancer selects a backend for it, and
    /// the backend gives the peer. The selector buffer is empty afterwards.
    /// With a hashing selection the peer is the one of the backend that the
    /// key hashes to.
    pub fn upstream_peer(&self, session: &Session, ctx: &mut RiverContext) -> (r: Result<
        &UpstreamPeer,
        ProxyError,
    >)
        ensures
            final(ctx).selector_buf@.len() == 0,
            self.load_balancer.backends().len() == 0 ==> r == Err::<&UpstreamPeer, ProxyError>(
                ProxyError::NoBackend,
            ),
            self.load_balancer.backends().len() > 0 ==> exists|i: int|
                0 <= i < self.load_balancer.backends().len() && (match r {
                    Ok(peer) => peer_of(Some(#[trigger] self.load_balancer.backends()[i])) == Ok::<
                        UpstreamPeer,
                        ProxyError,
                    >(*peer),
                    Err(e) => peer_of(Some(self.load_balancer.backends()[i])) == Err::<
                        UpstreamPeer,
                        ProxyError,
                    >(e),
                }) && ((self.load_balancer.kind() == SelectionKind::Fnv || self.load_balancer.kind()
                    == SelectionKind::Ketama) ==> hashed_choice(
                    self.load_balancer.kind(),
                    self.load_balancer.backends(),
                    self.request_selector.key(session@),
                ) == Some(i)),
    {
        self.request_selector.select(ctx, session);
        let backend = self.load_balancer.select(ctx.selector_buf.as_slice(), 256);
        // Manually clear the selector buf to avoid accidental leaks
        ctx.selector_buf.clear();
        proof {
            if let Some(b) = backend {
                if self.load_balancer.kind() == SelectionKind::Fnv || self.load_balancer.kind()
                    == SelectionKind::Ketama {
                    let j = hashed_choice(
                        self.load_balancer.kind(),
                        self.load_balancer.backends(),
                        self.request_selector.key(session@),
                    )->Some_0;
                    assert(self.load_balancer.backends()[j] == *b);
                }
            }
        }
        resolve_peer(backend)
    }

    /// Handle the "upstream request filter" phase, where the request that
    /// goes upstream is modified: every modifier is applied, in the order of
    /// the configuration.
    pub fn upstream_request_filter(
        &self,
        session: &Session,
        header: &mut RequestHeader,
        ctx: &mut RiverContext,
    ) -> (r: Result<(), ProxyError>)
        ensures
            r.is_ok(),
            final(header)@ == request_modified(
                self.modifiers.upstream_request_filters@,
                session@,
                old(header)@,
            ),
            *final(ctx) == *old(ctx),
    {
        let modifiers = &self.modifiers.upstream_request_filters;
        let mut i: usize = 0;
        assert(modifiers@.take(0) =~= Seq::empty());
        while i < modifiers.len()
            invariant
                i <= modifiers@.len(),
                modifiers == &self.modifiers.upstream_request_filters,
                *ctx == *old(ctx),
                header@ == request_modified(modifiers@.take(i as int), session@, old(header)@),
            decreases modifiers@.len() - i,
        {
            assert(modifiers@.take(i + 1).drop_last() =~= modifiers@.take(i as int));
            assert(modifiers@.take(i + 1).last() == modifiers@[i as int]);
            let _ = modifiers[i].upstream_request_filter(session, header, ctx);
            i += 1;
        }
        assert(modifiers@.take(i as int) =~= modifiers@);
        Ok(())
    }

    /// Handle the "upstream response filter" phase, where the response that
    /// goes downstream is modified: every modifier is applied, in the order
    /// of the configuration.
    pub fn upstream_response_filter(
        &self,
        session: &Session,
        upstream_response: &mut ResponseHeader,
        ctx: &mut RiverContext,
    )
        ensures
            final(upstream_response)@ == response_modified(
                self.modifiers.upstream_response_filters@,
                session@,
                old(upstream_response)@,
            ),
            *final(ctx) == *old(ctx),
    {
        let modifiers = &self.modifiers.upstream_response_filters;
        let mut i: usize = 0;
        assert(modifiers@.take(0) =~= Seq::empty());
        while i < modifiers.len()
            invariant
                i <= modifiers@.len(),
                modifiers == &self.modifiers.upstream_response_filters,
                *ctx == *old(ctx),
                upstream_response@ == response_modified(
                    modifiers@.take(i as int),
                    session@,
                    old(upstream_response)@,
                ),
            decreases modifiers@.len() - i,
        {
            assert(modifiers@.take(i + 1).drop_last() =~= modifiers@.take(i as int));
            assert(modifiers@.take(i + 1).last() == modifiers@[i as int]);
            modifiers[i].upstream_response_filter(session, upstream_response, ctx);
            i += 1;
        }
        assert(modifiers@.take(i as int) =~= modifiers@);
    }
}

/// What was built from a list of settings has one item per entry of the
/// list, each built from the entry at its position.
pub proof fn lemma_build_all_items<T>(
    confs: Seq<Seq<(Seq<char>, Seq<char>)>>,
    build: spec_fn(Seq<(Seq<char>, Seq<char>)>) -> Result<T, ProxyError>,
)
    requires
        build_all(confs, build) is Ok,
    ensures
        build_all(confs, build)->Ok_0.len() == confs.len(),
        forall|i: int|
            0 <= i < confs.len() ==> build(#[trigger] confs[i]) == Ok::<T, ProxyError>(
                build_all(confs, build)->Ok_0[i],
            ),
    decreases confs.len(),
{
    if confs.len() > 0 {
        lemma_build_all_items(confs.drop_last(), build);
        assert forall|i: int| 0 <= i < confs.len() implies build(#[trigger] confs[i]) == Ok::<
            T,
            ProxyError,
        >(build_all(confs, build)->Ok_0[i]) by {
            if i < confs.len() - 1 {
                assert(confs[i] == confs.drop_last()[i]);
            }
        }
    }
}

/// Modifiers run in the order of the configuration. The modifiers built from
/// a path control stand at the positions of the entries they were built
/// from, in each of the three lists; and the change that the modifier at a
/// position makes is made to what the modifiers before it have left.
pub proof fn lemma_modifiers_run_in_configuration_order(
    conf: PathControl,
    modifiers: Modifiers,
    session: SessionView,
    request: RequestHeaderView,
    response: ResponseHeaderView,
)
    requires
        modifiers_of(conf) == Ok::<ModifiersView, ProxyError>(modifiers@),
    ensures
        modifiers.request_filters@.len() == conf.request_filters@.len(),
        forall|i: int|
            0 <= i < conf.request_filters@.len() ==> request_filter_of(
                (#[trigger] conf.request_filters@[i])@,
            ) == Ok::<RequestFilterView, ProxyError>(modifiers.request_filters@[i]@),
        modifiers.upstream_request_filters@.len() == conf.upstream_request_filters@.len(),
        forall|i: int|
            0 <= i < conf.upstream_request_filters@.len() ==> request_modifier_of(
                (#[trigger] conf.upstream_request_filters@[i])@,
            ) == Ok::<RequestModifierView, ProxyError>(modifiers.upstream_request_filters@[i]@),
        modifiers.upstream_response_filters@.len() == conf.upstream_response_filters@.len(),
        forall|i: int|
            0 <= i < conf.upstream_response_filters@.len() ==> response_modifier_of(
                (#[trigger] conf.upstream_response_filters@[i])@,
            ) == Ok::<ResponseModifierView, ProxyError>(modifiers.upstream_response_filters@[i]@),
        forall|k: int|
            0 <= k < modifiers.upstream_request_filters@.len() ==> #[trigger] request_modified(
                modifiers.upstream_request_filters@.take(k + 1),
                session,
                request,
            ) == modifiers.upstream_request_filters@[k]@.transformed(
                request_modified(modifiers.upstream_request_filters@.take(k), session, request),
            ),
        forall|k: int|
            0 <= k < modifiers.upstream_response_filters@.len() ==> #[trigger] response_modified(
                modifiers.upstream_response_filters@.take(k + 1),
                session,
                response,
            ) == modifiers.upstream_response_filters@[k]@.transformed(
                response_modified(modifiers.upstream_response_filters@.take(k), session, response),
            ),
{
    let filter_confs = settings_views(conf.request_filters@);
    let request_confs = settings_views(conf.upstream_request_filters@);
    let response_confs = settings_views(conf.upstream_response_filters@);
    lemma_build_all_items(filter_confs, |s: Seq<(Seq<char>, Seq<char>)>| request_filter_of(s));
    lemma_build_all_items(request_confs, |s: Seq<(Seq<char>, Seq<char>)>| request_modifier_of(s));
    lemma_build_all_items(
        response_confs,
        |s: Seq<(Seq<char>, Seq<char>)>| response_modifier_of(s),
    );
    assert forall|i: int| 0 <= i < conf.request_filters@.len() implies request_filter_of(
        (#[trigger] conf.request_filters@[i])@,
    ) == Ok::<RequestFilterView, ProxyError>(modifiers.request_filters@[i]@) by {
        assert(filter_confs[i] == conf.request_filters@[i]@);
    }
    assert forall|i: int|
        0 <= i < conf.upstream_request_filters@.len() implies request_modifier_of(
        (#[trigger] conf.upstream_request_filters@[i])@,
    ) == Ok::<RequestModifierView, ProxyError>(modifiers.upstream_request_filters@[i]@) by {
        assert(request_confs[i] == conf.upstream_request_filters@[i]@);
    }
    assert forall|i: int|
        0 <= i < conf.upstream_response_filters@.len() implies response_modifier_of(
        (#[trigger] conf.upstream_response_filters@[i])@,
    ) == Ok::<ResponseModifierView, ProxyError>(modifiers.upstream_response_filters@[i]@) by {
        assert(response_confs[i] == conf.upstream_response_filters@[i]@);
    }
    assert forall|k: int|
        0 <= k < modifiers.upstream_request_filters@.len() implies #[trigger] request_modified(
        modifiers.upstream_request_filters@.take(k + 1),
        session,
        request,
    ) == modifiers.upstream_request_filters@[k]@.transformed(
        request_modified(modifiers.upstream_request_filters@.take(k), session, request),
    ) by {
        let list = modifiers.upstream_request_filters@;
        assert(list.take(k + 1).drop_last() =~= list.take(k));
        assert(list.take(k + 1).last() == list[k]);
    }
    assert forall|k: int|
        0 <= k < modifiers.upstream_response_filters@.len() implies #[trigger] response_modified(
        modifiers.upstream_response_filters@.take(k + 1),
        session,
        response,
    ) == modifiers.upstream_response_filters@[k]@.transformed(
        response_modified(modifiers.upstream_response_filters@.take(k), session, response),
    ) by {
        let list = modifiers.upstream_response_filters@;
        assert(list.take(k + 1).drop_last() =~= list.take(k));
        assert(list.take(k + 1).last() == list[k]);
    }
}

} // verus!
