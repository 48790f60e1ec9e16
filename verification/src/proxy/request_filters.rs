//! Filters of the request phase: they let a request pass, or answer it.

use crate::net::{cidr_parse, parse_cidr, CidrBlock, ClientAddr, ClientAddrView};
use crate::proxy::{ensure_empty, extract_val, ProxyError, RiverContext};
use crate::session::{Session, SessionView};
use crate::settings::{lookup, without_key, Settings};
use crate::text::{split, split_on, str_eq, trim, trimmed};
use vstd::prelude::*;

verus! {

/// What a request filter decides.
#[derive(Debug, Clone, Copy, PartialEq, Eq, Structural)]
pub enum Decision {
    /// The request goes on to the next filter or phase.
    Continue,
    /// The request is answered with this status, and no further phase runs.
    Respond(u16),
}

/// A filter of the request phase.
pub trait RequestFilterMod {
    /// What this filter decides for a request.
    spec fn decision(&self, session: SessionView) -> Result<Decision, ProxyError>;

    /// Decides whether `session` goes on. The context is left as it was.
    fn request_filter(&self, session: &Session, ctx: &mut RiverContext) -> (r: Result<
        Decision,
        ProxyError,
    >)
        ensures
            r == self.decision(session@),
            *final(ctx) == *old(ctx),
    ;
}

/// The blocks that a comma-separated list of CIDR ranges denotes. White space
/// around a range is ignored. There is no result where a range is not valid.
pub open spec fn blocks_of(addrs: Seq<char>) -> Option<Seq<CidrBlock>> {
    let pieces = split(addrs, ',');
    if forall|i: int| 0 <= i < pieces.len() ==> cidr_parse(trimmed(#[trigger] pieces[i])).is_some() {
        Some(pieces.map_values(|p: Seq<char>| cidr_parse(trimmed(p)).unwrap()))
    } else {
        None
    }
}

/// The blocks of a `block-cidr-range` filter with these settings, or the
/// reason why there is no such filter.
pub open spec fn cidr_filter_of(s: Seq<(Seq<char>, Seq<char>)>) -> Result<Seq<CidrBlock>, ProxyError> {
    match lookup(s, "addrs"@) {
        None => Err(ProxyError::MissingConfigurationField),
        Some(addrs) => match blocks_of(addrs) {
            None => Err(ProxyError::InvalidCidr),
            Some(blocks) => if without_key(s, "addrs"@).len() > 0 {
                Err(ProxyError::UnknownConfigKey)
            } else {
                Ok(blocks)
            },
        },
    }
}

/// Whether one of `blocks` holds the address `client`.
pub open spec fn blocked(blocks: Seq<CidrBlock>, client: ClientAddrView) -> bool {
    match client {
        ClientAddrView::Inet(addr) => exists|i: int|
            0 <= i < blocks.len() && (#[trigger] blocks[i]).spec_contains(addr.ip),
        ClientAddrView::Unix(_) => false,
    }
}

/// Refuses requests from the listed address ranges.
#[derive(Debug, Clone, PartialEq, Eq)]
pub struct CidrRangeFilter {
    pub blocks: Vec<CidrBlock>,
}

impl CidrRangeFilter {
    /// Create from the settings field `addrs`, a comma-separated list of
    /// ranges in CIDR notation.
    pub fn from_settings(settings: Settings) -> (r: Result<Self, ProxyError>)
        ensures
            match r {
                Ok(f) => cidr_filter_of(settings@) == Ok::<Seq<CidrBlock>, ProxyError>(f.blocks@),
                Err(e) => cidr_filter_of(settings@) == Err::<Seq<CidrBlock>, ProxyError>(e),
            },
    {
        let mut rest = settings;
        let mat = match extract_val("addrs", &mut rest) {
            Ok(m) => m,
            Err(e) => {
                return Err(e);
            },
        };
        let pieces = split_on(mat.as_str(), ',');
        let ghost texts = split(mat@, ',');
        let ghost parse = |p: Seq<char>| cidr_parse(trimmed(p)).unwrap();
        let mut blocks: Vec<CidrBlock> = Vec::new();
        let mut i: usize = 0;
        while i < pieces.len()
            invariant
                i <= pieces.len(),
                texts == pieces@.map_values(|p: &str| p@),
                texts == split(mat@, ','),
                lookup(settings@, "addrs"@) == Some(mat@),
                parse == |p: Seq<char>| cidr_parse(trimmed(p)).unwrap(),
                forall|j: int| 0 <= j < i ==> cidr_parse(trimmed(#[trigger] texts[j])).is_some(),
                blocks@ == texts.take(i as int).map_values(parse),
            decreases pieces.len() - i,
        {
            assert(texts[i as int] == pieces@[i as int]@);
            let addr = trim(pieces[i]);
            match parse_cidr(addr) {
                Some(block) => {
                    blocks.push(block);
                    assert(texts.take(i + 1) =~= texts.take(i as int).push(texts[i as int]));
                    assert(blocks@ =~= texts.take(i + 1).map_values(parse));
                },
                None => {
                    assert(cidr_parse(trimmed(texts[i as int])).is_none());
                    return Err(ProxyError::InvalidCidr);
                },
            }
            i += 1;
        }
        assert(texts.take(i as int) =~= texts);
        match ensure_empty(&rest) {
            Ok(()) => Ok(CidrRangeFilter { blocks }),
            Err(e) => Err(e),
        }
    }
}

impl RequestFilterMod for CidrRangeFilter {
    /// A client without a known address is answered with 401, and so is one
    /// inside a listed block. Clients on a Unix-domain socket pass.
    open spec fn decision(&self, session: SessionView) -> Result<Decision, ProxyError> {
        match session.client_addr {
            None => Ok(Decision::Respond(401)),
            Some(addr) => if blocked(self.blocks@, addr) {
                Ok(Decision::Respond(401))
            } else {
                Ok(Decision::Continue)
            },
        }
    }

    fn request_filter(&self, session: &Session, ctx: &mut RiverContext) -> (r: Result<
        Decision,
        ProxyError,
    >) {
        let addr = match &session.client_addr {
            None => {
                return Ok(Decision::Respond(401));
            },
            Some(ClientAddr::Unix(_)) => {
                return Ok(Decision::Continue);
            },
            Some(ClientAddr::Inet(addr)) => *addr,
        };
        let mut i: usize = 0;
        while i < self.blocks.len()
            invariant
                i <= self.blocks.len(),
                session@.client_addr == Some(ClientAddrView::Inet(addr)),
                *ctx == *old(ctx),
                forall|j: int| 0 <= j < i ==> !(#[trigger] self.blocks@[j]).spec_contains(addr.ip),
            decreases self.blocks.len() - i,
        {
            if self.blocks[i].contains(addr.ip) {
                assert(self.blocks@[i as int].spec_contains(addr.ip));
                return Ok(Decision::Respond(401));
            }
            i += 1;
        }
        Ok(Decision::Continue)
    }
}

/// The request filters that a configuration can name.
#[derive(Debug, Clone, PartialEq, Eq)]
pub enum RequestFilter {
    /// `block-cidr-range`
    BlockCidrRange(CidrRangeFilter),
}

/// What a `RequestFilter` holds.
pub enum RequestFilterView {
    BlockCidrRange(Seq<CidrBlock>),
}

impl View for RequestFilter {
    type V = RequestFilterView;

    open spec fn view(&self) -> RequestFilterView {
        match self {
            RequestFilter::BlockCidrRange(f) => RequestFilterView::BlockCidrRange(f.blocks@),
        }
    }
}

/// The request filter that these settings describe: the kind that `kind`
/// names, built from the other settings.
pub open spec fn request_filter_of(s: Seq<(Seq<char>, Seq<char>)>) -> Result<
    RequestFilterView,
    ProxyError,
> {
    match lookup(s, "kind"@) {
        None => Err(ProxyError::MissingConfigurationField),
        Some(kind) => if kind == "block-cidr-range"@ {
            match cidr_filter_of(without_key(s, "kind"@)) {
                Ok(blocks) => Ok(RequestFilterView::BlockCidrRange(blocks)),
                Err(e) => Err(e),
            }
        } else {
            Err(ProxyError::UnknownFilterKind)
        },
    }
}

impl RequestFilter {
    /// Builds the filter that `settings` describe.
    pub fn from_settings(settings: Settings) -> (r: Result<Self, ProxyError>)
        ensures
            match r {
                Ok(f) => request_filter_of(settings@) == Ok::<RequestFilterView, ProxyError>(f@),
                Err(e) => request_filter_of(settings@) == Err::<RequestFilterView, ProxyError>(e),
            },
    {
        let mut rest = settings;
        let kind = match extract_val("kind", &mut rest) {
            Ok(k) => k,
            Err(e) => {
                return Err(e);
            },
        };
        if str_eq(kind.as_str(), "block-cidr-range") {
            match CidrRangeFilter::from_settings(rest) {
                Ok(f) => Ok(RequestFilter::BlockCidrRange(f)),
                Err(e) => Err(e),
            }
        } else {
            Err(ProxyError::UnknownFilterKind)
        }
    }
}

impl RequestFilterMod for RequestFilter {
    open spec fn decision(&self, session: SessionView) -> Result<Decision, ProxyError> {
        match self {
            RequestFilter::BlockCidrRange(f) => f.decision(session),
        }
    }

    fn request_filter(&self, session: &Session, ctx: &mut RiverContext) -> (r: Result<
        Decision,
        ProxyError,
    >) {
        match self {
            RequestFilter::BlockCidrRange(f) => f.request_filter(session, ctx),
        }
    }
}

} // verus!
