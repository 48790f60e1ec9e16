//! Modifiers of the response that goes back downstream: header removal and
//! header upsert.

use crate::proxy::rate_limiting::RegexShim;
use crate::proxy::request_modifiers::{
    remove_header_of, remove_headers_matching, upsert_header, upsert_header_of, upserted,
    without_matching,
};
use crate::proxy::{ensure_empty, extract_val, ProxyError, RiverContext};
use crate::session::{ResponseHeader, ResponseHeaderView, Session, SessionView};
use crate::settings::{lookup, without_key, Settings};
use crate::text::str_eq;
use vstd::prelude::*;
use vstd::utf8::encode_utf8;

verus! {

/// A modifier of the response that came from upstream.
pub trait ResponseModifyMod {
    /// The header that this modifier makes of `header`.
    spec fn transformed(
        &self,
        session: SessionView,
        header: ResponseHeaderView,
    ) -> ResponseHeaderView;

    /// Changes `header` in place. The context is left as it was.
    fn upstream_response_filter(
        &self,
        session: &Session,
        header: &mut ResponseHeader,
        ctx: &mut RiverContext,
    )
        ensures
            final(header)@ == self.transformed(session@, old(header)@),
            *final(ctx) == *old(ctx),
    ;
}

/// Removes a header if the key matches a given regex
#[derive(Debug, Clone)]
pub struct RemoveHeaderKeyRegex {
    pub regex: RegexShim,
}

impl RemoveHeaderKeyRegex {
    /// Create from the settings field `pattern`.
    pub fn from_settings(settings: Settings) -> (r: Result<Self, ProxyError>)
        ensures
            match r {
                Ok(m) => remove_header_of(settings@) == Ok::<Seq<char>, ProxyError>(
                    m.regex.pattern(),
                ),
                Err(e) => remove_header_of(settings@) == Err::<Seq<char>, ProxyError>(e),
            },
    {
        let mut rest = settings;
        let mat = match extract_val("pattern", &mut rest) {
            Ok(m) => m,
            Err(e) => {
                return Err(e);
            },
        };
        let regex = match RegexShim::new(mat.as_str()) {
            Ok(r) => r,
            Err(_) => {
                return Err(ProxyError::InvalidRegex);
            },
        };
        match ensure_empty(&rest) {
            Ok(()) => Ok(RemoveHeaderKeyRegex { regex }),
            Err(e) => Err(e),
        }
    }
}

impl ResponseModifyMod for RemoveHeaderKeyRegex {
    open spec fn transformed(
        &self,
        session: SessionView,
        header: ResponseHeaderView,
    ) -> ResponseHeaderView {
        ResponseHeaderView {
            headers: without_matching(header.headers, self.regex.pattern()),
            ..header
        }
    }

    fn upstream_response_filter(
        &self,
        session: &Session,
        header: &mut ResponseHeader,
        ctx: &mut RiverContext,
    ) {
        remove_headers_matching(&mut header.headers, &self.regex);
    }
}

/// Adds or replaces a given header key and value
#[derive(Debug, Clone, PartialEq, Eq)]
pub struct UpsertHeader {
    pub key: String,
    pub value: String,
}

impl UpsertHeader {
    /// Create from the settings fields `key` and `value`.
    pub fn from_settings(settings: Settings) -> (r: Result<Self, ProxyError>)
        ensures
            match r {
                Ok(m) => upsert_header_of(settings@) == Ok::<(Seq<char>, Seq<char>), ProxyError>(
                    (m.key@, m.value@),
                ),
                Err(e) => upsert_header_of(settings@) == Err::<(Seq<char>, Seq<char>), ProxyError>(
                    e,
                ),
            },
    {
        let mut rest = settings;
        let key = match extract_val("key", &mut rest) {
            Ok(k) => k,
            Err(e) => {
                return Err(e);
            },
        };
        let value = match extract_val("value", &mut rest) {
            Ok(v) => v,
            Err(e) => {
                return Err(e);
            },
        };
        match ensure_empty(&rest) {
            Ok(()) => Ok(UpsertHeader { key, value }),
            Err(e) => Err(e),
        }
    }
}

impl ResponseModifyMod for UpsertHeader {
    open spec fn transformed(
        &self,
        session: SessionView,
        header: ResponseHeaderView,
    ) -> ResponseHeaderView {
        ResponseHeaderView {
            headers: upserted(header.headers, self.key@, encode_utf8(self.value@)),
            ..header
        }
    }

    fn upstream_response_filter(
        &self,
        session: &Session,
        header: &mut ResponseHeader,
        ctx: &mut RiverContext,
    ) {
        upsert_header(&mut header.headers, &self.key, &self.value);
    }
}

/// The response modifiers that a configuration can name.
#[derive(Debug, Clone)]
pub enum ResponseModifier {
    /// `remove-header-key-regex`
    RemoveHeaderKeyRegex(RemoveHeaderKeyRegex),
    /// `upsert-header`
    UpsertHeader(UpsertHeader),
}

/// What a `ResponseModifier` holds.
pub enum ResponseModifierView {
    RemoveHeaderKeyRegex { pattern: Seq<char> },
    UpsertHeader { key: Seq<char>, value: Seq<char> },
}

impl ResponseModifierView {
    /// The header that a modifier holding this makes of `header`.
    pub open spec fn transformed(self, header: ResponseHeaderView) -> ResponseHeaderView {
        match self {
            ResponseModifierView::RemoveHeaderKeyRegex { pattern } => ResponseHeaderView {
                headers: without_matching(header.headers, pattern),
                ..header
            },
            ResponseModifierView::UpsertHeader { key, value } => ResponseHeaderView {
                headers: upserted(header.headers, key, encode_utf8(value)),
                ..header
            },
        }
    }
}

impl View for ResponseModifier {
    type V = ResponseModifierView;

    open spec fn view(&self) -> ResponseModifierView {
        match self {
            ResponseModifier::RemoveHeaderKeyRegex(m) => ResponseModifierView::RemoveHeaderKeyRegex {
                pattern: m.regex.pattern(),
            },
            ResponseModifier::UpsertHeader(m) => ResponseModifierView::UpsertHeader {
                key: m.key@,
                value: m.value@,
            },
        }
    }
}

/// The response modifier that these settings describe: the kind that `kind`
/// names, built from the other settings.
pub open spec fn response_modifier_of(s: Seq<(Seq<char>, Seq<char>)>) -> Result<
    ResponseModifierView,
    ProxyError,
> {
    match lookup(s, "kind"@) {
        None => Err(ProxyError::MissingConfigurationField),
        Some(kind) => {
            let rest = without_key(s, "kind"@);
            if kind == "remove-header-key-regex"@ {
                match remove_header_of(rest) {
                    Ok(pattern) => Ok(ResponseModifierView::RemoveHeaderKeyRegex { pattern }),
                    Err(e) => Err(e),
                }
            } else if kind == "upsert-header"@ {
                match upsert_header_of(rest) {
                    Ok((key, value)) => Ok(ResponseModifierView::UpsertHeader { key, value }),
                    Err(e) => Err(e),
                }
            } else {
                Err(ProxyError::UnknownFilterKind)
            }
        },
    }
}

impl ResponseModifier {
    /// Builds the modifier that `settings` describe.
    pub fn from_settings(settings: Settings) -> (r: Result<Self, ProxyError>)
        ensures
            match r {
                Ok(m) => response_modifier_of(settings@) == Ok::<
                    ResponseModifierView,
                    ProxyError,
                >(m@),
                Err(e) => response_modifier_of(settings@) == Err::<
                    ResponseModifierView,
                    ProxyError,
                >(e),
            },
    {
        let mut rest = settings;
        let kind = match extract_val("kind", &mut rest) {
            Ok(k) => k,
            Err(e) => {
                return Err(e);
            },
        };
        if str_eq(kind.as_str(), "remove-header-key-regex") {
            match RemoveHeaderKeyRegex::from_settings(rest) {
                Ok(m) => Ok(ResponseModifier::RemoveHeaderKeyRegex(m)),
                Err(e) => Err(e),
            }
        } else if str_eq(kind.as_str(), "upsert-header") {
            match UpsertHeader::from_settings(rest) {
                Ok(m) => Ok(ResponseModifier::UpsertHeader(m)),
                Err(e) => Err(e),
            }
        } else {
            Err(ProxyError::UnknownFilterKind)
        }
    }
}

impl ResponseModifyMod for ResponseModifier {
    open spec fn transformed(
        &self,
        session: SessionView,
        header: ResponseHeaderView,
    ) -> ResponseHeaderView {
        match self {
            ResponseModifier::RemoveHeaderKeyRegex(m) => m.transformed(session, header),
            ResponseModifier::UpsertHeader(m) => m.transformed(session, header),
        }
    }

    fn upstream_response_filter(
        &self,
        session: &Session,
        header: &mut ResponseHeader,
        ctx: &mut RiverContext,
    ) {
        match self {
            ResponseModifier::RemoveHeaderKeyRegex(m) => m.upstream_response_filter(
                session,
                header,
                ctx,
            ),
            ResponseModifier::UpsertHeader(m) => m.upstream_response_filter(session, header, ctx),
        }
    }
}

} // verus!
