//! Modifiers of the outgoing request: header removal, header upsert and
//! path rewriting.

use crate::proxy::rate_limiting::{regex_accepts, regex_matches, regex_replaced, RegexShim};
use crate::proxy::{ensure_empty, extract_val, ProxyError, RiverContext};
use crate::session::{
    count_named, first_value, same_name, without_name, HeaderList, RequestHeader,
    RequestHeaderView, Session, SessionView,
};
use crate::settings::{lookup, without_key, Settings};
use crate::text::{lower, str_eq, to_ascii_lowercase};
use vstd::prelude::*;
use vstd::utf8::encode_utf8;

verus! {

broadcast use vstd::seq_lib::group_seq_properties;

/// A modifier of the request that goes upstream.
pub trait RequestModifyMod {
    /// The header that this modifier makes of `header`.
    spec fn transformed(&self, session: SessionView, header: RequestHeaderView) -> RequestHeaderView;

    /// Changes `header` in place. The context is left as it was.
    fn upstream_request_filter(
        &self,
        session: &Session,
        header: &mut RequestHeader,
        ctx: &mut RiverContext,
    ) -> (r: Result<(), ProxyError>)
        ensures
            r.is_ok(),
            final(header)@ == self.transformed(session@, old(header)@),
            *final(ctx) == *old(ctx),
    ;
}

/// The headers of `h` whose lower-case name `pattern` does not match, in
/// their order.
pub open spec fn without_matching(h: Seq<(Seq<char>, Seq<u8>)>, pattern: Seq<char>) -> Seq<
    (Seq<char>, Seq<u8>),
> {
    h.filter(|e: (Seq<char>, Seq<u8>)| !regex_matches(pattern, lower(e.0)))
}

/// `h` with every header named `key` taken out, and `key: value` added at the end.
pub open spec fn upserted(h: Seq<(Seq<char>, Seq<u8>)>, key: Seq<char>, value: Seq<u8>) -> Seq<
    (Seq<char>, Seq<u8>),
> {
    without_name(h, key).push((key, value))
}

/// The positions in `s` of the items that pass `keep`, in increasing order.
pub open spec fn kept_positions<A>(s: Seq<A>, keep: spec_fn(A) -> bool) -> Seq<int>
    decreases s.len(),
{
    if s.len() == 0 {
        Seq::empty()
    } else if keep(s.last()) {
        kept_positions(s.drop_last(), keep).push(s.len() - 1)
    } else {
        kept_positions(s.drop_last(), keep)
    }
}

/// A filter keeps the order: what it keeps are the items at the kept
/// positions, and these positions increase.
pub proof fn lemma_filter_keeps_order<A>(s: Seq<A>, keep: spec_fn(A) -> bool)
    ensures
        kept_positions(s, keep).len() == s.filter(keep).len(),
        forall|i: int|
            0 <= i < s.filter(keep).len() ==> 0 <= (#[trigger] kept_positions(s, keep)[i]) < s.len()
                && s.filter(keep)[i] == s[kept_positions(s, keep)[i]],
        forall|i: int, j: int|
            0 <= i < j < s.filter(keep).len() ==> (#[trigger] kept_positions(s, keep)[i]) < (
            #[trigger] kept_positions(s, keep)[j]),
    decreases s.len(),
{
    reveal(Seq::filter);
    if s.len() > 0 {
        lemma_filter_keeps_order(s.drop_last(), keep);
        let before = kept_positions(s.drop_last(), keep);
        let kept = s.drop_last().filter(keep);
        assert forall|i: int| 0 <= i < kept.len() implies 0 <= (#[trigger] before[i]) < s.len() - 1
            && kept[i] == s[before[i]] by {
            assert(s.drop_last()[before[i]] == s[before[i]]);
        }
    }
}

/// The positions in `h` of the headers whose lower-case name `pattern` does
/// not match, in increasing order.
pub open spec fn unmatched_positions(h: Seq<(Seq<char>, Seq<u8>)>, pattern: Seq<char>) -> Seq<int> {
    kept_positions(h, |e: (Seq<char>, Seq<u8>)| !regex_matches(pattern, lower(e.0)))
}

/// After the headers that match a pattern are removed, no header matches it,
/// and the headers that never matched are all there, in the order they had:
/// what is left are the headers at the positions that do not match, and
/// these positions increase.
pub proof fn lemma_remove_is_exhaustive(h: Seq<(Seq<char>, Seq<u8>)>, pattern: Seq<char>)
    ensures
        unmatched_positions(h, pattern).len() == without_matching(h, pattern).len(),
        forall|i: int, j: int|
            0 <= i < j < without_matching(h, pattern).len() ==> (#[trigger] unmatched_positions(
                h,
                pattern,
            )[i]) < (#[trigger] unmatched_positions(h, pattern)[j]),
        forall|i: int|
            0 <= i < without_matching(h, pattern).len() ==> 0 <= (#[trigger] unmatched_positions(
                h,
                pattern,
            )[i]) < h.len() && without_matching(h, pattern)[i] == h[unmatched_positions(
                h,
                pattern,
            )[i]],
        forall|i: int|
            0 <= i < without_matching(h, pattern).len() ==> !regex_matches(
                pattern,
                lower((#[trigger] without_matching(h, pattern)[i]).0),
            ),
        forall|i: int|
            0 <= i < h.len() && !regex_matches(pattern, lower((#[trigger] h[i]).0))
                ==> without_matching(h, pattern).contains(h[i]),
        without_matching(without_matching(h, pattern), pattern) == without_matching(h, pattern),
        without_matching(h, pattern).len() <= h.len(),
{
    let keep = |e: (Seq<char>, Seq<u8>)| !regex_matches(pattern, lower(e.0));
    h.filter_lemma(keep);
    lemma_filter_keeps_order(h, keep);
    let r = h.filter(keep);
    assert forall|i: int| 0 <= i < r.len() implies keep(#[trigger] r[i]) by {}
    lemma_filter_all_kept(r, keep);
}

/// A filter keeps a sequence whose items all pass it.
pub proof fn lemma_filter_all_kept<A>(s: Seq<A>, keep: spec_fn(A) -> bool)
    requires
        forall|i: int| 0 <= i < s.len() ==> keep(#[trigger] s[i]),
    ensures
        s.filter(keep) == s,
    decreases s.len(),
{
    reveal(Seq::filter);
    if s.len() > 0 {
        lemma_filter_all_kept(s.drop_last(), keep);
        assert(s.drop_last().push(s.last()) =~= s);
    }
}

/// A filter drops a sequence of which no item passes it.
pub proof fn lemma_filter_none_kept<A>(s: Seq<A>, keep: spec_fn(A) -> bool)
    requires
        forall|i: int| 0 <= i < s.len() ==> !keep(#[trigger] s[i]),
    ensures
        s.filter(keep).len() == 0,
    decreases s.len(),
{
    reveal(Seq::filter);
    if s.len() > 0 {
        lemma_filter_none_kept(s.drop_last(), keep);
    }
}

/// After an upsert of `key: value` there is exactly one header named `key`,
/// its value is `value`, and every header of another name is as it was.
pub proof fn lemma_upsert_exactly_one(h: Seq<(Seq<char>, Seq<u8>)>, key: Seq<char>, value: Seq<u8>)
    ensures
        count_named(upserted(h, key, value), key) == 1,
        first_value(upserted(h, key, value), key) == Some(value),
        without_name(upserted(h, key, value), key) == without_name(h, key),
{
    let named = |e: (Seq<char>, Seq<u8>)| same_name(e.0, key);
    let other = |e: (Seq<char>, Seq<u8>)| !same_name(e.0, key);
    let rest = without_name(h, key);
    h.filter_lemma(other);
    assert forall|i: int| 0 <= i < rest.len() implies !named(#[trigger] rest[i]) by {}
    lemma_filter_none_kept(rest, named);
    rest.lemma_filter_push((key, value), named);
    assert forall|i: int| 0 <= i < rest.len() implies other(#[trigger] rest[i]) by {}
    lemma_filter_all_kept(rest, other);
    rest.lemma_filter_push((key, value), other);
    lemma_first_value_of_others(rest, key);
    crate::session::lemma_first_value_push(rest, (key, value), key);
}

/// Among headers of other names there is no value for `key`.
proof fn lemma_first_value_of_others(h: Seq<(Seq<char>, Seq<u8>)>, key: Seq<char>)
    requires
        forall|i: int| 0 <= i < h.len() ==> !same_name((#[trigger] h[i]).0, key),
    ensures
        first_value(h, key).is_none(),
    decreases h.len(),
{
    if h.len() > 0 {
        let t = h.subrange(1, h.len() as int);
        assert forall|i: int| 0 <= i < t.len() implies !same_name((#[trigger] t[i]).0, key) by {
            assert(t[i] == h[i + 1]);
        }
        lemma_first_value_of_others(t, key);
    }
}

/// Removes from `headers` every header whose lower-case name `regex` matches.
pub fn remove_headers_matching(headers: &mut HeaderList, regex: &RegexShim)
    ensures
        final(headers)@ == without_matching(old(headers)@, regex.pattern()),
{
    let mut all: Vec<crate::session::Header> = Vec::new();
    std::mem::swap(&mut headers.entries, &mut all);
    let ghost before = all@.map_values(|h: crate::session::Header| h@);
    let ghost keep = |e: (Seq<char>, Seq<u8>)| !regex_matches(regex.pattern(), lower(e.0));
    let mut kept: Vec<crate::session::Header> = Vec::new();
    proof {
        assert(kept@.map_values(|h: crate::session::Header| h@) =~= Seq::empty());
        reveal(Seq::filter);
        assert(before.take(0).filter(keep) =~= Seq::empty());
    }
    for h in it: all
        invariant
            before == old(headers)@,
            keep == |e: (Seq<char>, Seq<u8>)| !regex_matches(regex.pattern(), lower(e.0)),
            it.seq().map_values(|h: crate::session::Header| h@) == before,
            kept@.map_values(|h: crate::session::Header| h@) == before.take(
                it.index() as int,
            ).filter(keep),
    {
        proof {
            let k = it.index() as int;
            assert(before.take(k + 1) =~= before.take(k).push(before[k]));
            before.take(k).lemma_filter_push(before[k], keep);
            assert(before[k] == h@);
        }
        let name = to_ascii_lowercase(h.name.as_str());
        if !regex.is_match(name.as_str()) {
            let ghost prev = kept@.map_values(|h: crate::session::Header| h@);
            kept.push(h);
            assert(kept@.map_values(|h: crate::session::Header| h@) =~= prev.push(h@));
        }
    }
    assert(before.take(before.len() as int) =~= before);
    headers.entries = kept;
}

/// Removes any header named `key` from `headers`, then adds `key: value` at
/// the end.
pub fn upsert_header(headers: &mut HeaderList, key: &String, value: &String)
    ensures
        final(headers)@ == upserted(old(headers)@, key@, encode_utf8(value@)),
        count_named(final(headers)@, key@) == 1,
        first_value(final(headers)@, key@) == Some(encode_utf8(value@)),
        without_name(final(headers)@, key@) == without_name(old(headers)@, key@),
{
    let _ = headers.remove_header(key.as_str());
    headers.append_header(key.clone(), value.as_str().as_bytes_vec());
    proof {
        lemma_upsert_exactly_one(old(headers)@, key@, encode_utf8(value@));
    }
}

/// The pattern of a `remove-header-key-regex` modifier with these settings,
/// or the reason why there is no such modifier.
pub open spec fn remove_header_of(s: Seq<(Seq<char>, Seq<char>)>) -> Result<Seq<char>, ProxyError> {
    match lookup(s, "pattern"@) {
        None => Err(ProxyError::MissingConfigurationField),
        Some(pattern) => if !regex_accepts(pattern) {
            Err(ProxyError::InvalidRegex)
        } else if without_key(s, "pattern"@).len() > 0 {
            Err(ProxyError::UnknownConfigKey)
        } else {
            Ok(pattern)
        },
    }
}

/// The key and value of an `upsert-header` modifier with these settings, or
/// the reason why there is no such modifier.
pub open spec fn upsert_header_of(s: Seq<(Seq<char>, Seq<char>)>) -> Result<
    (Seq<char>, Seq<char>),
    ProxyError,
> {
    match lookup(s, "key"@) {
        None => Err(ProxyError::MissingConfigurationField),
        Some(key) => match lookup(without_key(s, "key"@), "value"@) {
            None => Err(ProxyError::MissingConfigurationField),
            Some(value) => if without_key(without_key(s, "key"@), "value"@).len() > 0 {
                Err(ProxyError::UnknownConfigKey)
            } else {
                Ok((key, value))
            },
        },
    }
}

/// The pattern and template of a `url-rewrite` modifier with these settings,
/// or the reason why there is no such modifier.
pub open spec fn path_rewrite_of(s: Seq<(Seq<char>, Seq<char>)>) -> Result<
    (Seq<char>, Seq<char>),
    ProxyError,
> {
    match lookup(s, "regex"@) {
        None => Err(ProxyError::MissingConfigurationField),
        Some(pattern) => if !regex_accepts(pattern) {
            Err(ProxyError::InvalidRegex)
        } else {
            match lookup(without_key(s, "regex"@), "rewrite"@) {
                None => Err(ProxyError::MissingConfigurationField),
                Some(rewrite) => if without_key(without_key(s, "regex"@), "rewrite"@).len() > 0 {
                    Err(ProxyError::UnknownConfigKey)
                } else {
                    Ok((pattern, rewrite))
                },
            }
        },
    }
}

/// Removes a header if the key matches a given regex
#[derive(Debug, Clone)]
pub struct RemoveHeaderKeyRegex {
    pub regex: RegexShim,
}

impl RemoveHeaderKeyRegex {
    /// Create from the settings field `pattern`.
    pub fn from_settings(settings: Settings) -> (r: Result<Self, ProxyError>)
        ensures
            match r {
                Ok(m) => remove_header_of(settings@) == Ok::<Seq<char>, ProxyError>(
                    m.regex.pattern(),
                ),
                Err(e) => remove_header_of(settings@) == Err::<Seq<char>, ProxyError>(e),
            },
    {
        let mut rest = settings;
        let mat = match extract_val("pattern", &mut rest) {
            Ok(m) => m,
            Err(e) => {
                return Err(e);
            },
        };
        let regex = match RegexShim::new(mat.as_str()) {
            Ok(r) => r,
            Err(_) => {
                return Err(ProxyError::InvalidRegex);
            },
        };
        match ensure_empty(&rest) {
            Ok(()) => Ok(RemoveHeaderKeyRegex { regex }),
            Err(e) => Err(e),
        }
    }
}

impl RequestModifyMod for RemoveHeaderKeyRegex {
    open spec fn transformed(
        &self,
        session: SessionView,
        header: RequestHeaderView,
    ) -> RequestHeaderView {
        RequestHeaderView {
            headers: without_matching(header.headers, self.regex.pattern()),
            ..header
        }
    }

    fn upstream_request_filter(
        &self,
        session: &Session,
        header: &mut RequestHeader,
        ctx: &mut RiverContext,
    ) -> (r: Result<(), ProxyError>) {
        remove_headers_matching(&mut header.headers, &self.regex);
        Ok(())
    }
}

/// Adds or replaces a given header key and value
#[derive(Debug, Clone, PartialEq, Eq)]
pub struct UpsertHeader {
    pub key: String,
    pub value: String,
}

impl UpsertHeader {
    /// Create from the settings fields `key` and `value`.
    pub fn from_settings(settings: Settings) -> (r: Result<Self, ProxyError>)
        ensures
            match r {
                Ok(m) => upsert_header_of(settings@) == Ok::<(Seq<char>, Seq<char>), ProxyError>(
                    (m.key@, m.value@),
                ),
                Err(e) => upsert_header_of(settings@) == Err::<(Seq<char>, Seq<char>), ProxyError>(
                    e,
                ),
            },
    {
        let mut rest = settings;
        let key = match extract_val("key", &mut rest) {
            Ok(k) => k,
            Err(e) => {
                return Err(e);
            },
        };
        let value = match extract_val("value", &mut rest) {
            Ok(v) => v,
            Err(e) => {
                return Err(e);
            },
        };
        match ensure_empty(&rest) {
            Ok(()) => Ok(UpsertHeader { key, value }),
            Err(e) => Err(e),
        }
    }
}

impl RequestModifyMod for UpsertHeader {
    open spec fn transformed(
        &self,
        session: SessionView,
        header: RequestHeaderView,
    ) -> RequestHeaderView {
        RequestHeaderView {
            headers: upserted(header.headers, self.key@, encode_utf8(self.value@)),
            ..header
        }
    }

    fn upstream_request_filter(
        &self,
        session: &Session,
        header: &mut RequestHeader,
        ctx: &mut RiverContext,
    ) -> (r: Result<(), ProxyError>) {
        upsert_header(&mut header.headers, &self.key, &self.value);
        Ok(())
    }
}

/// Rewrites the path of the request URI where a pattern matches it.
#[derive(Debug, Clone)]
pub struct PathRewrite {
    pub regex: RegexShim,
    pub rewrite: String,
}

/// The path that a rewrite makes of `path`: the regex replacement where the
/// pattern matches, and `path` itself where it does not.
pub open spec fn rewritten_path(pattern: Seq<char>, template: Seq<char>, path: Seq<char>) -> Seq<
    char,
> {
    if regex_matches(pattern, path) {
        regex_replaced(pattern, path, template)
    } else {
        path
    }
}

impl PathRewrite {
    /// Create from the settings fields `regex` and `rewrite`.
    pub fn from_settings(settings: Settings) -> (r: Result<Self, ProxyError>)
        ensures
            match r {
                Ok(m) => path_rewrite_of(settings@) == Ok::<(Seq<char>, Seq<char>), ProxyError>(
                    (m.regex.pattern(), m.rewrite@),
                ),
                Err(e) => path_rewrite_of(settings@) == Err::<(Seq<char>, Seq<char>), ProxyError>(
                    e,
                ),
            },
    {
        let mut rest = settings;
        let pattern = match extract_val("regex", &mut rest) {
            Ok(p) => p,
            Err(e) => {
                return Err(e);
            },
        };
        let regex = match RegexShim::new(pattern.as_str()) {
            Ok(r) => r,
            Err(_) => {
                return Err(ProxyError::InvalidRegex);
            },
        };
        let rewrite = match extract_val("rewrite", &mut rest) {
            Ok(v) => v,
            Err(e) => {
                return Err(e);
            },
        };
        match ensure_empty(&rest) {
            Ok(()) => Ok(PathRewrite { regex, rewrite }),
            Err(e) => Err(e),
        }
    }
}

impl RequestModifyMod for PathRewrite {
    /// Only the path changes: the method, the query and the headers stay.
    open spec fn transformed(
        &self,
        session: SessionView,
        header: RequestHeaderView,
    ) -> RequestHeaderView {
        RequestHeaderView {
            path: rewritten_path(self.regex.pattern(), self.rewrite@, header.path),
            ..header
        }
    }

    fn upstream_request_filter(
        &self,
        session: &Session,
        header: &mut RequestHeader,
        ctx: &mut RiverContext,
    ) -> (r: Result<(), ProxyError>) {
        if self.regex.is_match(header.path.as_str()) {
            let rewritten = self.regex.replace(header.path.as_str(), self.rewrite.as_str());
            header.path = rewritten;
        }
        Ok(())
    }
}

/// The request modifiers that a configuration can name.
#[derive(Debug, Clone)]
pub enum RequestModifier {
    /// `remove-header-key-regex`
    RemoveHeaderKeyRegex(RemoveHeaderKeyRegex),
    /// `upsert-header`
    UpsertHeader(UpsertHeader),
    /// `url-rewrite`
    PathRewrite(PathRewrite),
}

/// What a `RequestModifier` holds.
pub enum RequestModifierView {
    RemoveHeaderKeyRegex { pattern: Seq<char> },
    UpsertHeader { key: Seq<char>, value: Seq<char> },
    PathRewrite { pattern: Seq<char>, rewrite: Seq<char> },
}

impl RequestModifierView {
    /// The header that a modifier holding this makes of `header`.
    pub open spec fn transformed(self, header: RequestHeaderView) -> RequestHeaderView {
        match self {
            RequestModifierView::RemoveHeaderKeyRegex { pattern } => RequestHeaderView {
                headers: without_matching(header.headers, pattern),
                ..header
            },
            RequestModifierView::UpsertHeader { key, value } => RequestHeaderView {
                headers: upserted(header.headers, key, encode_utf8(value)),
                ..header
            },
            RequestModifierView::PathRewrite { pattern, rewrite } => RequestHeaderView {
                path: rewritten_path(pattern, rewrite, header.path),
                ..header
            },
        }
    }
}

impl View for RequestModifier {
    type V = RequestModifierView;

    open spec fn view(&self) -> RequestModifierView {
        match self {
            RequestModifier::RemoveHeaderKeyRegex(m) => RequestModifierView::RemoveHeaderKeyRegex {
                pattern: m.regex.pattern(),
            },
            RequestModifier::UpsertHeader(m) => RequestModifierView::UpsertHeader {
                key: m.key@,
                value: m.value@,
            },
            RequestModifier::PathRewrite(m) => RequestModifierView::PathRewrite {
                pattern: m.regex.pattern(),
                rewrite: m.rewrite@,
            },
        }
    }
}

/// The request modifier that these settings describe: the kind that `kind`
/// names, built from the other settings.
pub open spec fn request_modifier_of(s: Seq<(Seq<char>, Seq<char>)>) -> Result<
    RequestModifierView,
    ProxyError,
> {
    match lookup(s, "kind"@) {
        None => Err(ProxyError::MissingConfigurationField),
        Some(kind) => {
            let rest = without_key(s, "kind"@);
            if kind == "remove-header-key-regex"@ {
                match remove_header_of(rest) {
                    Ok(pattern) => Ok(RequestModifierView::RemoveHeaderKeyRegex { pattern }),
                    Err(e) => Err(e),
                }
            } else if kind == "upsert-header"@ {
                match upsert_header_of(rest) {
                    Ok((key, value)) => Ok(RequestModifierView::UpsertHeader { key, value }),
                    Err(e) => Err(e),
                }
            } else if kind == "url-rewrite"@ {
                match path_rewrite_of(rest) {
                    Ok((pattern, rewrite)) => Ok(
                        RequestModifierView::PathRewrite { pattern, rewrite },
                    ),
                    Err(e) => Err(e),
                }
            } else {
                Err(ProxyError::UnknownFilterKind)
            }
        },
    }
}

impl RequestModifier {
    /// Builds the modifier that `settings` describe.
    pub fn from_settings(settings: Settings) -> (r: Result<Self, ProxyError>)
        ensures
            match r {
                Ok(m) => request_modifier_of(settings@) == Ok::<RequestModifierView, ProxyError>(
                    m@,
                ),
                Err(e) => request_modifier_of(settings@) == Err::<RequestModifierView, ProxyError>(
                    e,
                ),
            },
    {
        let mut rest = settings;
        let kind = match extract_val("kind", &mut rest) {
            Ok(k) => k,
            Err(e) => {
                return Err(e);
            },
        };
        if str_eq(kind.as_str(), "remove-header-key-regex") {
            match RemoveHeaderKeyRegex::from_settings(rest) {
                Ok(m) => Ok(RequestModifier::RemoveHeaderKeyRegex(m)),
                Err(e) => Err(e),
            }
        } else if str_eq(kind.as_str(), "upsert-header") {
            match UpsertHeader::from_settings(rest) {
                Ok(m) => Ok(RequestModifier::UpsertHeader(m)),
                Err(e) => Err(e),
            }
        } else if str_eq(kind.as_str(), "url-rewrite") {
            match PathRewrite::from_settings(rest) {
                Ok(m) => Ok(RequestModifier::PathRewrite(m)),
                Err(e) => Err(e),
            }
        } else {
            Err(ProxyError::UnknownFilterKind)
        }
    }
}

impl RequestModifyMod for RequestModifier {
    open spec fn transformed(
        &self,
        session: SessionView,
        header: RequestHeaderView,
    ) -> RequestHeaderView {
        match self {
            RequestModifier::RemoveHeaderKeyRegex(m) => m.transformed(session, header),
            RequestModifier::UpsertHeader(m) => m.transformed(session, header),
            RequestModifier::PathRewrite(m) => m.transformed(session, header),
        }
    }

    fn upstream_request_filter(
        &self,
        session: &Session,
        header: &mut RequestHeader,
        ctx: &mut RiverContext,
    ) -> (r: Result<(), ProxyError>) {
        match self {
            RequestModifier::RemoveHeaderKeyRegex(m) => m.upstream_request_filter(
                session,
                header,
                ctx,
            ),
            RequestModifier::UpsertHeader(m) => m.upstream_request_filter(session, header, ctx),
            RequestModifier::PathRewrite(m) => m.upstream_request_filter(session, header, ctx),
        }
    }
}

} // verus!
