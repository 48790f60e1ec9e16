//! What the proxy reads and changes of one HTTP exchange: the client's
//! address, the request line and the header lists.

use crate::net::{ClientAddr, ClientAddrView};
use crate::text::lower;
use vstd::prelude::*;

verus! {

broadcast use vstd::seq_lib::group_seq_properties;

/// Header names are compared without regard to ASCII case.
pub open spec fn same_name(a: Seq<char>, b: Seq<char>) -> bool {
    lower(a) == lower(b)
}

/// `str::eq_ignore_ascii_case`: equality of the ASCII lower-case forms.
#[verifier::external_body]
pub(crate) fn name_eq(a: &str, b: &str) -> (r: bool)
    ensures
        r == same_name(a@, b@),
{
    a.eq_ignore_ascii_case(b)
}

/// One header line: a name and a value.
#[derive(Debug, Clone, PartialEq, Eq)]
pub struct Header {
    pub name: String,
    pub value: Vec<u8>,
}

impl View for Header {
    type V = (Seq<char>, Seq<u8>);

    open spec fn view(&self) -> (Seq<char>, Seq<u8>) {
        (self.name@, self.value@)
    }
}

/// The headers of `h` whose name is not `name`, in their order.
pub open spec fn without_name(h: Seq<(Seq<char>, Seq<u8>)>, name: Seq<char>) -> Seq<
    (Seq<char>, Seq<u8>),
> {
    h.filter(|e: (Seq<char>, Seq<u8>)| !same_name(e.0, name))
}

/// The value of the first header of `h` named `name`.
pub open spec fn first_value(h: Seq<(Seq<char>, Seq<u8>)>, name: Seq<char>) -> Option<Seq<u8>>
    decreases h.len(),
{
    if h.len() == 0 {
        None
    } else if same_name(h[0].0, name) {
        Some(h[0].1)
    } else {
        first_value(h.subrange(1, h.len() as int), name)
    }
}

/// The number of headers of `h` named `name`.
pub open spec fn count_named(h: Seq<(Seq<char>, Seq<u8>)>, name: Seq<char>) -> nat {
    h.filter(|e: (Seq<char>, Seq<u8>)| same_name(e.0, name)).len()
}

/// An ordered list of headers. A name may occur more than once.
#[derive(Debug, Clone, PartialEq, Eq)]
pub struct HeaderList {
    pub entries: Vec<Header>,
}

impl View for HeaderList {
    type V = Seq<(Seq<char>, Seq<u8>)>;

    open spec fn view(&self) -> Seq<(Seq<char>, Seq<u8>)> {
        self.entries@.map_values(|h: Header| h@)
    }
}

impl HeaderList {
    /// The empty list.
    pub fn new() -> (r: Self)
        ensures
            r@ == Seq::<(Seq<char>, Seq<u8>)>::empty(),
    {
        let r = HeaderList { entries: Vec::new() };
        assert(r@ =~= Seq::empty());
        r
    }

    /// The number of headers.
    pub fn len(&self) -> (n: usize)
        ensures
            n == self@.len(),
    {
        self.entries.len()
    }

    /// Adds a header at the end.
    pub fn append_header(&mut self, name: String, value: Vec<u8>)
        ensures
            final(self)@ == old(self)@.push((name@, value@)),
    {
        self.entries.push(Header { name, value });
        assert(self@ =~= old(self)@.push((name@, value@)));
    }

    /// Removes every header named `name`, and hands back the value of the
    /// first of them. The other headers keep their order.
    pub fn remove_header(&mut self, name: &str) -> (r: Option<Vec<u8>>)
        ensures
            final(self)@ == without_name(old(self)@, name@),
            match r {
                Some(v) => first_value(old(self)@, name@) == Some(v@),
                None => first_value(old(self)@, name@).is_none(),
            },
    {
        let mut all: Vec<Header> = Vec::new();
        std::mem::swap(&mut self.entries, &mut all);
        let ghost before = all@.map_values(|h: Header| h@);
        let ghost keep = |e: (Seq<char>, Seq<u8>)| !same_name(e.0, name@);
        let mut first: Option<Vec<u8>> = None;
        let n = all.len();
        let mut kept: Vec<Header> = Vec::new();
        let mut i: usize = 0;
        proof {
            assert(before.take(0) =~= Seq::empty());
            assert(kept@.map_values(|h: Header| h@) =~= Seq::empty());
            reveal(Seq::filter);
            assert(before.take(0).filter(keep) =~= Seq::empty());
        }
        for h in it: all
            invariant
                before == old(self)@,
                keep == |e: (Seq<char>, Seq<u8>)| !same_name(e.0, name@),
                it.seq().map_values(|h: Header| h@) == before,
                kept@.map_values(|h: Header| h@) == before.take(it.index() as int).filter(keep),
                match first {
                    Some(v) => first_value(before.take(it.index() as int), name@) == Some(v@),
                    None => first_value(before.take(it.index() as int), name@).is_none(),
                },
        {
            proof {
                let k = it.index() as int;
                assert(before.take(k + 1) =~= before.take(k).push(before[k]));
                before.take(k).lemma_filter_push(before[k], keep);
                lemma_first_value_push(before.take(k), before[k], name@);
                assert(before[k] == h@);
            }
            if name_eq(h.name.as_str(), name) {
                if first.is_none() {
                    first = Some(h.value);
                }
            } else {
                let ghost prev = kept@.map_values(|h: Header| h@);
                kept.push(h);
                assert(kept@.map_values(|h: Header| h@) =~= prev.push(h@));
            }
        }
        assert(before.take(before.len() as int) =~= before);
        self.entries = kept;
        first
    }
}

/// The first value named `name` after one more header is added at the end.
pub proof fn lemma_first_value_push(
    h: Seq<(Seq<char>, Seq<u8>)>,
    e: (Seq<char>, Seq<u8>),
    name: Seq<char>,
)
    ensures
        first_value(h.push(e), name) == (if first_value(h, name).is_some() {
            first_value(h, name)
        } else if same_name(e.0, name) {
            Some(e.1)
        } else {
            None
        }),
    decreases h.len(),
{
    let hp = h.push(e);
    if h.len() == 0 {
        assert(hp.subrange(1, hp.len() as int) =~= Seq::empty());
        assert(first_value(hp.subrange(1, hp.len() as int), name).is_none());
    } else {
        assert(hp[0] == h[0]);
        if !same_name(h[0].0, name) {
            let t = h.subrange(1, h.len() as int);
            lemma_first_value_push(t, e, name);
            assert(hp.subrange(1, hp.len() as int) =~= t.push(e));
        }
    }
}

/// The request line and headers of a request.
#[derive(Debug, Clone, PartialEq, Eq)]
pub struct RequestHeader {
    pub method: String,
    /// The path of the request URI, without the query.
    pub path: String,
    /// The query of the request URI, without the `?`.
    pub query: Option<String>,
    pub headers: HeaderList,
}

/// What a `RequestHeader` holds.
pub struct RequestHeaderView {
    pub method: Seq<char>,
    pub path: Seq<char>,
    pub query: Option<Seq<char>>,
    pub headers: Seq<(Seq<char>, Seq<u8>)>,
}

impl View for RequestHeader {
    type V = RequestHeaderView;

    open spec fn view(&self) -> RequestHeaderView {
        RequestHeaderView {
            method: self.method@,
            path: self.path@,
            query: match self.query {
                Some(q) => Some(q@),
                None => None,
            },
            headers: self.headers@,
        }
    }
}

/// The status and headers of a response.
#[derive(Debug, Clone, PartialEq, Eq)]
pub struct ResponseHeader {
    pub status: u16,
    pub headers: HeaderList,
}

/// What a `ResponseHeader` holds.
pub struct ResponseHeaderView {
    pub status: u16,
    pub headers: Seq<(Seq<char>, Seq<u8>)>,
}

impl View for ResponseHeader {
    type V = ResponseHeaderView;

    open spec fn view(&self) -> ResponseHeaderView {
        ResponseHeaderView { status: self.status, headers: self.headers@ }
    }
}

/// One downstream request as the proxy sees it.
#[derive(Debug, Clone, PartialEq, Eq)]
pub struct Session {
    /// The client's address, where it is known.
    pub client_addr: Option<ClientAddr>,
    pub req_header: RequestHeader,
}

/// What a `Session` holds.
pub struct SessionView {
    pub client_addr: Option<ClientAddrView>,
    pub req_header: RequestHeaderView,
}

impl View for Session {
    type V = SessionView;

    open spec fn view(&self) -> SessionView {
        SessionView {
            client_addr: match self.client_addr {
                Some(addr) => Some(addr@),
                None => None,
            },
            req_header: self.req_header@,
        }
    }
}

} // verus!
