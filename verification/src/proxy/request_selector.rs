//! Selectors: the key bytes that a hashing load balancer selects by.

use crate::net::{ClientAddr, ClientAddrView, IpAddress};
use crate::proxy::RiverContext;
use crate::session::{Session, SessionView};
use vstd::prelude::*;
use vstd::utf8::encode_utf8;

verus! {

/// How the selection key of a request is made.
#[derive(Debug, Clone, Copy, PartialEq, Eq, Structural)]
pub enum RequestSelector {
    /// No key: for selections that ignore it.
    Null,
    /// The path of the request URI.
    UriPath,
    /// The client's address and the path of the request URI.
    SourceAddrAndUriPath,
}

/// The decimal digits of a number, as bytes.
pub open spec fn decimal_digits(n: nat) -> Seq<u8>
    decreases n,
{
    if n < 10 {
        seq![(0x30 + n) as u8]
    } else {
        decimal_digits(n / 10).push((0x30 + n % 10) as u8)
    }
}

/// An IPv4 address in dotted decimal notation, as bytes.
pub open spec fn ipv4_text(ip: u32) -> Seq<u8> {
    decimal_digits((ip / 0x100_0000) as nat) + encode_utf8("."@) + decimal_digits(
        (ip / 0x1_0000 % 0x100) as nat,
    ) + encode_utf8("."@) + decimal_digits((ip / 0x100 % 0x100) as nat) + encode_utf8("."@)
        + decimal_digits((ip % 0x100) as nat)
}

/// The text that std's formatter writes for an IPv6 address.
pub uninterp spec fn ipv6_display(ip: u128) -> Seq<char>;

/// `Display` of `Ipv6Addr`: the text of an IPv6 address, which depends on
/// the address alone.
#[verifier::external_body]
fn ipv6_to_string(ip: u128) -> (r: String)
    ensures
        r@ == ipv6_display(ip),
{
    format!("{}", core::net::Ipv6Addr::from(ip))
}

/// The debug text of an optional client address, as bytes: `None` where the
/// address is not known, `Some(Inet(1.2.3.4:80))` or `Some(Inet([::1]:80))`
/// for an IP socket, and `Some(Unix(..))` around the debug text of a
/// Unix-domain socket.
pub open spec fn addr_bytes(addr: Option<ClientAddrView>) -> Seq<u8> {
    match addr {
        None => encode_utf8("None"@),
        Some(ClientAddrView::Unix(text)) => encode_utf8("Some(Unix("@) + encode_utf8(text)
            + encode_utf8("))"@),
        Some(ClientAddrView::Inet(a)) => match a.ip {
            IpAddress::V4(ip) => encode_utf8("Some(Inet("@) + ipv4_text(ip) + encode_utf8(":"@)
                + decimal_digits(a.port as nat) + encode_utf8("))"@),
            IpAddress::V6(ip) => encode_utf8("Some(Inet(["@) + encode_utf8(ipv6_display(ip))
                + encode_utf8("]:"@) + decimal_digits(a.port as nat) + encode_utf8("))"@),
        },
    }
}

/// The key that [`null_selector`] gives: no bytes.
pub open spec fn null_key() -> Seq<u8> {
    Seq::empty()
}

/// The key that [`uri_path_selector`] gives: the bytes of the path.
pub open spec fn uri_path_key(session: SessionView) -> Seq<u8> {
    encode_utf8(session.req_header.path)
}

/// The key that [`source_addr_and_uri_path_selector`] gives: the debug text
/// of the client address, a colon and the path.
pub open spec fn source_addr_and_uri_path_key(session: SessionView) -> Seq<u8> {
    addr_bytes(session.client_addr) + encode_utf8(":"@) + encode_utf8(session.req_header.path)
}

impl RequestSelector {
    /// The key that this selector gives for a request.
    pub open spec fn key(self, session: SessionView) -> Seq<u8> {
        match self {
            RequestSelector::Null => null_key(),
            RequestSelector::UriPath => uri_path_key(session),
            RequestSelector::SourceAddrAndUriPath => source_addr_and_uri_path_key(session),
        }
    }

    /// Writes the key of `ses` into the selector buffer of `ctxt`.
    pub fn select(self, ctxt: &mut RiverContext, ses: &Session)
        ensures
            final(ctxt).selector_buf@ == self.key(ses@),
    {
        match self {
            RequestSelector::Null => null_selector(ctxt, ses),
            RequestSelector::UriPath => uri_path_selector(ctxt, ses),
            RequestSelector::SourceAddrAndUriPath => source_addr_and_uri_path_selector(ctxt, ses),
        }
    }
}

fn push_decimal(buf: &mut Vec<u8>, n: u32)
    ensures
        final(buf)@ == old(buf)@ + decimal_digits(n as nat),
    decreases n,
{
    if n < 10 {
        buf.push(0x30 + (n as u8));
        assert(buf@ =~= old(buf)@ + decimal_digits(n as nat));
    } else {
        push_decimal(buf, n / 10);
        buf.push(0x30 + ((n % 10) as u8));
        assert(buf@ =~= old(buf)@ + decimal_digits(n as nat));
    }
}

fn push_all(buf: &mut Vec<u8>, bytes: &[u8])
    ensures
        final(buf)@ == old(buf)@ + bytes@,
{
    let mut i: usize = 0;
    while i < bytes.len()
        invariant
            i <= bytes@.len(),
            buf@ == old(buf)@ + bytes@.take(i as int),
        decreases bytes@.len() - i,
    {
        buf.push(bytes[i]);
        assert(bytes@.take(i + 1) =~= bytes@.take(i as int).push(bytes@[i as int]));
        assert(buf@ =~= old(buf)@ + bytes@.take(i + 1));
        i += 1;
    }
    assert(bytes@.take(i as int) =~= bytes@);
}

fn push_addr(buf: &mut Vec<u8>, addr: &Option<ClientAddr>)
    ensures
        final(buf)@ == old(buf)@ + addr_bytes(
            match *addr {
                Some(a) => Some(a@),
                None => None,
            },
        ),
{
    match addr {
        None => {
            push_all(buf, "None".as_bytes());
        },
        Some(ClientAddr::Unix(text)) => {
            push_all(buf, "Some(Unix(".as_bytes());
            push_all(buf, text.as_str().as_bytes());
            push_all(buf, "))".as_bytes());
            assert(buf@ =~= old(buf)@ + (encode_utf8("Some(Unix("@) + encode_utf8(text@)
                + encode_utf8("))"@)));
        },
        Some(ClientAddr::Inet(a)) => {
            match a.ip {
                IpAddress::V4(ip) => {
                    push_all(buf, "Some(Inet(".as_bytes());
                    let ghost start = buf@;
                    push_decimal(buf, ip / 0x100_0000);
                    push_all(buf, ".".as_bytes());
                    push_decimal(buf, ip / 0x1_0000 % 0x100);
                    push_all(buf, ".".as_bytes());
                    push_decimal(buf, ip / 0x100 % 0x100);
                    push_all(buf, ".".as_bytes());
                    push_decimal(buf, ip % 0x100);
                    assert(buf@ =~= start + ipv4_text(ip));
                    push_all(buf, ":".as_bytes());
                    push_decimal(buf, a.port as u32);
                    push_all(buf, "))".as_bytes());
                    assert(buf@ =~= old(buf)@ + (encode_utf8("Some(Inet("@) + ipv4_text(ip)
                        + encode_utf8(":"@) + decimal_digits(a.port as nat) + encode_utf8("))"@)));
                },
                IpAddress::V6(ip) => {
                    let text = ipv6_to_string(ip);
                    push_all(buf, "Some(Inet([".as_bytes());
                    push_all(buf, text.as_str().as_bytes());
                    push_all(buf, "]:".as_bytes());
                    push_decimal(buf, a.port as u32);
                    push_all(buf, "))".as_bytes());
                    assert(buf@ =~= old(buf)@ + (encode_utf8("Some(Inet(["@) + encode_utf8(
                        ipv6_display(ip),
                    ) + encode_utf8("]:"@) + decimal_digits(a.port as nat) + encode_utf8("))"@)));
                },
            }
        },
    }
}

/// Null selector, useful when using "Random" or "RoundRobin" selection and this key is not used
///
/// Leaves the selector buffer empty
pub fn null_selector(ctxt: &mut RiverContext, ses: &Session)
    ensures
        final(ctxt).selector_buf@ == null_key(),
{
    ctxt.selector_buf.clear();
    assert(ctxt.selector_buf@ =~= null_key());
}

/// Basic selector that looks at ONLY the URI of the request as the input key
///
/// Leaves the bytes of the path in the selector buffer
pub fn uri_path_selector(ctxt: &mut RiverContext, ses: &Session)
    ensures
        final(ctxt).selector_buf@ == uri_path_key(ses@),
{
    ctxt.selector_buf.clear();
    push_all(&mut ctxt.selector_buf, ses.req_header.path.as_str().as_bytes());
    assert(ctxt.selector_buf@ =~= uri_path_key(ses@));
}

/// Selector that uses the source address (if available) and the URI of the request as the input key
///
/// Leaves the debug text of the client address, a colon and the bytes of the
/// path in the selector buffer
pub fn source_addr_and_uri_path_selector(ctxt: &mut RiverContext, ses: &Session)
    ensures
        final(ctxt).selector_buf@ == source_addr_and_uri_path_key(ses@),
{
    ctxt.selector_buf.clear();
    push_addr(&mut ctxt.selector_buf, &ses.client_addr);
    push_all(&mut ctxt.selector_buf, ":".as_bytes());
    push_all(&mut ctxt.selector_buf, ses.req_header.path.as_str().as_bytes());
    assert(ctxt.selector_buf@ =~= source_addr_and_uri_path_key(ses@));
}

} // verus!
