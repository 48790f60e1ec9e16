//! Plain models of network addresses and CIDR blocks.

use crate::text::{chars_of, next_sep, split, split_on};
use std::str::FromStr;
use vstd::prelude::*;

verus! {

/// An IP address as its bits, most significant first.
#[derive(Clone, Copy, Debug, PartialEq, Eq, Structural, PartialOrd, Ord, Hash)]
pub enum IpAddress {
    V4(u32),
    V6(u128),
}

/// An IP address and a port.
#[derive(Clone, Copy, Debug, PartialEq, Eq, Structural, PartialOrd, Ord, Hash)]
pub struct SocketAddress {
    pub ip: IpAddress,
    pub port: u16,
}

/// Where a downstream client connects from.
#[derive(Clone, Debug, PartialEq, Eq)]
pub enum ClientAddr {
    /// An IP socket.
    Inet(SocketAddress),
    /// A Unix-domain socket, which has no IP address. It is known by the
    /// debug text of its address: `(unnamed)` for a socket without a name,
    /// and a quoted path followed by ` (pathname)` for one bound to a path.
    Unix(String),
}

/// What a `ClientAddr` holds.
pub enum ClientAddrView {
    Inet(SocketAddress),
    Unix(Seq<char>),
}

impl View for ClientAddr {
    type V = ClientAddrView;

    open spec fn view(&self) -> ClientAddrView {
        match self {
            ClientAddr::Inet(addr) => ClientAddrView::Inet(*addr),
            ClientAddr::Unix(text) => ClientAddrView::Unix(text@),
        }
    }
}

/// Whether the highest `len` bits of two IPv4 addresses agree.
pub open spec fn v4_prefix_match(a: u32, b: u32, len: u8) -> bool {
    if len == 0 {
        true
    } else if len >= 32 {
        a == b
    } else {
        a >> ((32 - len) as u32) == b >> ((32 - len) as u32)
    }
}

/// Whether the highest `len` bits of two IPv6 addresses agree.
pub open spec fn v6_prefix_match(a: u128, b: u128, len: u8) -> bool {
    if len == 0 {
        true
    } else if len >= 128 {
        a == b
    } else {
        a >> ((128 - len) as u128) == b >> ((128 - len) as u128)
    }
}

/// A network in CIDR notation: the addresses that share the highest
/// `prefix_len` bits of `network`.
#[derive(Clone, Copy, Debug, PartialEq, Eq, Structural)]
pub struct CidrBlock {
    pub network: IpAddress,
    pub prefix_len: u8,
}

impl CidrBlock {
    /// Whether `addr` lies in this block. An address of the other family
    /// never does.
    pub open spec fn spec_contains(self, addr: IpAddress) -> bool {
        match (self.network, addr) {
            (IpAddress::V4(n), IpAddress::V4(a)) => v4_prefix_match(n, a, self.prefix_len),
            (IpAddress::V6(n), IpAddress::V6(a)) => v6_prefix_match(n, a, self.prefix_len),
            _ => false,
        }
    }

    /// Whether `addr` lies in this block.
    pub fn contains(&self, addr: IpAddress) -> (r: bool)
        ensures
            r == self.spec_contains(addr),
    {
        match (self.network, addr) {
            (IpAddress::V4(n), IpAddress::V4(a)) => {
                if self.prefix_len == 0 {
                    true
                } else if self.prefix_len >= 32 {
                    n == a
                } else {
                    let shift: u32 = (32 - self.prefix_len) as u32;
                    n >> shift == a >> shift
                }
            },
            (IpAddress::V6(n), IpAddress::V6(a)) => {
                if self.prefix_len == 0 {
                    true
                } else if self.prefix_len >= 128 {
                    n == a
                } else {
                    let shift: u128 = (128 - self.prefix_len) as u128;
                    n >> shift == a >> shift
                }
            },
            _ => false,
        }
    }
}

/// The block that a text in CIDR notation denotes, if it denotes one.
pub uninterp spec fn cidr_parse(text: Seq<char>) -> Option<CidrBlock>;

/// `cidr::IpCidr::from_str`, with the first address and the network length
/// of the block handed back as plain values. What a text parses to depends
/// on the text alone.
#[verifier::external_body]
pub(crate) fn parse_cidr(text: &str) -> (r: Option<CidrBlock>)
    ensures
        r == cidr_parse(text@),
{
    match cidr::IpCidr::from_str(text) {
        Ok(cidr::IpCidr::V4(c)) => Some(
            CidrBlock {
                network: IpAddress::V4(u32::from(c.first_address())),
                prefix_len: c.network_length(),
            },
        ),
        Ok(cidr::IpCidr::V6(c)) => Some(
            CidrBlock {
                network: IpAddress::V6(u128::from(c.first_address())),
                prefix_len: c.network_length(),
            },
        ),
        Err(_) => None,
    }
}

/// Whether `c` is a decimal digit.
pub open spec fn is_digit(c: char) -> bool {
    0x30 <= c as u32 && c as u32 <= 0x39
}

/// The number that a text of decimal digits denotes. There is none for the
/// empty text, nor for a text that holds anything but digits.
pub open spec fn decimal(s: Seq<char>) -> Option<nat>
    decreases s.len(),
{
    if s.len() == 0 || !is_digit(s.last()) {
        None
    } else if s.len() == 1 {
        Some((s.last() as u32 - 0x30) as nat)
    } else {
        match decimal(s.drop_last()) {
            Some(v) => Some(v * 10 + (s.last() as u32 - 0x30) as nat),
            None => None,
        }
    }
}

/// The port that a text denotes: decimal digits with a value that fits
/// sixteen bits. Leading zeros are accepted.
pub open spec fn port_of(s: Seq<char>) -> Option<u16> {
    match decimal(s) {
        Some(v) => if v <= 0xffff {
            Some(v as u16)
        } else {
            None
        },
        None => None,
    }
}

/// The octet that a text denotes: one to three decimal digits with a value
/// up to 255, without a leading zero.
pub open spec fn octet_of(s: Seq<char>) -> Option<u8> {
    if 1 <= s.len() <= 3 && (s.len() == 1 || s[0] != '0') {
        match decimal(s) {
            Some(v) => if v <= 0xff {
                Some(v as u8)
            } else {
                None
            },
            None => None,
        }
    } else {
        None
    }
}

/// The IPv4 address that a text denotes: four octets separated by dots.
pub open spec fn ipv4_of(s: Seq<char>) -> Option<u32> {
    let parts = split(s, '.');
    if parts.len() == 4 && octet_of(parts[0]).is_some() && octet_of(parts[1]).is_some() && octet_of(
        parts[2],
    ).is_some() && octet_of(parts[3]).is_some() {
        Some(
            (octet_of(parts[0]).unwrap() as u32 * 0x100_0000 + octet_of(parts[1]).unwrap() as u32
                * 0x1_0000 + octet_of(parts[2]).unwrap() as u32 * 0x100 + octet_of(
                parts[3],
            ).unwrap() as u32) as u32,
        )
    } else {
        None
    }
}

/// The IPv6 address that a text denotes: what the CIDR parser reads as a
/// single IPv6 host, written without a prefix length.
pub open spec fn ipv6_of(s: Seq<char>) -> Option<u128> {
    if next_sep(s, '/', 0) < s.len() {
        None
    } else {
        match cidr_parse(s) {
            Some(CidrBlock { network: IpAddress::V6(ip), prefix_len }) => if prefix_len == 128 {
                Some(ip)
            } else {
                None
            },
            _ => None,
        }
    }
}

/// The socket address that a text denotes: an IPv4 address, a colon and a
/// port, or an IPv6 address in square brackets, a colon and a port.
pub open spec fn socket_addr_of(s: Seq<char>) -> Option<SocketAddress> {
    if s.len() > 0 && s[0] == '[' {
        let close = next_sep(s, ']', 1);
        if close + 1 < s.len() && s[close + 1] == ':' {
            match (ipv6_of(s.subrange(1, close)), port_of(s.subrange(close + 2, s.len() as int))) {
                (Some(ip), Some(port)) => Some(SocketAddress { ip: IpAddress::V6(ip), port }),
                _ => None,
            }
        } else {
            None
        }
    } else {
        let colon = next_sep(s, ':', 0);
        if colon < s.len() {
            match (ipv4_of(s.subrange(0, colon)), port_of(s.subrange(colon + 1, s.len() as int))) {
                (Some(ip), Some(port)) => Some(SocketAddress { ip: IpAddress::V4(ip), port }),
                _ => None,
            }
        } else {
            None
        }
    }
}

/// A number only grows when digits are added to its text.
proof fn lemma_decimal_prefix(s: Seq<char>, k: int)
    requires
        1 <= k <= s.len(),
        decimal(s).is_some(),
    ensures
        decimal(s.take(k)).is_some(),
        decimal(s.take(k)).unwrap() <= decimal(s).unwrap(),
    decreases s.len(),
{
    if k == s.len() {
        assert(s.take(k) =~= s);
    } else {
        lemma_decimal_prefix(s.drop_last(), k);
        assert(s.drop_last().take(k) =~= s.take(k));
    }
}

/// A text has no number when a prefix of it has none.
proof fn lemma_decimal_none(s: Seq<char>, k: int)
    requires
        1 <= k <= s.len(),
        decimal(s.take(k)).is_none(),
    ensures
        decimal(s).is_none(),
{
    if decimal(s).is_some() {
        lemma_decimal_prefix(s, k);
    }
}

/// The position of the first `c` in `chars` at or after `from`, or the
/// length of `chars` where there is none.
fn find_char(chars: &Vec<char>, c: char, from: usize) -> (r: usize)
    requires
        from <= chars@.len(),
    ensures
        r == next_sep(chars@, c, from as int),
        from <= r <= chars@.len(),
{
    let mut i: usize = from;
    while i < chars.len() && chars[i] != c
        invariant
            from <= i <= chars@.len(),
            next_sep(chars@, c, from as int) == next_sep(chars@, c, i as int),
        decreases chars@.len() - i,
    {
        i += 1;
    }
    i
}

/// Reads decimal digits with a value of at most `limit`.
fn parse_decimal(text: &str, limit: u32) -> (r: Option<u32>)
    requires
        limit <= 0xff_ffff,
    ensures
        r == (match decimal(text@) {
            Some(v) => if v <= limit {
                Some(v as u32)
            } else {
                None
            },
            None => None,
        }),
{
    let chars = chars_of(text);
    if chars.len() == 0 {
        return None;
    }
    let mut acc: u32 = 0;
    let mut i: usize = 0;
    while i < chars.len()
        invariant
            chars@ == text@,
            i <= chars@.len(),
            limit <= 0xff_ffff,
            acc <= limit,
            i > 0 ==> decimal(chars@.take(i as int)) == Some(acc as nat),
            i == 0 ==> acc == 0,
        decreases chars@.len() - i,
    {
        let c = chars[i];
        let ghost next = chars@.take(i + 1);
        assert(next.last() == c);
        assert(next.drop_last() =~= chars@.take(i as int));
        let u: u32 = c as u32;
        if u < 0x30 || u > 0x39 {
            proof {
                lemma_decimal_none(chars@, i + 1);
            }
            return None;
        }
        acc = acc * 10 + (u - 0x30);
        if acc > limit {
            proof {
                if decimal(chars@).is_some() {
                    lemma_decimal_prefix(chars@, i + 1);
                }
            }
            return None;
        }
        i += 1;
    }
    assert(chars@.take(i as int) =~= chars@);
    Some(acc)
}

/// Reads a port.
pub fn parse_port(text: &str) -> (r: Option<u16>)
    ensures
        r == port_of(text@),
{
    match parse_decimal(text, 0xffff) {
        Some(v) => Some(v as u16),
        None => None,
    }
}

/// Reads one octet of an IPv4 address.
pub fn parse_octet(text: &str) -> (r: Option<u8>)
    ensures
        r == octet_of(text@),
{
    let n = text.unicode_len();
    if n < 1 || n > 3 {
        return None;
    }
    if n > 1 && text.get_char(0) == '0' {
        return None;
    }
    match parse_decimal(text, 0xff) {
        Some(v) => Some(v as u8),
        None => None,
    }
}

/// Reads an IPv4 address in dotted decimal notation.
pub fn parse_ipv4(text: &str) -> (r: Option<u32>)
    ensures
        r == ipv4_of(text@),
{
    let parts = split_on(text, '.');
    let ghost texts = split(text@, '.');
    if parts.len() != 4 {
        return None;
    }
    assert(texts[0] == parts@[0]@ && texts[1] == parts@[1]@ && texts[2] == parts@[2]@ && texts[3]
        == parts@[3]@);
    let a = match parse_octet(parts[0]) {
        Some(v) => v,
        None => {
            return None;
        },
    };
    let b = match parse_octet(parts[1]) {
        Some(v) => v,
        None => {
            return None;
        },
    };
    let c = match parse_octet(parts[2]) {
        Some(v) => v,
        None => {
            return None;
        },
    };
    let d = match parse_octet(parts[3]) {
        Some(v) => v,
        None => {
            return None;
        },
    };
    Some(a as u32 * 0x100_0000 + b as u32 * 0x1_0000 + c as u32 * 0x100 + d as u32)
}

/// Reads an IPv6 address.
pub fn parse_ipv6(text: &str) -> (r: Option<u128>)
    ensures
        r == ipv6_of(text@),
{
    let chars = chars_of(text);
    if find_char(&chars, '/', 0) < chars.len() {
        return None;
    }
    match parse_cidr(text) {
        Some(CidrBlock { network: IpAddress::V6(ip), prefix_len }) => {
            if prefix_len == 128 {
                Some(ip)
            } else {
                None
            }
        },
        _ => None,
    }
}

/// Reads a socket address, such as `127.0.0.1:8080` or `[::1]:8080`.
pub fn parse_socket_addr(text: &str) -> (r: Option<SocketAddress>)
    ensures
        r == socket_addr_of(text@),
{
    let chars = chars_of(text);
    let n = chars.len();
    if n > 0 && chars[0] == '[' {
        let close = find_char(&chars, ']', 1);
        if close < n - 1 && chars[close + 1] == ':' {
            let ip = parse_ipv6(text.substring_char(1, close));
            let port = parse_port(text.substring_char(close + 2, n));
            match (ip, port) {
                (Some(ip), Some(port)) => Some(SocketAddress { ip: IpAddress::V6(ip), port }),
                _ => None,
            }
        } else {
            None
        }
    } else {
        let colon = find_char(&chars, ':', 0);
        if colon < n {
            let ip = parse_ipv4(text.substring_char(0, colon));
            let port = parse_port(text.substring_char(colon + 1, n));
            match (ip, port) {
                (Some(ip), Some(port)) => Some(SocketAddress { ip: IpAddress::V4(ip), port }),
                _ => None,
            }
        } else {
            None
        }
    }
}

} // verus!
