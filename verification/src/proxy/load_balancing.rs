//! The load balancer: a static set of backends and four ways to select one.

use crate::config::internal::{SelectionKind, UpstreamPeer};
use crate::net::{IpAddress, SocketAddress};
use pingora_ketama::{Bucket, Continuum};
use std::sync::atomic::{AtomicUsize, Ordering};
use vstd::prelude::*;

verus! {

#[verifier::external_type_specification]
#[verifier::external_body]
pub struct ExContinuum(Continuum);

/// An upstream as the balancer sees it: an address, and the peer to connect
/// to once it is selected.
#[derive(Debug, Clone, PartialEq, Eq)]
pub struct Backend {
    pub addr: SocketAddress,
    pub peer: Option<UpstreamPeer>,
}

/// The addresses that a consistent-hashing ring was built from, in order.
pub uninterp spec fn ring_nodes(ring: Continuum) -> Seq<SocketAddress>;

/// The address that a consistent-hashing ring over `nodes` gives for a key.
///
/// The ring keeps one point per hash. Where two points of different nodes
/// share a hash, the one kept is the one that std's unstable sort leaves
/// first, which is the same whenever a ring is built over the same nodes.
pub uninterp spec fn ketama_node(nodes: Seq<SocketAddress>, key: Seq<u8>) -> Option<SocketAddress>;

/// `pingora_ketama::Continuum::new` over one `Bucket` of weight one per
/// address. The ring makes 160 points per bucket and counts them in 32 bits.
#[verifier::external_body]
fn new_ring(addrs: &Vec<SocketAddress>) -> (r: Continuum)
    requires
        addrs@.len() * 160 <= u32::MAX,
    ensures
        ring_nodes(r) == addrs@,
{
    let buckets: Vec<Bucket> = addrs.iter().map(
        |a| {
            let ip: core::net::IpAddr = match a.ip {
                IpAddress::V4(bits) => bits.to_be_bytes().into(),
                IpAddress::V6(bits) => bits.to_be_bytes().into(),
            };
            Bucket::new((ip, a.port).into(), 1)
        },
    ).collect();
    Continuum::new(&buckets)
}

/// `pingora_ketama::Continuum::node`: the address of the first ring point at
/// or after the key's hash. A ring over at least one address always gives
/// one of its addresses; an empty ring gives none.
#[verifier::external_body]
fn ring_node(ring: &Continuum, key: &[u8]) -> (r: Option<SocketAddress>)
    ensures
        r == ketama_node(ring_nodes(*ring), key@),
        r.is_some() == (ring_nodes(*ring).len() > 0),
        r matches Some(addr) ==> ring_nodes(*ring).contains(addr),
{
    ring.node(key).map(
        |found| SocketAddress {
            ip: match found.ip() {
                core::net::IpAddr::V4(v4) => IpAddress::V4(v4.into()),
                core::net::IpAddr::V6(v6) => IpAddress::V6(v6.into()),
            },
            port: found.port(),
        },
    )
}

/// `rand::random`: a number that nothing is known of.
#[verifier::external_body]
fn random_number() -> (r: u64) {
    rand::random()
}

/// The value of a shared counter, which is then advanced by one. What the
/// value is depends on how often this and other threads have asked.
fn next_count(counter: &AtomicUsize) -> usize {
    counter.fetch_add(1, Ordering::Relaxed)
}

/// A count as a 64-bit number.
fn widen(count: usize) -> (r: u64)
    ensures
        r == count,
{
    count as u64
}

/// The 64-bit FNV-1a hash of `bytes`.
pub open spec fn fnv1a(bytes: Seq<u8>) -> u64
    decreases bytes.len(),
{
    if bytes.len() == 0 {
        0xcbf2_9ce4_8422_2325
    } else {
        (fnv1a(bytes.drop_last()) ^ (bytes.last() as u64)).wrapping_mul(0x100_0000_01b3)
    }
}

/// Computes the 64-bit FNV-1a hash of `bytes`.
pub fn fnv1a_hash(bytes: &[u8]) -> (r: u64)
    ensures
        r == fnv1a(bytes@),
{
    let mut hash: u64 = 0xcbf2_9ce4_8422_2325;
    let mut i: usize = 0;
    while i < bytes.len()
        invariant
            i <= bytes@.len(),
            hash == fnv1a(bytes@.take(i as int)),
        decreases bytes@.len() - i,
    {
        let ghost next = bytes@.take(i + 1);
        assert(next.drop_last() =~= bytes@.take(i as int));
        assert(next.last() == bytes@[i as int]);
        hash = (hash ^ (bytes[i] as u64)).wrapping_mul(0x100_0000_01b3);
        i += 1;
    }
    assert(bytes@.take(i as int) =~= bytes@);
    hash
}

/// The position of the first of `addrs` that equals `addr`.
pub open spec fn position_of(addrs: Seq<SocketAddress>, addr: SocketAddress) -> Option<int>
    decreases addrs.len(),
{
    if addrs.len() == 0 {
        None
    } else if addrs[0] == addr {
        Some(0)
    } else {
        match position_of(addrs.subrange(1, addrs.len() as int), addr) {
            Some(i) => Some(i + 1),
            None => None,
        }
    }
}

proof fn lemma_position_of(addrs: Seq<SocketAddress>, addr: SocketAddress)
    ensures
        match position_of(addrs, addr) {
            Some(i) => 0 <= i < addrs.len() && addrs[i] == addr && forall|j: int|
                0 <= j < i ==> addrs[j] != addr,
            None => !addrs.contains(addr),
        },
    decreases addrs.len(),
{
    if addrs.len() > 0 && addrs[0] != addr {
        let rest = addrs.subrange(1, addrs.len() as int);
        lemma_position_of(rest, addr);
        match position_of(rest, addr) {
            Some(i) => {
                assert(addrs[i + 1] == rest[i]);
                assert forall|j: int| 0 <= j < i + 1 implies addrs[j] != addr by {
                    if j > 0 {
                        assert(addrs[j] == rest[j - 1]);
                    }
                }
            },
            None => {
                assert forall|j: int| 0 <= j < addrs.len() implies addrs[j] != addr by {
                    if j > 0 {
                        assert(rest[j - 1] == addrs[j]);
                    }
                }
            },
        }
    }
}

/// How a balancer selects, with what the selection keeps between calls.
pub enum Selection {
    /// One backend after the other, by a shared counter.
    RoundRobin(AtomicUsize),
    /// A backend picked at random.
    Random,
    /// The backend at the FNV-1a hash of the key, modulo the number of backends.
    Fnv,
    /// The backend that a consistent-hashing ring gives for the key.
    Ketama(Continuum),
}

impl Selection {
    /// The kind of this selection.
    pub open spec fn kind(&self) -> SelectionKind {
        match self {
            Selection::RoundRobin(_) => SelectionKind::RoundRobin,
            Selection::Random => SelectionKind::Random,
            Selection::Fnv => SelectionKind::Fnv,
            Selection::Ketama(_) => SelectionKind::Ketama,
        }
    }
}

/// The addresses of a list of backends.
pub open spec fn addrs_of(backends: Seq<Backend>) -> Seq<SocketAddress> {
    backends.map_values(|b: Backend| b.addr)
}

/// The position of the backend that a hashing selection gives for a key.
/// Selections that do not hash give no fixed position.
pub open spec fn hashed_choice(kind: SelectionKind, backends: Seq<Backend>, key: Seq<u8>) -> Option<
    int,
> {
    if backends.len() == 0 {
        None
    } else {
        match kind {
            SelectionKind::Fnv => Some(fnv1a(key) as int % backends.len() as int),
            SelectionKind::Ketama => match ketama_node(addrs_of(backends), key) {
                Some(addr) => position_of(addrs_of(backends), addr),
                None => None,
            },
            _ => None,
        }
    }
}

/// The order of socket addresses: IPv4 before IPv6, then by the address
/// bits, then by the port.
pub open spec fn addr_before(a: SocketAddress, b: SocketAddress) -> bool {
    match (a.ip, b.ip) {
        (IpAddress::V4(x), IpAddress::V4(y)) => x < y || (x == y && a.port < b.port),
        (IpAddress::V4(_), IpAddress::V6(_)) => true,
        (IpAddress::V6(_), IpAddress::V4(_)) => false,
        (IpAddress::V6(x), IpAddress::V6(y)) => x < y || (x == y && a.port < b.port),
    }
}

/// Whether `a` comes before `b` in the order of socket addresses.
pub fn addr_is_before(a: &SocketAddress, b: &SocketAddress) -> (r: bool)
    ensures
        r == addr_before(*a, *b),
{
    match (a.ip, b.ip) {
        (IpAddress::V4(x), IpAddress::V4(y)) => x < y || (x == y && a.port < b.port),
        (IpAddress::V4(_), IpAddress::V6(_)) => true,
        (IpAddress::V6(_), IpAddress::V4(_)) => false,
        (IpAddress::V6(x), IpAddress::V6(y)) => x < y || (x == y && a.port < b.port),
    }
}

/// The number of backends at the front of `s` whose address comes before
/// `addr`: the place of `addr` in a sorted list.
pub open spec fn place_of(s: Seq<Backend>, addr: SocketAddress) -> int
    decreases s.len(),
{
    if s.len() == 0 || !addr_before(s[0].addr, addr) {
        0
    } else {
        1 + place_of(s.subrange(1, s.len() as int), addr)
    }
}

/// A sorted list with one more backend: put at its place, or left out where
/// a backend of its address is there already.
pub open spec fn with_backend(s: Seq<Backend>, b: Backend) -> Seq<Backend> {
    let i = place_of(s, b.addr);
    if i < s.len() && s[i].addr == b.addr {
        s
    } else {
        s.insert(i, b)
    }
}

/// The set of backends that a list of backends gives: sorted by address,
/// with one backend per address, the first of the list.
pub open spec fn backend_set(backends: Seq<Backend>) -> Seq<Backend>
    decreases backends.len(),
{
    if backends.len() == 0 {
        Seq::empty()
    } else {
        with_backend(backend_set(backends.drop_last()), backends.last())
    }
}

proof fn lemma_place_of(s: Seq<Backend>, addr: SocketAddress)
    ensures
        0 <= place_of(s, addr) <= s.len(),
        forall|j: int| 0 <= j < place_of(s, addr) ==> addr_before((#[trigger] s[j]).addr, addr),
        place_of(s, addr) < s.len() ==> !addr_before(s[place_of(s, addr)].addr, addr),
    decreases s.len(),
{
    if s.len() > 0 && addr_before(s[0].addr, addr) {
        let rest = s.subrange(1, s.len() as int);
        lemma_place_of(rest, addr);
        assert forall|j: int| 0 <= j < place_of(s, addr) implies addr_before(
            (#[trigger] s[j]).addr,
            addr,
        ) by {
            if j > 0 {
                assert(s[j] == rest[j - 1]);
            }
        }
        if place_of(s, addr) < s.len() {
            assert(s[place_of(s, addr)] == rest[place_of(rest, addr)]);
        }
    }
}

proof fn lemma_place_of_unique(s: Seq<Backend>, addr: SocketAddress, i: int)
    requires
        0 <= i <= s.len(),
        forall|j: int| 0 <= j < i ==> addr_before((#[trigger] s[j]).addr, addr),
        i < s.len() ==> !addr_before(s[i].addr, addr),
    ensures
        place_of(s, addr) == i,
    decreases s.len(),
{
    if i > 0 {
        let rest = s.subrange(1, s.len() as int);
        assert(addr_before(s[0].addr, addr));
        assert forall|j: int| 0 <= j < i - 1 implies addr_before((#[trigger] rest[j]).addr, addr) by {
            assert(rest[j] == s[j + 1]);
        }
        if i - 1 < rest.len() {
            assert(rest[i - 1] == s[i]);
        }
        lemma_place_of_unique(rest, addr, i - 1);
    }
}

/// The set of a list of backends is sorted by address, so that no address
/// occurs twice, and it holds no more backends than the list.
pub proof fn lemma_backend_set_sorted(backends: Seq<Backend>)
    ensures
        backend_set(backends).len() <= backends.len(),
        forall|i: int, j: int|
            0 <= i < j < backend_set(backends).len() ==> addr_before(
                (#[trigger] backend_set(backends)[i]).addr,
                (#[trigger] backend_set(backends)[j]).addr,
            ),
    decreases backends.len(),
{
    if backends.len() > 0 {
        let s = backend_set(backends.drop_last());
        let b = backends.last();
        lemma_backend_set_sorted(backends.drop_last());
        lemma_place_of(s, b.addr);
        let p = place_of(s, b.addr);
        let r = with_backend(s, b);
        if !(p < s.len() && s[p].addr == b.addr) {
            assert forall|i: int, j: int| 0 <= i < j < r.len() implies addr_before(
                (#[trigger] r[i]).addr,
                (#[trigger] r[j]).addr,
            ) by {
                if j < p {
                    assert(r[i] == s[i] && r[j] == s[j]);
                } else if j == p {
                    assert(r[i] == s[i]);
                } else if i < p {
                    assert(r[i] == s[i] && r[j] == s[j - 1]);
                    if j - 1 > p {
                        assert(addr_before(s[p].addr, s[j - 1].addr));
                    }
                    lemma_addr_order(s[i].addr, b.addr, s[p].addr);
                    lemma_addr_order(s[i].addr, s[p].addr, s[j - 1].addr);
                } else if i == p {
                    assert(r[j] == s[j - 1]);
                    if j - 1 > p {
                        assert(addr_before(s[p].addr, s[j - 1].addr));
                    }
                    lemma_addr_order(b.addr, s[p].addr, s[j - 1].addr);
                } else {
                    assert(r[i] == s[i - 1] && r[j] == s[j - 1]);
                }
            }
        }
    }
}

/// The order of addresses is total and transitive: of two different
/// addresses one comes before the other, and what is not after `b` comes
/// before whatever `b` comes before.
proof fn lemma_addr_order(a: SocketAddress, b: SocketAddress, c: SocketAddress)
    ensures
        a == b || addr_before(a, b) || addr_before(b, a),
        addr_before(a, b) && addr_before(b, c) ==> addr_before(a, c),
        !addr_before(b, a) && addr_before(b, c) ==> addr_before(a, c),
        addr_before(a, b) && !addr_before(c, b) ==> addr_before(a, c),
        !addr_before(b, a) && a != b ==> addr_before(a, b),
{
}

/// A set of backends with a way to select one of them for each request.
pub struct LoadBalancer {
    backends: Vec<Backend>,
    selection: Selection,
}

impl LoadBalancer {
    /// A consistent-hashing ring is built over the addresses of the backends.
    #[verifier::type_invariant]
    pub closed spec fn wf(&self) -> bool {
        match self.selection {
            Selection::Ketama(ring) => ring_nodes(ring) == addrs_of(self.backends@),
            _ => true,
        }
    }

    /// The backends, sorted by address.
    pub closed spec fn backends(&self) -> Seq<Backend> {
        self.backends@
    }

    /// The kind of selection.
    pub closed spec fn kind(&self) -> SelectionKind {
        self.selection.kind()
    }

    /// The most backends that a balancer takes: the consistent-hashing ring
    /// counts 160 points per backend in 32 bits.
    pub open spec fn max_backends() -> nat {
        0x0199_9999
    }

    /// A balancer over the set of `backends` that selects in the way of
    /// `kind`. The set is kept sorted by address; of backends with one
    /// address the first is kept.
    pub fn from_backends(kind: SelectionKind, backends: Vec<Backend>) -> (r: Self)
        requires
            backends@.len() <= Self::max_backends(),
        ensures
            r.wf(),
            r.backends() == backend_set(backends@),
            r.kind() == kind,
    {
        let ghost given = backends@;
        let mut sorted: Vec<Backend> = Vec::new();
        for backend in it: backends
            invariant
                it.seq() == given,
                sorted@ == backend_set(given.take(it.index() as int)),
                sorted@.len() <= it.index(),
        {
            let ghost k = it.index() as int;
            proof {
                assert(given.take(k + 1).drop_last() =~= given.take(k));
                assert(given.take(k + 1).last() == backend);
            }
            let ghost before = sorted@;
            let mut i: usize = 0;
            while i < sorted.len() && addr_is_before(&sorted[i].addr, &backend.addr)
                invariant
                    i <= sorted@.len(),
                    sorted@ == before,
                    forall|j: int| 0 <= j < i ==> addr_before((#[trigger] before[j]).addr, backend.addr),
                decreases sorted@.len() - i,
            {
                i += 1;
            }
            proof {
                lemma_place_of_unique(before, backend.addr, i as int);
            }
            let there = i < sorted.len() && sorted[i].addr.ip == backend.addr.ip
                && sorted[i].addr.port == backend.addr.port;
            if !there {
                sorted.insert(i, backend);
            }
        }
        assert(given.take(given.len() as int) =~= given);
        let selection = match kind {
            SelectionKind::RoundRobin => Selection::RoundRobin(AtomicUsize::new(0)),
            SelectionKind::Random => Selection::Random,
            SelectionKind::Fnv => Selection::Fnv,
            SelectionKind::Ketama => {
                let mut addrs: Vec<SocketAddress> = Vec::new();
                let mut i: usize = 0;
                while i < sorted.len()
                    invariant
                        i <= sorted@.len(),
                        addrs@ == addrs_of(sorted@.take(i as int)),
                    decreases sorted@.len() - i,
                {
                    addrs.push(sorted[i].addr);
                    assert(sorted@.take(i + 1) =~= sorted@.take(i as int).push(sorted@[i as int]));
                    assert(addrs@ =~= addrs_of(sorted@.take(i + 1)));
                    i += 1;
                }
                assert(sorted@.take(i as int) =~= sorted@);
                Selection::Ketama(new_ring(&addrs))
            },
        };
        LoadBalancer { backends: sorted, selection }
    }

    /// The backend that a number stands for: the one at the number modulo
    /// the number of backends.
    pub fn nth(&self, number: u64) -> (r: Option<&Backend>)
        ensures
            match r {
                Some(b) => self.backends().len() > 0 && *b == self.backends()[number as int
                    % self.backends().len() as int],
                None => self.backends().len() == 0,
            },
    {
        let n = self.backends.len();
        if n == 0 {
            None
        } else {
            let index = (number % (n as u64)) as usize;
            assert(self.backends@[index as int] == self.backends[index as int]);
            Some(&self.backends[index])
        }
    }

    /// The number of backends.
    pub fn len(&self) -> (n: usize)
        ensures
            n == self.backends().len(),
    {
        self.backends.len()
    }

    /// Selects a backend for `key`. `budget` is the number of backends that
    /// may be tried; as every backend counts as healthy, the first one tried
    /// is taken.
    ///
    /// Nothing is selected with no backend or no budget. Otherwise a backend
    /// is selected: with round robin the one that the shared counter stands
    /// for, at random the one that a random number stands for, and with FNV
    /// and Ketama the one that the key hashes to, the same at every call.
    pub fn select(&self, key: &[u8], budget: u16) -> (r: Option<&Backend>)
        ensures
            r.is_some() == (self.backends().len() > 0 && budget > 0),
            r matches Some(b) ==> self.backends().contains(*b),
            (self.kind() == SelectionKind::Fnv || self.kind() == SelectionKind::Ketama) ==> (match (
                r,
                hashed_choice(self.kind(), self.backends(), key@),
            ) {
                (Some(b), Some(i)) => 0 <= i < self.backends().len() && self.backends()[i] == *b,
                (Some(_), None) => false,
                (None, _) => true,
            }),
    {
        proof {
            use_type_invariant(self);
        }
        let n = self.backends.len();
        if n == 0 || budget == 0 {
            return None;
        }
        let index: usize = match &self.selection {
            Selection::RoundRobin(counter) => {
                return self.nth(widen(next_count(counter)));
            },
            Selection::Random => {
                return self.nth(random_number());
            },
            Selection::Fnv => {
                return self.nth(fnv1a_hash(key));
            },
            Selection::Ketama(ring) => {
                let addr = match ring_node(ring, key) {
                    Some(a) => a,
                    None => {
                        proof {
                            assert(addrs_of(self.backends@).len() == n);
                        }
                        return None;
                    },
                };
                let ghost addrs = addrs_of(self.backends@);
                let ghost p = position_of(addrs, addr).unwrap();
                proof {
                    lemma_position_of(addrs, addr);
                }
                let mut i: usize = 0;
                while i < n && !(self.backends[i].addr.ip == addr.ip && self.backends[i].addr.port
                    == addr.port)
                    invariant
                        n == self.backends@.len(),
                        addrs == addrs_of(self.backends@),
                        0 <= i <= p < n,
                        addrs[p] == addr,
                        forall|j: int| 0 <= j < p ==> addrs[j] != addr,
                    decreases n - i,
                {
                    assert(addrs[i as int] == self.backends@[i as int].addr);
                    i += 1;
                }
                assert(addrs[i as int] == self.backends@[i as int].addr);
                assert(i == p);
                i
            },
        };
        assert(self.backends@[index as int] == self.backends[index as int]);
        Some(&self.backends[index])
    }
}

/// Two balancers of one hashing kind over the same backends agree on every
/// key, and so does one balancer with itself at every call.
pub proof fn lemma_hashed_selection_is_stable(
    a: LoadBalancer,
    b: LoadBalancer,
    key: Seq<u8>,
)
    requires
        a.kind() == b.kind(),
        a.backends() == b.backends(),
    ensures
        hashed_choice(a.kind(), a.backends(), key) == hashed_choice(b.kind(), b.backends(), key),
{
}

} // verus!
