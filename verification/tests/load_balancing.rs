use river::config::internal::{Alpn, SelectionKind, UpstreamPeer};
use river::net::{IpAddress, SocketAddress};
use river::proxy::load_balancing::{fnv1a_hash, Backend, LoadBalancer};

fn backend(last: u8, port: u16) -> Backend {
    let addr = SocketAddress { ip: IpAddress::V4(u32::from_be_bytes([127, 0, 0, last])), port };
    Backend {
        addr,
        peer: Some(UpstreamPeer { address: addr, tls: false, sni: String::new(), alpn: Alpn::H1 }),
    }
}

fn three() -> Vec<Backend> {
    vec![backend(1, 9000), backend(2, 9000), backend(3, 9000)]
}

#[test]
fn fnv1a_known_values() {
    assert_eq!(fnv1a_hash(b""), 0xcbf2_9ce4_8422_2325);
    assert_eq!(fnv1a_hash(b"a"), 0xaf63_dc4c_8601_ec8c);
    assert_eq!(fnv1a_hash(b"foobar"), 0x8594_4171_f739_67e8);
}

#[test]
fn fnv_selects_by_hash_modulo_count() {
    let lb = LoadBalancer::from_backends(SelectionKind::Fnv, three());
    assert_eq!(lb.len(), 3);
    for key in [&b"/user/42"[..], b"/user/43", b"", b"a", b"foobar"] {
        let expected = &three()[(fnv1a_hash(key) % 3) as usize];
        assert_eq!(lb.select(key, 256), Some(expected));
        assert_eq!(lb.select(key, 256), Some(expected));
        assert_eq!(lb.select(key, 1), Some(expected));
    }
    // 0xaf63dc4c8601ec8c % 3 == 1
    assert_eq!(lb.select(b"a", 256), Some(&backend(2, 9000)));
    assert_eq!(lb.select(b"/user/42", 256), Some(&backend(1, 9000)));
    assert_eq!(lb.select(b"/user/43", 256), Some(&backend(2, 9000)));
}

#[test]
fn ketama_stability_scenario() {
    let lb = LoadBalancer::from_backends(SelectionKind::Ketama, three());
    let first = lb.select(b"/user/42", 256).cloned();
    let second = lb.select(b"/user/42", 256).cloned();
    assert!(first.is_some());
    assert_eq!(first, second);
    assert!(three().contains(&first.unwrap()));
    let other = lb.select(b"/user/43", 256).cloned();
    assert!(other.is_some());
    assert_eq!(other, lb.select(b"/user/43", 256).cloned());
    // A second balancer over the same backends agrees: the choice is stable across runs.
    let again = LoadBalancer::from_backends(SelectionKind::Ketama, three());
    assert_eq!(again.select(b"/user/42", 256).cloned(), second);
    assert_eq!(again.select(b"/user/43", 256).cloned(), other);
}

#[test]
fn ketama_spreads_keys_over_all_backends() {
    let lb = LoadBalancer::from_backends(SelectionKind::Ketama, three());
    let mut seen = [false; 3];
    for i in 0..200 {
        let key = format!("/item/{i}");
        let chosen = lb.select(key.as_bytes(), 256).unwrap();
        let at = three().iter().position(|b| b == chosen).unwrap();
        seen[at] = true;
    }
    assert_eq!(seen, [true, true, true]);
}

#[test]
fn ketama_follows_the_ring_of_the_addresses() {
    // The ring hashes the addresses, so the choice does not depend on the
    // order in which the backends are given.
    let forward = LoadBalancer::from_backends(SelectionKind::Ketama, three());
    let mut reversed_backends = three();
    reversed_backends.reverse();
    let reversed = LoadBalancer::from_backends(SelectionKind::Ketama, reversed_backends);
    for i in 0..50 {
        let key = format!("/k/{i}");
        assert_eq!(
            forward.select(key.as_bytes(), 256).map(|b| b.addr),
            reversed.select(key.as_bytes(), 256).map(|b| b.addr)
        );
    }
}

#[test]
fn backends_are_kept_as_a_sorted_set() {
    let v6 = |bits: u128, port: u16| {
        let addr = SocketAddress { ip: IpAddress::V6(bits), port };
        Backend { addr, peer: None }
    };
    let mut marked = backend(2, 9000);
    marked.peer = None;
    let lb = LoadBalancer::from_backends(
        SelectionKind::RoundRobin,
        vec![
            v6(1, 80),
            backend(3, 9000),
            backend(2, 9000),
            backend(2, 80),
            marked,
            v6(0, 81),
            backend(3, 9000),
            v6(0, 80),
        ],
    );
    // IPv4 before IPv6, then by address, then by port; of two backends with
    // one address the first is kept.
    let expected =
        vec![backend(2, 80), backend(2, 9000), backend(3, 9000), v6(0, 80), v6(0, 81), v6(1, 80)];
    assert_eq!(lb.len(), expected.len());
    for (i, b) in expected.iter().enumerate() {
        assert_eq!(lb.nth(i as u64), Some(b));
    }
    // The FNV choice counts in the sorted set, whatever the order given.
    let shuffled = LoadBalancer::from_backends(
        SelectionKind::Fnv,
        vec![backend(3, 9000), backend(1, 9000), backend(2, 9000), backend(1, 9000)],
    );
    assert_eq!(shuffled.len(), 3);
    assert_eq!(shuffled.select(b"/user/42", 256), Some(&backend(1, 9000)));
    assert_eq!(shuffled.select(b"/user/43", 256), Some(&backend(2, 9000)));
}

#[test]
fn round_robin_advances_monotonically() {
    let lb = LoadBalancer::from_backends(SelectionKind::RoundRobin, three());
    let picks: Vec<u16> = (0..7)
        .map(|_| match lb.select(b"ignored", 256).unwrap().addr.ip {
            IpAddress::V4(bits) => (bits & 0xff) as u16,
            IpAddress::V6(_) => 0,
        })
        .collect();
    assert_eq!(picks, vec![1, 2, 3, 1, 2, 3, 1]);
}

#[test]
fn a_number_stands_for_the_backend_at_its_remainder() {
    let lb = LoadBalancer::from_backends(SelectionKind::Random, three());
    assert_eq!(lb.nth(0), Some(&backend(1, 9000)));
    assert_eq!(lb.nth(4), Some(&backend(2, 9000)));
    assert_eq!(lb.nth(5), Some(&backend(3, 9000)));
    // 2^64 - 1 is divisible by 3.
    assert_eq!(lb.nth(u64::MAX), Some(&backend(1, 9000)));
    assert_eq!(LoadBalancer::from_backends(SelectionKind::Fnv, vec![]).nth(7), None);
}

#[test]
fn random_selects_one_of_the_backends() {
    let lb = LoadBalancer::from_backends(SelectionKind::Random, three());
    for _ in 0..50 {
        let chosen = lb.select(b"", 256).unwrap();
        assert!(three().contains(chosen));
    }
}

#[test]
fn nothing_is_selected_without_backends_or_budget() {
    for kind in
        [SelectionKind::RoundRobin, SelectionKind::Random, SelectionKind::Fnv, SelectionKind::Ketama]
    {
        let empty = LoadBalancer::from_backends(kind, Vec::new());
        assert_eq!(empty.len(), 0);
        assert_eq!(empty.select(b"/x", 256), None);
        let lb = LoadBalancer::from_backends(kind, three());
        assert_eq!(lb.select(b"/x", 0), None);
        assert!(lb.select(b"/x", 1).is_some());
    }
}
