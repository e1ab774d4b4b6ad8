use bgp_atomic_aggregate::order::{addr_before, bytes_eq, bytes_lt};
use bgp_atomic_aggregate::{BgpAtomicAggregate, IpAddr};
use std::cmp::Ordering;

fn v4(a: u8, b: u8, c: u8, d: u8) -> BgpAtomicAggregate {
    BgpAtomicAggregate { value: IpAddr::V4([a, b, c, d]) }
}

fn v6(last: u8) -> BgpAtomicAggregate {
    let mut o = [0u8; 16];
    o[15] = last;
    BgpAtomicAggregate { value: IpAddr::V6(o) }
}

fn samples() -> Vec<BgpAtomicAggregate> {
    vec![
        v4(0, 0, 0, 0),
        v4(0, 0, 0, 1),
        v4(9, 255, 255, 255),
        v4(10, 0, 0, 1),
        v4(10, 0, 0, 2),
        v4(10, 0, 1, 0),
        v4(255, 255, 255, 255),
        v6(0),
        v6(1),
        v6(2),
        BgpAtomicAggregate { value: IpAddr::V6([1; 16]) },
        BgpAtomicAggregate { value: IpAddr::V6([255; 16]) },
    ]
}

#[test]
fn smaller_ipv4_comes_first() {
    assert!(v4(10, 0, 0, 1) < v4(10, 0, 0, 2));
    assert!(!(v4(10, 0, 0, 2) < v4(10, 0, 0, 1)));
    assert_eq!(v4(10, 0, 0, 1).partial_cmp(&v4(10, 0, 0, 2)), Some(Ordering::Less));
    assert_eq!(v4(10, 0, 0, 2).partial_cmp(&v4(10, 0, 0, 1)), Some(Ordering::Greater));
    assert_eq!(v4(10, 0, 0, 1).partial_cmp(&v4(10, 0, 0, 1)), Some(Ordering::Equal));
}

#[test]
fn earlier_byte_decides() {
    assert!(v4(9, 255, 255, 255) < v4(10, 0, 0, 0));
    assert!(v4(10, 0, 0, 255) < v4(10, 0, 1, 0));
}

#[test]
fn ipv4_comes_before_ipv6() {
    assert!(v4(255, 255, 255, 255) < v6(0));
    assert!(v6(0) > v4(255, 255, 255, 255));
    for _ in 0..3 {
        assert_eq!(v4(10, 0, 0, 1).partial_cmp(&v6(1)), Some(Ordering::Less));
        assert_eq!(v6(1).partial_cmp(&v4(10, 0, 0, 1)), Some(Ordering::Greater));
    }
}

#[test]
fn order_is_strict_and_total_on_samples() {
    let s = samples();
    for (i, x) in s.iter().enumerate() {
        assert!(!(x < x));
        assert_eq!(x.partial_cmp(x), Some(Ordering::Equal));
        for (j, y) in s.iter().enumerate() {
            assert_eq!(x < y, i < j);
            assert_eq!(x == y, i == j);
            assert_eq!(x > y, i > j);
            for z in s.iter() {
                if x < y && y < z {
                    assert!(x < z);
                }
            }
        }
    }
}

#[test]
fn hand_written_order_agrees_with_total_order() {
    let s = samples();
    for x in s.iter() {
        for y in s.iter() {
            assert_eq!(x.partial_cmp(y), Some(x.cmp(y)));
            assert_eq!(x.value.partial_cmp(&y.value), Some(x.value.cmp(&y.value)));
        }
    }
}

#[test]
fn equality_is_by_address() {
    assert_eq!(v4(10, 0, 0, 1), v4(10, 0, 0, 1));
    assert_ne!(v4(10, 0, 0, 1), v4(10, 0, 0, 2));
    assert_ne!(v4(0, 0, 0, 0), v6(0));
    assert_eq!(v6(1), v6(1));
}

#[test]
fn byte_strings_in_dictionary_order() {
    assert!(bytes_lt(&[], &[0]));
    assert!(!bytes_lt(&[], &[]));
    assert!(!bytes_lt(&[0], &[]));
    assert!(bytes_lt(&[1, 2], &[1, 2, 0]));
    assert!(bytes_lt(&[1, 2, 3], &[1, 3]));
    assert!(!bytes_lt(&[1, 3], &[1, 2, 3]));
    assert!(!bytes_lt(&[5, 5], &[5, 5]));
    assert!(bytes_eq(&[5, 5], &[5, 5]));
    assert!(!bytes_eq(&[5, 5], &[5, 5, 0]));
    assert!(!bytes_eq(&[5, 6], &[5, 5]));
    assert!(bytes_eq(&[], &[]));
}

#[test]
fn shorter_address_comes_first() {
    assert!(addr_before(&[255, 255, 255, 255], &[0; 16]));
    assert!(!addr_before(&[0; 16], &[255, 255, 255, 255]));
    assert!(addr_before(&[1, 2, 3, 4], &[1, 2, 3, 5]));
    assert!(!addr_before(&[1, 2, 3, 4], &[1, 2, 3, 4]));
}
