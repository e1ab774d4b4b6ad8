use bgp_atomic_aggregate::{BgpAtomicAggregate, IpAddr};

fn v6(groups: [u16; 8]) -> IpAddr {
    let mut o = [0u8; 16];
    for (i, g) in groups.iter().enumerate() {
        o[2 * i] = (g >> 8) as u8;
        o[2 * i + 1] = (g & 0xff) as u8;
    }
    IpAddr::V6(o)
}

#[test]
fn ipv4_text_is_dotted_decimal() {
    assert_eq!(IpAddr::V4([10, 0, 0, 1]).to_string(), "10.0.0.1");
    assert_eq!(IpAddr::V4([0, 0, 0, 0]).to_string(), "0.0.0.0");
    assert_eq!(IpAddr::V4([255, 255, 255, 255]).to_string(), "255.255.255.255");
    assert_eq!(IpAddr::V4([192, 168, 100, 9]).to_string(), "192.168.100.9");
    assert_eq!(IpAddr::V4([1, 20, 109, 200]).to_string(), "1.20.109.200");
}

#[test]
fn ipv6_text_leaves_out_the_widest_zero_run() {
    assert_eq!(v6([0, 0, 0, 0, 0, 0, 0, 1]).to_string(), "::1");
    assert_eq!(v6([0, 0, 0, 0, 0, 0, 0, 0]).to_string(), "::");
    assert_eq!(v6([0x2001, 0xdb8, 0, 0, 0, 0, 0, 0x2a]).to_string(), "2001:db8::2a");
    assert_eq!(v6([0xfe80, 0, 0, 0, 0, 0, 0, 1]).to_string(), "fe80::1");
    assert_eq!(v6([1, 0, 0, 0, 0, 0, 0, 0]).to_string(), "1::");
    assert_eq!(v6([1, 0, 0, 2, 0, 0, 0, 3]).to_string(), "1:0:0:2::3");
    assert_eq!(v6([1, 0, 0, 0, 2, 0, 0, 3]).to_string(), "1::2:0:0:3");
}

#[test]
fn ipv6_text_takes_the_leftmost_of_equal_runs() {
    assert_eq!(v6([1, 0, 0, 2, 3, 0, 0, 4]).to_string(), "1::2:3:0:0:4");
    assert_eq!(v6([0, 0, 1, 2, 3, 4, 0, 0]).to_string(), "::1:2:3:4:0:0");
}

#[test]
fn ipv6_text_keeps_a_single_zero_group() {
    assert_eq!(v6([0, 1, 0, 1, 0, 1, 0, 1]).to_string(), "0:1:0:1:0:1:0:1");
    assert_eq!(v6([1, 2, 3, 4, 5, 6, 7, 0]).to_string(), "1:2:3:4:5:6:7:0");
    assert_eq!(v6([1, 2, 3, 4, 5, 6, 7, 8]).to_string(), "1:2:3:4:5:6:7:8");
}

#[test]
fn ipv6_text_is_lower_case_without_leading_zeros() {
    assert_eq!(
        v6([0xABCD, 0x0EF0, 0x0001, 0x0010, 0x0100, 0x1000, 0xFFFF, 0x000A]).to_string(),
        "abcd:ef0:1:10:100:1000:ffff:a"
    );
}

#[test]
fn mapped_ipv4_text_ends_in_dotted_decimal() {
    assert_eq!(v6([0, 0, 0, 0, 0, 0xffff, 0xc000, 0x0201]).to_string(), "::ffff:192.0.2.1");
    assert_eq!(v6([0, 0, 0, 0, 0, 0xffff, 0, 0]).to_string(), "::ffff:0.0.0.0");
    assert_eq!(v6([0, 0, 0, 0, 0, 0xfffe, 0xc000, 0x0201]).to_string(), "::fffe:c000:201");
    assert_eq!(v6([0, 0, 0, 0, 0, 0, 0xc000, 0x0201]).to_string(), "::c000:201");
}

#[test]
fn attribute_text_names_the_type() {
    let a = BgpAtomicAggregate { value: IpAddr::V4([10, 0, 0, 1]) };
    assert_eq!(a.to_string(), "BgpAtomicAggregate 10.0.0.1");
    let b = BgpAtomicAggregate { value: v6([0, 0, 0, 0, 0, 0, 0, 1]) };
    assert_eq!(b.to_string(), "BgpAtomicAggregate ::1");
}

fn expected_v6(o: [u8; 16]) -> String {
    if o[..10] == [0u8; 10] && o[10] == 0xff && o[11] == 0xff {
        return format!("::ffff:{}.{}.{}.{}", o[12], o[13], o[14], o[15]);
    }
    let g: Vec<u16> = (0..8).map(|i| u16::from_be_bytes([o[2 * i], o[2 * i + 1]])).collect();
    let mut best = (0usize, 0usize);
    let mut cur = (0usize, 0usize);
    for (i, x) in g.iter().enumerate() {
        if *x == 0 {
            if cur.1 == 0 {
                cur.0 = i;
            }
            cur.1 += 1;
            if cur.1 > best.1 {
                best = cur;
            }
        } else {
            cur = (0, 0);
        }
    }
    let hex = |part: &[u16]| part.iter().map(|x| format!("{:x}", x)).collect::<Vec<_>>().join(":");
    if best.1 > 1 {
        format!("{}::{}", hex(&g[..best.0]), hex(&g[best.0 + best.1..]))
    } else {
        hex(&g)
    }
}

#[test]
fn text_agrees_with_a_left_to_right_scan() {
    let mut seed: u64 = 0x9E3779B97F4A7C15;
    for round in 0..4000u32 {
        let mut o = [0u8; 16];
        for b in o.iter_mut() {
            seed = seed.wrapping_mul(6364136223846793005).wrapping_add(1442695040888963407);
            let r = (seed >> 33) as u32;
            *b = if r % 3 == 0 { (r >> 8) as u8 } else { 0 };
        }
        if round % 7 == 0 {
            for b in o.iter_mut().take(10) {
                *b = 0;
            }
            o[10] = 0xff;
            o[11] = 0xff;
        }
        assert_eq!(IpAddr::V6(o).to_string(), expected_v6(o));
        let q = [o[0], o[5], o[9], o[14]];
        assert_eq!(IpAddr::V4(q).to_string(), format!("{}.{}.{}.{}", q[0], q[1], q[2], q[3]));
    }
}

#[test]
fn every_byte_has_its_decimal_numeral() {
    for b in 0..=255u8 {
        assert_eq!(IpAddr::V4([b, 0, b, 7]).to_string(), format!("{}.0.{}.7", b, b));
    }
}

#[test]
fn every_group_has_its_hexadecimal_numeral() {
    for x in 1..=0xffffu16 {
        let [hi, lo] = x.to_be_bytes();
        let mut o = [0u8; 16];
        o[0] = hi;
        o[1] = lo;
        o[14] = hi;
        o[15] = lo;
        assert_eq!(IpAddr::V6(o).to_string(), format!("{:x}::{:x}", x, x));
    }
}
