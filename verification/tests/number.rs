//! Numbers, addresses and sizes.
use mox::number::{bytes_gib, parse_ipv4, parse_u16, parse_u32, uint_text};

#[test]
fn numbers_are_written_and_read() {
    for n in [0u64, 7, 10, 99, 100, 65535, 4294967295, u64::MAX] {
        assert_eq!(uint_text(n), n.to_string());
    }
    for s in ["", "0", "+1", "-1", "007", "4294967295", "4294967296", "12a", " 1", "+", "++1", "١"] {
        assert_eq!(parse_u32(s), s.parse::<u32>().ok(), "{s:?}");
        assert_eq!(parse_u16(s), s.parse::<u16>().ok(), "{s:?}");
    }
}

#[test]
fn only_dotted_quads_are_addresses() {
    assert_eq!(parse_ipv4("1.2.3.4"), Some((1, 2, 3, 4)));
    assert_eq!(parse_ipv4("0.0.0.0"), Some((0, 0, 0, 0)));
    assert_eq!(parse_ipv4("255.255.255.255"), Some((255, 255, 255, 255)));
    assert_eq!(parse_ipv4("100.64.0.1"), Some((100, 64, 0, 1)));
    for s in [
        "256.1.1.1", "1.2.3", "1.2.3.4.5", "01.2.3.4", "1.2.3.04", "", "a.b.c.d", "1..2.3", " 1.2.3.4",
        "1.2.3.4 ", "+1.2.3.4", "1.2.3.1000", "00.0.0.0", "::1", "1.2.3.", ".1.2.3",
    ] {
        assert_eq!(parse_ipv4(s), None, "{s:?}");
    }
}

#[test]
fn sizes_are_rounded_as_floating_point_rounds_them() {
    assert_eq!(bytes_gib(0), "—");
    assert_eq!(bytes_gib(20 * 1024 * 1024 * 1024), "20.0 GiB");
    let gib: u64 = 1 << 30;
    let mut n: u64 = 1;
    let mut cases: Vec<u64> = vec![1, gib / 20, gib / 20 + 1, gib / 4, 3 * gib / 4, u64::MAX, 1 << 53, (1 << 53) + 1];
    // A spread of sizes, with many that lie near the middle between two tenths.
    for i in 0..4000u64 {
        n = n.wrapping_mul(6364136223846793005).wrapping_add(1442695040888963407);
        cases.push(n);
        cases.push(n >> 20);
        cases.push(n >> 30);
        cases.push(i * gib / 20);
        cases.push((i * gib / 20) ^ 1);
        cases.push(i * (gib / 4) + gib / 20);
    }
    for b in cases {
        let want = if b == 0 {
            "—".to_string()
        } else {
            format!("{:.1} GiB", b as f64 / (1024.0 * 1024.0 * 1024.0))
        };
        assert_eq!(bytes_gib(b), want, "{b}");
    }
}
