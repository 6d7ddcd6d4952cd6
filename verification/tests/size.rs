use quicksupport::size::fmt_size;

fn by_floating_point(n: u64) -> String {
    let units = ["B", "KB", "MB", "GB", "TB"];
    let mut v = n as f64;
    let mut i = 0;
    while v >= 1024.0 && i + 1 < units.len() {
        v /= 1024.0;
        i += 1;
    }
    if i == 0 {
        format!("{n} {}", units[0])
    } else {
        format!("{v:.1} {}", units[i])
    }
}

#[test]
fn sizes_have_one_decimal_in_the_largest_unit() {
    assert_eq!(fmt_size(0), "0 B");
    assert_eq!(fmt_size(1023), "1023 B");
    assert_eq!(fmt_size(1024), "1.0 KB");
    assert_eq!(fmt_size(1536), "1.5 KB");
    assert_eq!(fmt_size(1_048_575), "1024.0 KB");
    assert_eq!(fmt_size(1_048_576), "1.0 MB");
    assert_eq!(fmt_size(5_368_709_120), "5.0 GB");
    assert_eq!(fmt_size(1_099_511_627_776), "1.0 TB");
    assert_eq!(fmt_size(u64::MAX), "16777216.0 TB");
}

#[test]
fn halves_of_a_tenth_go_to_the_even_tenth() {
    assert_eq!(fmt_size(1280), "1.2 KB");
    assert_eq!(fmt_size(1792), "1.8 KB");
    assert_eq!(fmt_size(1_310_720), "1.2 MB");
}

#[test]
fn sizes_agree_with_double_precision_arithmetic() {
    for n in 0..300_000u64 {
        assert_eq!(fmt_size(n), by_floating_point(n));
    }
    for shift in 0..64 {
        let base = 1u64 << shift;
        for offset in 0..200u64 {
            for scale in [1u64, 128, 1025, 1_000_003] {
                let up = base.saturating_add(offset * scale);
                assert_eq!(fmt_size(up), by_floating_point(up));
                let down = base.saturating_sub(offset * scale);
                assert_eq!(fmt_size(down), by_floating_point(down));
                assert_eq!(fmt_size(u64::MAX - offset * scale), by_floating_point(u64::MAX - offset * scale));
            }
        }
    }
    let mut n = 88172645463325252u64;
    for _ in 0..200_000 {
        n ^= n << 13;
        n ^= n >> 7;
        n ^= n << 17;
        assert_eq!(fmt_size(n), by_floating_point(n));
        assert_eq!(fmt_size(n >> 20), by_floating_point(n >> 20));
    }
}

#[test]
fn halves_of_a_tenth_of_a_terabyte_beyond_exact_doubles() {
    // Multiples of 2^38 are the quarters of a terabyte, ties among the tenths.
    for quarter in 32_768..33_100u64 {
        let tie = quarter << 38;
        for d in 0..4u64 {
            assert_eq!(fmt_size(tie + d), by_floating_point(tie + d));
            assert_eq!(fmt_size(tie - d), by_floating_point(tie - d));
        }
    }
}
