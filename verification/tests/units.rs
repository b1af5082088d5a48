use ferromon::text::{can_trim_to, decimal_string, trim_to};
use ferromon::units::format_bytes;

fn by_floats(bytes: u64) -> String {
    const KIB: f64 = 1024.0;
    const MIB: f64 = KIB * 1024.0;
    const GIB: f64 = MIB * 1024.0;
    const TIB: f64 = GIB * 1024.0;
    let b = bytes as f64;
    if b >= TIB {
        format!("{:.2} TiB", b / TIB)
    } else if b >= GIB {
        format!("{:.2} GiB", b / GIB)
    } else if b >= MIB {
        format!("{:.2} MiB", b / MIB)
    } else if b >= KIB {
        format!("{:.2} KiB", b / KIB)
    } else {
        format!("{bytes} B")
    }
}

#[test]
fn format_bytes_below_one_kib_is_plain() {
    assert_eq!(format_bytes(0), "0 B");
    assert_eq!(format_bytes(1), "1 B");
    assert_eq!(format_bytes(1023), "1023 B");
}

#[test]
fn format_bytes_exact_values() {
    assert_eq!(format_bytes(1024), "1.00 KiB");
    assert_eq!(format_bytes(1536), "1.50 KiB");
    assert_eq!(format_bytes(1_048_576), "1.00 MiB");
    assert_eq!(format_bytes(1_073_741_824), "1.00 GiB");
    assert_eq!(format_bytes(1_099_511_627_776), "1.00 TiB");
    assert_eq!(format_bytes(5 * 1_073_741_824 + 536_870_912), "5.50 GiB");
    assert_eq!(format_bytes(u64::MAX), "16777216.00 TiB");
}

#[test]
fn format_bytes_ties_go_to_the_even_hundredth() {
    // 1152 / 1024 = 1.125 and 1408 / 1024 = 1.375
    assert_eq!(format_bytes(1152), "1.12 KiB");
    assert_eq!(format_bytes(1408), "1.38 KiB");
    assert_eq!(format_bytes(1152), by_floats(1152));
    assert_eq!(format_bytes(1408), by_floats(1408));
}

#[test]
fn format_bytes_unit_edges() {
    for unit in [1u64 << 10, 1 << 20, 1 << 30, 1 << 40, 1 << 50, 1 << 53, 1 << 54, 1 << 63] {
        for delta in 0..40u64 {
            assert_eq!(format_bytes(unit - 1 - delta), by_floats(unit - 1 - delta));
            assert_eq!(format_bytes(unit + delta), by_floats(unit + delta));
        }
    }
    for delta in 0..5000u64 {
        assert_eq!(format_bytes(u64::MAX - delta), by_floats(u64::MAX - delta));
    }
}

#[test]
fn format_bytes_agrees_with_double_arithmetic() {
    let mut x: u64 = 0x9e37_79b9_7f4a_7c15;
    for _ in 0..20000 {
        x ^= x << 13;
        x ^= x >> 7;
        x ^= x << 17;
        for shift in [0u32, 8, 16, 24, 32, 40, 48] {
            let bytes = x >> shift;
            assert_eq!(format_bytes(bytes), by_floats(bytes), "bytes = {}", bytes);
        }
    }
}

#[test]
fn format_bytes_near_rounding_boundaries_of_large_counts() {
    // Counts beside the halfway points between hundredths of a TiB.
    let step: u128 = 1u128 << 40;
    let mut n: u128 = 1_638_400_001;
    while n * step / 200 < u64::MAX as u128 {
        let middle = (n * step / 200) as u64;
        for delta in 0..3u64 {
            assert_eq!(format_bytes(middle - delta), by_floats(middle - delta));
            assert_eq!(format_bytes(middle.saturating_add(delta)), by_floats(middle.saturating_add(delta)));
        }
        n += 2 * 7_919_113;
    }
}

#[test]
fn decimal_string_values() {
    assert_eq!(decimal_string(0), "0");
    assert_eq!(decimal_string(7), "7");
    assert_eq!(decimal_string(10), "10");
    assert_eq!(decimal_string(300_000), "300000");
    assert_eq!(decimal_string(u64::MAX), "18446744073709551615");
}

#[test]
fn trim_to_keeps_what_fits() {
    assert_eq!(trim_to("", 0), "");
    assert_eq!(trim_to("abc", 3), "abc");
    assert_eq!(trim_to("abc", 10), "abc");
}

#[test]
fn trim_to_cuts_and_marks() {
    assert_eq!(trim_to("abcdef", 4), "abc\u{2026}");
    assert_eq!(trim_to("abcdef", 2), "a\u{2026}");
    assert_eq!(trim_to("abcdef", 1), "\u{2026}");
    assert_eq!(trim_to("abcdef", 0), "\u{2026}");
    assert_eq!(trim_to("/dev/mapper/vg-root", 14), "/dev/mapper/v\u{2026}");
}

#[test]
fn trim_to_counts_bytes_not_characters() {
    // Two bytes for the first character: five bytes in all.
    let s = "\u{e9}tat";
    assert_eq!(trim_to(s, 5), s);
    assert!(can_trim_to(s, 4));
    assert_eq!(trim_to(s, 4), "\u{e9}t\u{2026}");
    assert!(can_trim_to(s, 3));
    assert_eq!(trim_to(s, 3), "\u{e9}\u{2026}");
    // A cut after one byte would fall inside the first character.
    assert!(!can_trim_to(s, 2));
    assert!(can_trim_to(s, 1));
}
