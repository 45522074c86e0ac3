use serverscope::format::{f64_value, format_bytes};

/// The byte formatting of the monitor, written with floating point.
fn float_format(bytes: u64) -> String {
    const KB: f64 = 1024.0;
    const MB: f64 = KB * 1024.0;
    const GB: f64 = MB * 1024.0;
    let bytes = bytes as f64;
    if bytes >= GB {
        format!("{:.1} GB", bytes / GB)
    } else if bytes >= MB {
        format!("{:.1} MB", bytes / MB)
    } else if bytes >= KB {
        format!("{:.1} KB", bytes / KB)
    } else {
        format!("{bytes:.0} B")
    }
}

#[test]
fn format_bytes_units() {
    assert_eq!(format_bytes(0), "0 B");
    assert_eq!(format_bytes(512), "512 B");
    assert_eq!(format_bytes(1023), "1023 B");
    assert_eq!(format_bytes(1024), "1.0 KB");
    assert_eq!(format_bytes(1536), "1.5 KB");
    assert_eq!(format_bytes(1048576), "1.0 MB");
    assert_eq!(format_bytes(1073741824), "1.0 GB");
    assert_eq!(format_bytes(5 * 1073741824 + 536870912), "5.5 GB");
}

#[test]
fn format_bytes_rounds_ties_to_even() {
    // 1.25 KB and 1.75 KB are exact ties between two tenths.
    assert_eq!(format_bytes(1280), "1.2 KB");
    assert_eq!(format_bytes(1792), "1.8 KB");
    assert_eq!(format_bytes(1280), float_format(1280));
    assert_eq!(format_bytes(1792), float_format(1792));
}

#[test]
fn format_bytes_agrees_with_floating_point() {
    let mut values: Vec<u64> = Vec::new();
    for b in 0..5000u64 {
        values.push(b);
    }
    for k in 0..64u32 {
        let p = 1u64 << k;
        for d in [0u64, 1, 2, 3, 51, 52, 100, 1000, 1024] {
            values.push(p.wrapping_add(d));
            values.push(p.wrapping_sub(d));
        }
    }
    let mut x: u64 = 0x9E37_79B9_7F4A_7C15;
    for _ in 0..200000 {
        x ^= x << 13;
        x ^= x >> 7;
        x ^= x << 17;
        values.push(x);
        values.push(x >> (x % 64));
    }
    values.push(u64::MAX);
    values.push(u64::MAX - 1024);
    values.push((1u64 << 53) + 1);
    values.push((1u64 << 54) + 2);
    values.push((1u64 << 54) + 6);
    for v in values {
        assert_eq!(format_bytes(v), float_format(v), "bytes {}", v);
    }
}

#[test]
fn f64_value_is_the_float_conversion() {
    for v in [0u64, 1, (1 << 53) - 1, 1 << 53, (1 << 53) + 1, (1 << 53) + 3, u64::MAX, 12345678901234567891] {
        assert_eq!(f64_value(v), v as f64 as u128, "value {}", v);
    }
}

#[test]
fn law_small_counts_are_exact() {
    for b in 0..1024u64 {
        assert_eq!(format_bytes(b), format!("{} B", b));
    }
}

#[test]
fn law_whole_units_show_point_zero() {
    for k in [1u64, 2, 10, 512, 1023] {
        assert_eq!(format_bytes(k * 1024), format!("{}.0 KB", k));
        assert_eq!(format_bytes(k * 1048576), format!("{}.0 MB", k));
        assert_eq!(format_bytes(k * 1073741824), format!("{}.0 GB", k));
    }
}

#[test]
fn law_rounding_within_half_a_tenth() {
    // 1.23 KB is shown as 1.2 KB: within 0.05 KB.
    assert_eq!(format_bytes(1260), "1.2 KB");
    assert_eq!(format_bytes(1269), "1.2 KB");
    assert_eq!(format_bytes(1331), "1.3 KB");
}
