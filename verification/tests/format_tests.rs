use flatline::format::{downtime_label, fmt_duration_secs, fmt_ms, fmt_relative_secs};

fn float_ms(ms: u64) -> String {
    if ms >= 1000 {
        format!("{:.1}s", ms as f64 / 1000.0)
    } else {
        format!("{}ms", ms)
    }
}

#[test]
fn fmt_ms_matches_float_formatting_on_small_values() {
    let mut bad = Vec::new();
    for ms in 0..300_000u64 {
        if fmt_ms(ms) != float_ms(ms) {
            bad.push((ms, fmt_ms(ms), float_ms(ms)));
        }
    }
    assert!(bad.is_empty(), "{:?}", &bad[..bad.len().min(40)]);
}

#[test]
fn fmt_ms_matches_float_formatting_on_large_values() {
    let mut bad = Vec::new();
    let mut x: u64 = 0x9E37_79B9_7F4A_7C15;
    let mut samples: Vec<u64> = vec![u64::MAX, u64::MAX - 1, 1 << 53, (1 << 53) + 1, (1 << 53) - 1, (1 << 54) + 3, 1 << 63];
    for k in 10..64 {
        samples.push((1u64 << k) + 50);
        samples.push((1u64 << k) - 50);
        samples.push((1u64 << k) / 1000 * 1000 + 50);
    }
    for _ in 0..200_000 {
        x ^= x << 13;
        x ^= x >> 7;
        x ^= x << 17;
        samples.push(x >> (x % 50));
        samples.push((x >> (x % 50)) / 100 * 100 + 50);
    }
    for ms in samples {
        if fmt_ms(ms) != float_ms(ms) {
            bad.push((ms, fmt_ms(ms), float_ms(ms)));
        }
    }
    assert!(bad.is_empty(), "{:?}", &bad[..bad.len().min(40)]);
}

#[test]
fn fmt_ms_examples() {
    assert_eq!(fmt_ms(0), "0ms");
    assert_eq!(fmt_ms(999), "999ms");
    assert_eq!(fmt_ms(1000), "1.0s");
    assert_eq!(fmt_ms(1234), "1.2s");
    assert_eq!(fmt_ms(1299), "1.3s");
}

#[test]
fn downtime_label_examples() {
    assert_eq!(downtime_label(u32::MAX), "No data");
    assert_eq!(downtime_label(0), "No downtime");
    assert_eq!(downtime_label(5), "5 min downtime");
    assert_eq!(downtime_label(59), "59 min downtime");
    assert_eq!(downtime_label(60), "1h 0m downtime");
    assert_eq!(downtime_label(135), "2h 15m downtime");
}

#[test]
fn fmt_duration_examples() {
    assert_eq!(fmt_duration_secs(0), "0s");
    assert_eq!(fmt_duration_secs(-3), "-3s");
    assert_eq!(fmt_duration_secs(59), "59s");
    assert_eq!(fmt_duration_secs(60), "1m");
    assert_eq!(fmt_duration_secs(3599), "59m");
    assert_eq!(fmt_duration_secs(3600), "1h");
    assert_eq!(fmt_duration_secs(3660), "1h 1m");
    assert_eq!(fmt_duration_secs(86400), "1d 0h");
    assert_eq!(fmt_duration_secs(90000), "1d 1h");
}

#[test]
fn fmt_relative_examples() {
    let iso = "2024-05-06T07:08:09Z";
    assert_eq!(fmt_relative_secs(5, iso), "5s ago");
    assert_eq!(fmt_relative_secs(-2, iso), "-2s ago");
    assert_eq!(fmt_relative_secs(120, iso), "2m ago");
    assert_eq!(fmt_relative_secs(7200, iso), "2h ago");
    assert_eq!(fmt_relative_secs(86400, iso), "2024-05-06");
}
