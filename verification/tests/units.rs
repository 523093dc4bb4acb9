use dirsize::units::human_size;

#[test]
fn zero_bytes() {
    assert_eq!(human_size(0), "0.0B");
}

#[test]
fn small_byte_counts() {
    assert_eq!(human_size(1), "1.0B");
    assert_eq!(human_size(100), "100.0B");
    assert_eq!(human_size(500), "500.0B");
    assert_eq!(human_size(512), "512.0B");
}

#[test]
fn last_value_before_kb() {
    assert_eq!(human_size(1023), "1023.0B");
}

#[test]
fn first_kb() {
    assert_eq!(human_size(1024), "1.0KB");
}

#[test]
fn half_kb_step() {
    assert_eq!(human_size(1536), "1.5KB");
}

#[test]
fn rounded_kb_values() {
    assert_eq!(human_size(2048), "2.0KB");
    assert_eq!(human_size(3000), "2.9KB");
    assert_eq!(human_size(3500), "3.4KB");
}

#[test]
fn exact_half_tenths_round_to_even() {
    // 1280 B is exactly 1.25 KB: the even neighbour is 1.2.
    assert_eq!(human_size(1280), "1.2KB");
    // 1792 B is exactly 1.75 KB: the even neighbour is 1.8.
    assert_eq!(human_size(1792), "1.8KB");
    // The same ties one unit up.
    assert_eq!(human_size(1310720), "1.2MB");
    assert_eq!(human_size(1835008), "1.8MB");
}

#[test]
fn first_mb() {
    assert_eq!(human_size(1024 * 1024), "1.0MB");
}

#[test]
fn ten_mb() {
    assert_eq!(human_size(10 * 1024 * 1024), "10.0MB");
}

#[test]
fn first_gb_and_tb() {
    assert_eq!(human_size(1024 * 1024 * 1024), "1.0GB");
    assert_eq!(human_size(1024u64 * 1024 * 1024 * 1024), "1.0TB");
}

#[test]
fn largest_value_stays_in_tb() {
    let s = human_size(u64::MAX);
    assert_eq!(s, "16777216.0TB");
    assert!(s.ends_with("TB"));
}

#[test]
fn one_decimal_place_always() {
    for &n in &[0u64, 9, 10, 1023, 1024, 4096, 999999, 1048576, u64::MAX] {
        let s = human_size(n);
        let digits: Vec<&str> = s.split('.').collect();
        assert_eq!(digits.len(), 2, "one dot in {}", s);
        let frac = digits[1];
        let unit_len = frac.chars().filter(|c| c.is_alphabetic()).count();
        assert_eq!(frac.len() - unit_len, 1, "one decimal digit in {}", s);
    }
}

#[test]
fn monotone_samples() {
    let mut last = 0u64;
    for &n in &[0u64, 1, 512, 1023, 1024, 1536, 2047, 2048, 1048575, 1048576, u64::MAX] {
        let s = human_size(n);
        let unit_rank = if s.ends_with("TB") {
            4
        } else if s.ends_with("GB") {
            3
        } else if s.ends_with("MB") {
            2
        } else if s.ends_with("KB") {
            1
        } else {
            0
        };
        let number: f64 = s.trim_end_matches(char::is_alphabetic).parse().unwrap();
        let magnitude = (unit_rank, (number * 10.0).round() as u64);
        let packed = (magnitude.0 as u64) << 32 | magnitude.1;
        assert!(packed >= last, "human_size({}) = {} dropped", n, s);
        last = packed;
    }
}
