use dev_browser::units::{format_duration_ms, human_size};

#[test]
fn human_size_formats_bytes() {
    assert_eq!(human_size(0), "0 B");
    assert_eq!(human_size(512), "512 B");
}

#[test]
fn human_size_formats_kilobytes() {
    assert_eq!(human_size(1536), "1.5 KB");
}

#[test]
fn human_size_formats_megabytes_and_gigabytes() {
    assert_eq!(human_size(1_572_864), "1.5 MB");
    assert_eq!(human_size(1_610_612_736), "1.5 GB");
}

fn size_by_double(bytes: u64) -> String {
    let units = ["B", "KB", "MB", "GB", "TB"];
    if bytes < 1024 {
        return format!("{bytes} B");
    }
    let mut size = bytes as f64;
    let mut unit: usize = 0;
    while size >= 1024.0 && unit < 4 {
        size /= 1024.0;
        unit += 1;
    }
    format!("{size:.1} {}", units[unit])
}

#[test]
fn human_size_agrees_with_double_precision() {
    for bytes in 0..100_000u64 {
        assert_eq!(human_size(bytes), size_by_double(bytes));
    }
    let mut seed: u64 = 0x9e37_79b9_7f4a_7c15;
    for round in 0..100_000u64 {
        seed = seed.wrapping_mul(6_364_136_223_846_793_005).wrapping_add(1_442_695_040_888_963_407);
        let bytes = seed >> (round % 64);
        assert_eq!(human_size(bytes), size_by_double(bytes));
    }
    for shift in 0..64u32 {
        for step in 0..64u64 {
            let bytes = (1u64 << shift).wrapping_add(step).wrapping_sub(32);
            assert_eq!(human_size(bytes), size_by_double(bytes));
            let tie = (1u64 << shift).wrapping_add((1u64 << shift) >> 11).wrapping_add(step << 10);
            assert_eq!(human_size(tie), size_by_double(tie));
        }
    }
    assert_eq!(human_size(u64::MAX), "16777216.0 TB");
}

#[test]
fn human_size_sends_ties_to_the_even_tenth() {
    assert_eq!(human_size(1280), "1.2 KB");
    assert_eq!(human_size(1792), "1.8 KB");
}

#[test]
fn durations_agree_with_double_precision() {
    for milliseconds in 1_000..60_000u64 {
        assert_eq!(
            format_duration_ms(milliseconds),
            format!("{:.1}s", milliseconds as f64 / 1_000.0)
        );
    }
}

#[test]
fn durations_name_their_unit() {
    assert_eq!(format_duration_ms(0), "0ms");
    assert_eq!(format_duration_ms(999), "999ms");
    assert_eq!(format_duration_ms(1_000), "1.0s");
    assert_eq!(format_duration_ms(1_150), "1.1s");
    assert_eq!(format_duration_ms(1_250), "1.2s");
    assert_eq!(format_duration_ms(1_350), "1.4s");
    assert_eq!(format_duration_ms(59_999), "60.0s");
    assert_eq!(format_duration_ms(60_000), "1m 0s");
    assert_eq!(format_duration_ms(90_500), "1m 30s");
    assert_eq!(format_duration_ms(u64::MAX), "307445734561825m 51s");
}
