use open_fair_flow::models::{size_label, Dataset};

fn dataset(size: u64, status: &str) -> Dataset {
    Dataset {
        id: "id-1".to_string(),
        name: "MNIST".to_string(),
        dataset_type: "MNIST".to_string(),
        description: "digits".to_string(),
        tags: vec!["vision".to_string(), "small".to_string()],
        format: "parquet".to_string(),
        num_samples: Some(70000),
        num_classes: Some(10),
        file_size: size,
        source: "local".to_string(),
        file_path: "data/datasets/id-1/train.parquet".to_string(),
        created_at: "2024-01-02T03:04:05+00:00".to_string(),
        status: status.to_string(),
    }
}

/// The size text as floating-point formatting produces it.
fn float_size_text(file_size: u64) -> String {
    let size = file_size as f64;
    if size < 1024.0 {
        format!("{} B", file_size)
    } else if size < 1024.0 * 1024.0 {
        format!("{:.1} KB", size / 1024.0)
    } else if size < 1024.0 * 1024.0 * 1024.0 {
        format!("{:.1} MB", size / (1024.0 * 1024.0))
    } else {
        format!("{:.2} GB", size / (1024.0 * 1024.0 * 1024.0))
    }
}

#[test]
fn human_readable_size_exact_values() {
    assert_eq!(dataset(0, "ready").human_readable_size(), "0 B");
    assert_eq!(dataset(1023, "ready").human_readable_size(), "1023 B");
    assert_eq!(dataset(1024, "ready").human_readable_size(), "1.0 KB");
    assert_eq!(dataset(1536, "ready").human_readable_size(), "1.5 KB");
    assert_eq!(dataset(1048576, "ready").human_readable_size(), "1.0 MB");
    assert_eq!(dataset(1073741824, "ready").human_readable_size(), "1.00 GB");
    assert_eq!(dataset(5 * 1073741824 + 536870912, "ready").human_readable_size(), "5.50 GB");
}

#[test]
fn human_readable_size_rounds_ties_to_even() {
    // 1280 / 1024 = 1.25 exactly: the tie goes to the even digit.
    assert_eq!(dataset(1280, "ready").human_readable_size(), "1.2 KB");
    // 1408 / 1024 = 1.375 exactly: 1.375 rounds to 1.4.
    assert_eq!(dataset(1408, "ready").human_readable_size(), "1.4 KB");
    assert_eq!(size_label(1280), float_size_text(1280));
}

#[test]
fn human_readable_size_matches_float_formatting() {
    let mut samples: Vec<u64> = Vec::new();
    for k in 0..64u32 {
        let p = 1u64 << k;
        samples.push(p);
        samples.push(p - 1);
        samples.push(p.wrapping_add(1));
        samples.push(p / 3 * 2 + 7);
    }
    samples.push(u64::MAX);
    samples.push(u64::MAX - 1);
    samples.push((1u64 << 53) + 1);
    samples.push((1u64 << 54) + 3);
    samples.push(123_456_789_012);
    samples.push(999_999_999);
    let mut x: u64 = 0x9E37_79B9_7F4A_7C15;
    for _ in 0..2000 {
        x ^= x << 13;
        x ^= x >> 7;
        x ^= x << 17;
        samples.push(x >> (x % 60));
    }
    for n in samples {
        assert_eq!(size_label(n), float_size_text(n), "size {n}");
    }
}

#[test]
fn status_colors() {
    assert_eq!(dataset(0, "ready").status_color(), "border border-white text-white");
    assert_eq!(
        dataset(0, "uploading").status_color(),
        "border border-[#888] text-[#888] animate-pulse"
    );
    assert_eq!(
        dataset(0, "downloading").status_color(),
        "border border-[#888] text-[#888] animate-pulse"
    );
    assert_eq!(
        dataset(0, "error").status_color(),
        "border border-dashed border-[#ff3333] text-[#ff3333]"
    );
    assert_eq!(dataset(0, "queued").status_color(), "border border-[#444] text-[#444]");
    assert_eq!(dataset(0, "Ready").status_color(), "border border-[#444] text-[#444]");
}

#[test]
fn duplicate_keeps_every_field() {
    let d = dataset(77, "ready");
    assert_eq!(d.duplicate(), d);
}
