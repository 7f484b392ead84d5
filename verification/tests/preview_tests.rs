use base64::Engine;
use open_fair_flow::models::{Dataset, DatasetPreview};
use open_fair_flow::preview::{
    class_distribution, file_thumbnail_data_url, is_image_extension, label_text, new_preview, preview_image_column,
    preview_label_column, preview_summary, scan_preview_rows, thumbnail_data_url,
};
use open_fair_flow::table::{
    FieldKind, FieldValue, GroupEntry, PhysicalType, RowEntry, SchemaField, SchemaFieldKind,
};

fn png(w: u32, h: u32) -> Vec<u8> {
    let img = image::RgbImage::from_pixel(w, h, image::Rgb([10, 200, 30]));
    let mut buf = std::io::Cursor::new(Vec::new());
    image::DynamicImage::ImageRgb8(img).write_to(&mut buf, image::ImageFormat::Png).unwrap();
    buf.into_inner()
}

fn dataset() -> Dataset {
    Dataset {
        id: "x".to_string(),
        name: "Fashion".to_string(),
        dataset_type: "Fashion-MNIST".to_string(),
        description: String::new(),
        tags: vec![],
        format: "parquet".to_string(),
        num_samples: Some(60000),
        num_classes: None,
        file_size: 2048,
        source: "https://huggingface.co/datasets/f/m".to_string(),
        file_path: "data/datasets/x/huggingface_dataset".to_string(),
        created_at: "t".to_string(),
        status: "ready".to_string(),
    }
}

fn value(kind: FieldKind, shown: &str) -> FieldValue {
    FieldValue { kind, shown: shown.to_string() }
}

fn entry(name: &str, v: FieldValue) -> RowEntry {
    RowEntry { name: name.to_string(), value: v }
}

#[test]
fn summary_lines() {
    let s = preview_summary(&dataset());
    let expect: Vec<(String, String)> = vec![
        ("Name", "Fashion"),
        ("Type", "Fashion-MNIST"),
        ("Format", "parquet"),
        ("Size", "2.0 KB"),
        ("Source", "https://huggingface.co/datasets/f/m"),
        ("Status", "ready"),
        ("Samples", "60000"),
    ]
    .into_iter()
    .map(|(a, b)| (a.to_string(), b.to_string()))
    .collect();
    assert_eq!(s, expect);
    let mut d = dataset();
    d.num_classes = Some(10);
    d.num_samples = None;
    let s2 = preview_summary(&d);
    assert_eq!(s2.last().unwrap(), &("Classes".to_string(), "10".to_string()));
    assert_eq!(s2.len(), 7);
    let p = new_preview(&d);
    assert!(p.sample_images.is_empty() && p.class_distribution.is_empty());
}

#[test]
fn thumbnails_are_png_data_urls() {
    let url = thumbnail_data_url(&png(200, 100)).expect("decodes");
    let b64 = url.strip_prefix("data:image/png;base64,").expect("prefix");
    let bytes = base64::engine::general_purpose::STANDARD.decode(b64).unwrap();
    let thumb = image::load_from_memory(&bytes).unwrap();
    assert_eq!((thumb.width(), thumb.height()), (64, 32));
    assert_eq!(thumbnail_data_url(b"not an image"), None);
    assert_eq!(thumbnail_data_url(&[]), None);
}

#[test]
fn image_extensions() {
    for e in ["png", "PNG", "Jpg", "jpeg", "bmp", "gif", "WebP"] {
        assert!(is_image_extension(e), "{e}");
    }
    for e in ["txt", "parquet", "pngx", "", "tiff"] {
        assert!(!is_image_extension(e), "{e}");
    }
}

#[test]
fn image_and_label_columns() {
    let fields = vec![
        SchemaField { name: "meta".to_string(), kind: SchemaFieldKind::Group(vec!["path".to_string()]) },
        SchemaField { name: "img".to_string(), kind: SchemaFieldKind::Group(vec!["bytes".to_string(), "path".to_string()]) },
        SchemaField { name: "label".to_string(), kind: SchemaFieldKind::Primitive(PhysicalType::Int64) },
        SchemaField { name: "labels".to_string(), kind: SchemaFieldKind::Primitive(PhysicalType::ByteArray) },
        SchemaField { name: "image".to_string(), kind: SchemaFieldKind::Group(vec!["bytes".to_string()]) },
    ];
    assert_eq!(preview_image_column(&fields), Some("img".to_string()));
    assert_eq!(preview_label_column(&fields), Some("labels".to_string()));
    assert_eq!(preview_image_column(&fields[..1].to_vec()), None);
    assert_eq!(preview_label_column(&fields[..2].to_vec()), None);
}

#[test]
fn label_texts() {
    assert_eq!(label_text(&value(FieldKind::Int(-3), "-3")), "-3");
    assert_eq!(label_text(&value(FieldKind::Long(i64::MIN), "x")), i64::MIN.to_string());
    assert_eq!(label_text(&value(FieldKind::Str("cat".to_string()), "\"cat\"")), "cat");
    assert_eq!(label_text(&value(FieldKind::Other, "true")), "true");
}

#[test]
fn class_distribution_order_and_counts() {
    let labels: Vec<String> = ["10", "2", "b", "a", "2", "-1", "+2", "007", "99999999999999999999"]
        .iter()
        .map(|s| s.to_string())
        .collect();
    let dist = class_distribution(&labels);
    let expect: Vec<(String, u32)> = vec![
        ("99999999999999999999", 1),
        ("a", 1),
        ("b", 1),
        ("-1", 1),
        ("+2", 1),
        ("2", 2),
        ("007", 1),
        ("10", 1),
    ]
    .into_iter()
    .map(|(a, b)| (a.to_string(), b))
    .collect();
    assert_eq!(dist, expect);
    assert!(class_distribution(&vec![]).is_empty());
}

fn image_row(bytes: Vec<u8>, label: i64) -> Vec<RowEntry> {
    vec![
        entry(
            "image",
            value(
                FieldKind::Group(vec![
                    GroupEntry { name: "bytes".to_string(), bytes: Some(bytes) },
                    GroupEntry { name: "path".to_string(), bytes: None },
                ]),
                "{..}",
            ),
        ),
        entry("label", value(FieldKind::Long(label), &label.to_string())),
    ]
}

#[test]
fn scanning_rows() {
    let mut p = new_preview(&dataset());
    let mut rows = Vec::new();
    for i in 0..15 {
        rows.push(image_row(png(8, 8), i % 3));
    }
    rows.push(image_row(b"garbage".to_vec(), 7));
    scan_preview_rows(&mut p, &rows, false, Some("image"), Some("label"));
    assert_eq!(p.sample_images.len(), 12);
    assert_eq!(
        p.class_distribution,
        vec![("0".to_string(), 5), ("1".to_string(), 5), ("2".to_string(), 5), ("7".to_string(), 1)]
    );
}

#[test]
fn scanning_stops_counting_after_a_read_error() {
    let mut p = DatasetPreview { sample_images: vec![], class_distribution: vec![], summary: vec![] };
    let rows = vec![image_row(png(4, 4), 1)];
    scan_preview_rows(&mut p, &rows, true, Some("image"), Some("label"));
    assert_eq!(p.sample_images.len(), 1);
    assert!(p.class_distribution.is_empty());
    let mut q = DatasetPreview { sample_images: vec![], class_distribution: vec![], summary: vec![] };
    scan_preview_rows(&mut q, &rows, false, None, None);
    assert!(q.sample_images.is_empty() && q.class_distribution.is_empty());
}

#[test]
fn scanning_looks_at_the_first_5000_rows_only() {
    let mut p = DatasetPreview { sample_images: vec![], class_distribution: vec![], summary: vec![] };
    let mut rows = Vec::new();
    for i in 0..5003 {
        rows.push(vec![RowEntry {
            name: "label".to_string(),
            value: FieldValue { kind: FieldKind::Int(if i < 5000 { 1 } else { 2 }), shown: String::new() },
        }]);
    }
    scan_preview_rows(&mut p, &rows, false, None, Some("label"));
    assert_eq!(p.class_distribution, vec![("1".to_string(), 5000)]);
}

#[test]
fn class_counts_add_up_to_the_labels() {
    let labels: Vec<String> = ["b", "10", "a", "2", "b", "-3", "2", "b", "x"].iter().map(|s| s.to_string()).collect();
    let dist = class_distribution(&labels);
    let total: u32 = dist.iter().map(|(_, c)| *c).sum();
    assert_eq!(total as usize, labels.len());
    assert_eq!(dist.len(), 6);
}

#[test]
fn image_files_decode_as_their_extension_says() {
    let bytes = png(20, 10);
    assert_eq!(file_thumbnail_data_url(&bytes, "png"), thumbnail_data_url(&bytes));
    assert_eq!(file_thumbnail_data_url(&bytes, "PNG"), thumbnail_data_url(&bytes));
    assert_eq!(file_thumbnail_data_url(&bytes, "jpg"), None);
    assert_eq!(file_thumbnail_data_url(&bytes, "txt"), None);
}
