use open_fair_flow::models::{ColumnInfo, ColumnType, DatasetCell};
use open_fair_flow::table::{
    FieldKind, FieldValue, GroupEntry, PhysicalType, RowEntry, SchemaField, SchemaFieldKind,
};
use open_fair_flow::viewer::{
    available_splits, choose_preview_split, choose_viewer_split, field_to_cell,
    register_parquet_file, split_name, viewer_columns, viewer_page, viewer_row,
};
use open_fair_flow::viewer::{page_start, page_step, page_wants_row, PageAction, RowEvent};

fn value(kind: FieldKind, shown: &str) -> FieldValue {
    FieldValue { kind, shown: shown.to_string() }
}

fn png() -> Vec<u8> {
    let img = image::GrayImage::from_pixel(3, 3, image::Luma([128]));
    let mut buf = std::io::Cursor::new(Vec::new());
    image::DynamicImage::ImageLuma8(img).write_to(&mut buf, image::ImageFormat::Png).unwrap();
    buf.into_inner()
}

#[test]
fn split_names() {
    assert_eq!(split_name("train-00000-of-00001"), "train");
    assert_eq!(split_name("test"), "test");
    assert_eq!(split_name("-x"), "");
}

#[test]
fn splits_keep_their_first_file_and_stay_sorted() {
    let mut splits: Vec<(String, String)> = Vec::new();
    register_parquet_file(&mut splits, "train-00000-of-00002", "a/train0".to_string());
    register_parquet_file(&mut splits, "test-00000-of-00001", "a/test".to_string());
    register_parquet_file(&mut splits, "train-00001-of-00002", "a/train1".to_string());
    register_parquet_file(&mut splits, "validation", "a/val".to_string());
    assert_eq!(
        splits,
        vec![
            ("test".to_string(), "a/test".to_string()),
            ("train".to_string(), "a/train0".to_string()),
            ("validation".to_string(), "a/val".to_string()),
        ]
    );
    assert_eq!(available_splits(&splits), vec!["test", "train", "validation"]);
    assert_eq!(choose_viewer_split(&splits, "validation"), Some(2));
    assert_eq!(choose_viewer_split(&splits, "nope"), Some(0));
    assert_eq!(choose_viewer_split(&splits, ""), Some(0));
    assert_eq!(choose_preview_split(&splits), Some(1));
    assert_eq!(choose_viewer_split(&vec![], "train"), None);
    let only_test = vec![("test".to_string(), "p".to_string())];
    assert_eq!(choose_preview_split(&only_test), Some(0));
    assert_eq!(choose_preview_split(&vec![]), None);
}

#[test]
fn column_types() {
    let fields = vec![
        SchemaField { name: "image".to_string(), kind: SchemaFieldKind::Group(vec!["bytes".to_string(), "path".to_string()]) },
        SchemaField { name: "meta".to_string(), kind: SchemaFieldKind::Group(vec!["path".to_string()]) },
        SchemaField { name: "label".to_string(), kind: SchemaFieldKind::Primitive(PhysicalType::Int64) },
        SchemaField { name: "score".to_string(), kind: SchemaFieldKind::Primitive(PhysicalType::Double) },
        SchemaField { name: "text".to_string(), kind: SchemaFieldKind::Primitive(PhysicalType::ByteArray) },
        SchemaField { name: "flag".to_string(), kind: SchemaFieldKind::Primitive(PhysicalType::Boolean) },
    ];
    let cols = viewer_columns(&fields);
    let types: Vec<ColumnType> = cols.iter().map(|c| c.col_type.clone()).collect();
    assert_eq!(
        types,
        vec![ColumnType::Image, ColumnType::Text, ColumnType::Number, ColumnType::Number, ColumnType::Text, ColumnType::Text]
    );
    assert_eq!(cols[3].name, "score");
}

#[test]
fn cells() {
    let n = ColumnType::Number;
    let t = ColumnType::Text;
    let i = ColumnType::Image;
    assert_eq!(field_to_cell(&value(FieldKind::Int(-7), "-7"), &n), DatasetCell::Number("-7".to_string()));
    assert_eq!(field_to_cell(&value(FieldKind::ULong(u64::MAX), "x"), &n), DatasetCell::Number(u64::MAX.to_string()));
    assert_eq!(field_to_cell(&value(FieldKind::Double("0.1235".to_string()), "0.123456"), &n), DatasetCell::Number("0.1235".to_string()));
    assert_eq!(field_to_cell(&value(FieldKind::Other, "true"), &n), DatasetCell::Number("true".to_string()));
    assert_eq!(field_to_cell(&value(FieldKind::Str("hi".to_string()), "\"hi\""), &t), DatasetCell::Text("hi".to_string()));
    assert_eq!(field_to_cell(&value(FieldKind::Bytes(b"ab\xffc".to_vec()), "[..]"), &t), DatasetCell::Text("ab\u{FFFD}c".to_string()));
    assert_eq!(field_to_cell(&value(FieldKind::Long(5), "5"), &t), DatasetCell::Text("5".to_string()));
    assert_eq!(field_to_cell(&value(FieldKind::Int(1), "1"), &i), DatasetCell::Text("(image)".to_string()));
    let group = FieldKind::Group(vec![
        GroupEntry { name: "bytes".to_string(), bytes: Some(b"bad".to_vec()) },
        GroupEntry { name: "bytes".to_string(), bytes: Some(png()) },
    ]);
    match field_to_cell(&value(group, "{}"), &i) {
        DatasetCell::Image(u) => assert!(u.starts_with("data:image/png;base64,")),
        other => panic!("unexpected {other:?}"),
    }
    let no_image = FieldKind::Group(vec![GroupEntry { name: "path".to_string(), bytes: Some(png()) }]);
    assert_eq!(field_to_cell(&value(no_image, "{}"), &i), DatasetCell::Text("(image)".to_string()));
}

#[test]
fn rows_and_pages() {
    let columns = vec![
        ColumnInfo { name: "label".to_string(), col_type: ColumnType::Number },
        ColumnInfo { name: "missing".to_string(), col_type: ColumnType::Text },
    ];
    let row = vec![RowEntry { name: "label".to_string(), value: value(FieldKind::Long(3), "3") }];
    let r = viewer_row(41, &row, &columns);
    assert_eq!(r.index, 41);
    assert_eq!(r.cells, vec![DatasetCell::Number("3".to_string()), DatasetCell::Text("—".to_string())]);

    let rows = vec![row.clone(), row.clone(), row.clone()];
    let page = viewer_page(columns.clone(), &rows, 100, 20, 2, "train".to_string(), vec!["train".to_string()]);
    assert_eq!(page.rows.len(), 2);
    assert_eq!(page.rows[0].index, 20);
    assert_eq!(page.rows[1].index, 21);
    assert_eq!(page.total_rows, 100);
    assert_eq!((page.offset, page.limit), (20, 2));
    assert_eq!(page.split, "train");
    let all = viewer_page(columns, &rows, -1, 0, 10, "t".to_string(), vec![]);
    assert_eq!(all.rows.len(), 3);
    assert_eq!(all.total_rows, u64::MAX);
}

fn numbered(i: i32) -> Vec<RowEntry> {
    vec![RowEntry { name: "n".to_string(), value: value(FieldKind::Int(i), &i.to_string()) }]
}

fn walk(offset: u64, limit: u64, events: Vec<RowEvent>) -> (Result<Vec<Vec<RowEntry>>, String>, usize) {
    let mut cursor = page_start();
    let mut rows = Vec::new();
    let mut read = 0;
    let mut events = events.into_iter();
    while page_wants_row(offset, limit, cursor) {
        let ev = events.next().unwrap_or(RowEvent::End);
        read += 1;
        let (next, action) = page_step(offset, limit, cursor, ev);
        cursor = next;
        match action {
            PageAction::Skipped => {}
            PageAction::Keep(r) => rows.push(r),
            PageAction::Fail(m) => return (Err(m), read),
            PageAction::Done => break,
        }
    }
    (Ok(rows), read)
}

#[test]
fn page_walk_skips_then_takes() {
    let events: Vec<RowEvent> = (0..10).map(|i| RowEvent::Row(numbered(i))).collect();
    let (rows, read) = walk(3, 4, events.clone());
    assert_eq!(rows.unwrap(), (3..7).map(numbered).collect::<Vec<_>>());
    assert_eq!(read, 7);
    let (rows, _) = walk(8, 4, events.clone());
    assert_eq!(rows.unwrap(), vec![numbered(8), numbered(9)]);
    let (rows, _) = walk(20, 4, events.clone());
    assert!(rows.unwrap().is_empty());
    let (rows, read) = walk(0, 0, events);
    assert!(rows.unwrap().is_empty());
    assert_eq!(read, 0);
}

#[test]
fn page_walk_errors() {
    let events = vec![RowEvent::Failed("bad".to_string()), RowEvent::Row(numbered(1)), RowEvent::Failed("worse".to_string())];
    let (rows, _) = walk(1, 5, events.clone());
    assert_eq!(rows, Err("Row read error: worse".to_string()));
    let (rows, _) = walk(0, 1, events);
    assert_eq!(rows, Err("Row read error: bad".to_string()));
}
