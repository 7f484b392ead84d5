use open_fair_flow::models::{Dataset, Workspace};
use open_fair_flow::store::{
    dataset_from_row, dataset_to_row, list_datasets, list_workspaces, sort_newest_first,
    tags_from_json, tags_to_json, DatasetRow,
};

fn ws(id: &str, updated: &str) -> Workspace {
    Workspace {
        id: id.to_string(),
        name: format!("ws {id}"),
        dataset_id: "d".to_string(),
        dataset_name: "D".to_string(),
        code: String::new(),
        created_at: "2024-01-01T00:00:00+00:00".to_string(),
        updated_at: updated.to_string(),
    }
}

fn ds(id: &str, created: &str, size: u64, tags: &[&str]) -> Dataset {
    Dataset {
        id: id.to_string(),
        name: format!("n{id}"),
        dataset_type: "MNIST".to_string(),
        description: String::new(),
        tags: tags.iter().map(|t| t.to_string()).collect(),
        format: "binary".to_string(),
        num_samples: None,
        num_classes: Some(3),
        file_size: size,
        source: "local".to_string(),
        file_path: format!("data/datasets/{id}/f"),
        created_at: created.to_string(),
        status: "ready".to_string(),
    }
}

#[test]
fn tags_json_is_compact_and_escaped() {
    assert_eq!(tags_to_json(&vec![]), "[]");
    assert_eq!(tags_to_json(&vec!["a".to_string(), "b c".to_string()]), "[\"a\",\"b c\"]");
    assert_eq!(
        tags_to_json(&vec!["q\"\\\n\t\u{1}".to_string(), "é".to_string()]),
        "[\"q\\\"\\\\\\n\\t\\u0001\",\"é\"]"
    );
}

#[test]
fn tags_round_trip_and_unreadable_tags() {
    let tags = vec!["x".to_string(), "y\"z".to_string(), String::new()];
    assert_eq!(tags_from_json(&tags_to_json(&tags)), tags);
    assert_eq!(tags_from_json("[ \"a\" , \"b\" ]"), vec!["a".to_string(), "b".to_string()]);
    assert_eq!(tags_from_json("not json"), Vec::<String>::new());
    assert_eq!(tags_from_json("[1, 2]"), Vec::<String>::new());
    assert_eq!(tags_from_json(""), Vec::<String>::new());
}

#[test]
fn dataset_rows_round_trip() {
    let d = ds("7", "2024-05-01", u64::MAX - 5, &["a", "b"]);
    let row = dataset_to_row(&d);
    assert_eq!(row.tags, "[\"a\",\"b\"]");
    assert_eq!(row.file_size, (u64::MAX - 5) as i64);
    assert!(row.file_size < 0);
    assert_eq!(dataset_from_row(row), d);
}

#[test]
fn row_with_bad_tags_reads_without_tags() {
    let mut row = dataset_to_row(&ds("1", "t", 10, &["a"]));
    row.tags = "{oops".to_string();
    let back = dataset_from_row(row);
    assert!(back.tags.is_empty());
    assert_eq!(back.file_size, 10);
}

#[test]
fn workspaces_listed_most_recently_updated_first() {
    let rows = vec![
        ws("a", "2024-01-02T00:00:00+00:00"),
        ws("b", "2024-03-01T00:00:00+00:00"),
        ws("c", "2023-12-31T23:59:59+00:00"),
        ws("d", "2024-03-01T00:00:01+00:00"),
    ];
    let listed = list_workspaces(rows);
    let ids: Vec<&str> = listed.iter().map(|w| w.id.as_str()).collect();
    assert_eq!(ids, vec!["d", "b", "a", "c"]);
    assert!(list_workspaces(Vec::new()).is_empty());
}

#[test]
fn datasets_listed_most_recently_created_first() {
    let rows: Vec<DatasetRow> = vec![
        dataset_to_row(&ds("1", "2024-01-01", 1, &[])),
        dataset_to_row(&ds("2", "2024-06-01", 2, &["t"])),
        dataset_to_row(&ds("3", "2024-03-01", 3, &[])),
    ];
    let listed = list_datasets(rows);
    let ids: Vec<&str> = listed.iter().map(|d| d.id.as_str()).collect();
    assert_eq!(ids, vec!["2", "3", "1"]);
    assert_eq!(listed[0].tags, vec!["t".to_string()]);
}

#[test]
fn sort_keeps_every_record() {
    let rows = vec![ws("x", "b"), ws("y", "a"), ws("z", "b"), ws("w", "")];
    let sorted = sort_newest_first(rows);
    assert_eq!(sorted.len(), 4);
    let mut ids: Vec<String> = sorted.iter().map(|w| w.id.clone()).collect();
    assert_eq!(&sorted[3].id, "w");
    ids.sort();
    assert_eq!(ids, vec!["w", "x", "y", "z"]);
}

#[test]
fn sort_is_stable_for_equal_timestamps() {
    let rows = vec![ws("p", "t1"), ws("q", "t2"), ws("r", "t1"), ws("s", "t2"), ws("u", "t1")];
    let ids: Vec<String> = sort_newest_first(rows).iter().map(|w| w.id.clone()).collect();
    assert_eq!(ids, vec!["q", "s", "p", "r", "u"]);
}

#[test]
fn listing_an_ordered_listing_changes_nothing() {
    let rows = vec![ws("a", "3"), ws("b", "2"), ws("c", "2"), ws("d", "1")];
    let once = list_workspaces(rows.clone());
    assert_eq!(once, rows);
    assert_eq!(list_workspaces(once.clone()), once);
}
