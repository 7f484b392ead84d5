use open_fair_flow::pages::{
    largest_count, output_note, plot_src, server_error_result, source_label, tab_badge,
    upload_size_label,
};
use open_fair_flow::models::{Dataset, DatasetViewerPage, DatasetViewerRow, ExecutionResult, Workspace};
use open_fair_flow::pages::{
    card_date, check_dataset_form, check_workspace_form, dataset_figures, date_part,
    escape_for_js_template, has_next_page, has_previous_page, hidden_tag_count, next_offset,
    parse_tags, parse_u32_field, parse_u64_field, previous_offset, range_line, workspace_figures,
    xai_item_count, FormError,
};

fn ds(id: &str, status: &str, size: u64) -> Dataset {
    Dataset {
        id: id.to_string(),
        name: id.to_string(),
        dataset_type: String::new(),
        description: String::new(),
        tags: vec![],
        format: String::new(),
        num_samples: None,
        num_classes: None,
        file_size: size,
        source: String::new(),
        file_path: String::new(),
        created_at: String::new(),
        status: status.to_string(),
    }
}

fn ws(id: &str, updated: &str) -> Workspace {
    Workspace {
        id: id.to_string(),
        name: id.to_string(),
        dataset_id: String::new(),
        dataset_name: String::new(),
        code: String::new(),
        created_at: String::new(),
        updated_at: updated.to_string(),
    }
}

#[test]
fn tags_from_input() {
    assert_eq!(parse_tags(" vision, small ,,  ,mnist"), vec!["vision", "small", "mnist"]);
    assert!(parse_tags("").is_empty());
    assert!(parse_tags(" , ").is_empty());
}

#[test]
fn numbers_from_input() {
    assert_eq!(parse_u64_field("70000"), Some(70000));
    assert_eq!(parse_u64_field("+5"), Some(5));
    assert_eq!(parse_u64_field("18446744073709551615"), Some(u64::MAX));
    assert_eq!(parse_u64_field("18446744073709551616"), None);
    assert_eq!(parse_u64_field("-1"), None);
    assert_eq!(parse_u64_field(" 1"), None);
    assert_eq!(parse_u64_field(""), None);
    assert_eq!(parse_u32_field("4294967295"), Some(u32::MAX));
    assert_eq!(parse_u32_field("4294967296"), None);
    assert_eq!(parse_u32_field("10"), Some(10));
}

#[test]
fn dataset_form_checks() {
    assert_eq!(check_dataset_form("  ", "", "", "", true, 10, ""), Err(FormError::NameRequired));
    assert_eq!(check_dataset_form("n", "", "", "", true, 0, ""), Err(FormError::FileRequired));
    assert_eq!(check_dataset_form("n", "", "", "", false, 0, "   "), Err(FormError::UrlRequired));
    let ok = check_dataset_form(" My set ", "a, b", "12", "x", false, 0, " https://e.com/f ").unwrap();
    assert_eq!(ok.name, "My set");
    assert_eq!(ok.tags, vec!["a", "b"]);
    assert_eq!(ok.num_samples, Some(12));
    assert_eq!(ok.num_classes, None);
    assert_eq!(ok.url, Some("https://e.com/f".to_string()));
    let up = check_dataset_form("n", "", "", "3", true, 5, "").unwrap();
    assert_eq!(up.url, None);
    assert_eq!(up.num_classes, Some(3));
    assert_eq!(FormError::NameRequired.message(), "Name is required");
    assert_eq!(FormError::FileRequired.message(), "Please select a file");
    assert_eq!(FormError::UrlRequired.message(), "URL is required");
    assert_eq!(FormError::DatasetRequired.message(), "Please select a dataset");
}

#[test]
fn workspace_form_checks() {
    assert_eq!(check_workspace_form(" ", "d"), Err(FormError::NameRequired));
    assert_eq!(check_workspace_form("w", "  "), Err(FormError::DatasetRequired));
    assert_eq!(check_workspace_form(" w ", " d "), Ok(("w".to_string(), "d".to_string())));
}

#[test]
fn dashboard_figures() {
    let list = vec![ds("a", "ready", 1000), ds("b", "error", 24), ds("c", "ready", 512), ds("d", "x", 0), ds("e", "ready", 0), ds("f", "ready", 0)];
    let f = dataset_figures(&list);
    assert_eq!(f.total, 6);
    assert_eq!(f.ready, 4);
    assert_eq!(f.total_size, 1536);
    assert_eq!(f.size_label, "1.5 KB");
    let ids: Vec<&str> = f.recent.iter().map(|d| d.id.as_str()).collect();
    assert_eq!(ids, vec!["a", "b", "c", "d", "e"]);
    let empty = dataset_figures(&vec![]);
    assert_eq!((empty.total, empty.ready, empty.total_size), (0, 0, 0));
    assert_eq!(empty.size_label, "0 B");

    let (count, recent) = workspace_figures(vec![ws("1", "a"), ws("2", "c"), ws("3", "b"), ws("4", "e"), ws("5", "d"), ws("6", "f")]);
    assert_eq!(count, 6);
    let ids: Vec<&str> = recent.iter().map(|w| w.id.as_str()).collect();
    assert_eq!(ids, vec!["6", "4", "5", "2", "3"]);
}

#[test]
fn card_labels() {
    assert_eq!(card_date("2024-01-02T03:04:05+00:00"), "2024-01-02");
    assert_eq!(card_date("short"), "short");
    assert_eq!(date_part("2024-01-02T03:04:05"), "2024-01-02");
    assert_eq!(date_part("no-time"), "no-time");
    assert_eq!(hidden_tag_count(&vec!["a".into(), "b".into(), "c".into(), "d".into(), "e".into()]), Some(2));
    assert_eq!(hidden_tag_count(&vec!["a".into(), "b".into(), "c".into()]), None);
    let r = ExecutionResult { stdout: String::new(), stderr: String::new(), plots: vec![], table_html: None, xai_plots: vec!["x".into(), "y".into()], xai_html: Some("h".into()) };
    assert_eq!(xai_item_count(&r), 3);
}

#[test]
fn paging() {
    assert_eq!(previous_offset(25), 15);
    assert_eq!(previous_offset(3), 0);
    assert_eq!(next_offset(10), 20);
    let row = DatasetViewerRow { index: 0, cells: vec![] };
    let page = DatasetViewerPage { columns: vec![], rows: vec![row.clone(), row.clone(), row], total_rows: 23, offset: 20, limit: 10, split: "train".into(), available_splits: vec![] };
    assert!(has_previous_page(&page));
    assert!(!has_next_page(&page));
    assert_eq!(range_line(&page), "Showing 21\u{2013}23 of 23");
    let first = DatasetViewerPage { offset: 0, total_rows: 100, ..page.clone() };
    assert!(!has_previous_page(&first));
    assert!(has_next_page(&first));
    assert_eq!(range_line(&first), "Showing 1\u{2013}3 of 100");
}

#[test]
fn js_escaping() {
    assert_eq!(escape_for_js_template("a\\b`c${d}"), "a\\\\b\\`c\\${d}");
    assert_eq!(escape_for_js_template("$x {y}"), "$x {y}");
}

#[test]
fn upload_sizes() {
    assert_eq!(upload_size_label(0), "0 B");
    assert_eq!(upload_size_label(1023), "1023 B");
    assert_eq!(upload_size_label(1024), "1.0 KB");
    assert_eq!(upload_size_label(1126), "1.1 KB");
    assert_eq!(upload_size_label(1048575), "1024.0 KB");
    assert_eq!(upload_size_label(1048576), "1.0 MB");
    assert_eq!(upload_size_label(5 * 1073741824), "5120.0 MB");
    for n in [0usize, 500, 1536, 2047, 1_000_000, 123_456_789, 9_999_999_999] {
        let size = n as f64;
        let expected = if size < 1024.0 {
            format!("{} B", n)
        } else if size < 1024.0 * 1024.0 {
            format!("{:.1} KB", size / 1024.0)
        } else {
            format!("{:.1} MB", size / (1024.0 * 1024.0))
        };
        assert_eq!(upload_size_label(n), expected);
    }
}

#[test]
fn detail_source_and_bar_scale() {
    assert_eq!(source_label("local"), "Local upload");
    assert_eq!(source_label("https://x/y.zip"), "https://x/y.zip");
    assert_eq!(largest_count(&vec![]), 1);
    assert_eq!(largest_count(&vec![("a".to_string(), 3), ("b".to_string(), 9), ("c".to_string(), 4)]), 9);
    assert_eq!(largest_count(&vec![("a".to_string(), 0)]), 0);
}

#[test]
fn paging_forward_then_back_returns() {
    for o in [0u64, 3, 10, 25, 1000] {
        assert_eq!(previous_offset(next_offset(o)), o);
    }
    for o in [10u64, 11, 25, 1000] {
        assert_eq!(next_offset(previous_offset(o)), o);
    }
    assert_eq!(next_offset(previous_offset(4)), 10);
}

fn result_with(stdout: &str, plots: usize, table: bool, xai_plots: usize, xai_html: bool) -> ExecutionResult {
    ExecutionResult {
        stdout: stdout.to_string(),
        stderr: String::new(),
        plots: vec!["p".to_string(); plots],
        table_html: if table { Some("<table/>".to_string()) } else { None },
        xai_plots: vec!["x".to_string(); xai_plots],
        xai_html: if xai_html { Some("<b/>".to_string()) } else { None },
    }
}

#[test]
fn output_tabs() {
    let r = result_with("hi", 2, false, 0, true);
    assert_eq!(tab_badge(&r, "plots"), Some(2));
    assert_eq!(tab_badge(&r, "table"), None);
    assert_eq!(tab_badge(&r, "xai"), Some(1));
    assert_eq!(tab_badge(&r, "console"), None);
    assert_eq!(output_note(true, &Some(r.clone()), "console"), Some("Executing Python code..."));
    assert_eq!(output_note(false, &None, "plots"), Some("Click \"\u{25b6} Run\" to execute your code"));
    assert_eq!(output_note(false, &Some(r.clone()), "console"), None);
    assert_eq!(output_note(false, &Some(r.clone()), "plots"), None);
    assert_eq!(
        output_note(false, &Some(r.clone()), "table"),
        Some("No table output. Assign a DataFrame to a variable to see it here.")
    );
    assert_eq!(output_note(false, &Some(r), "xai"), None);
    let empty = result_with("", 0, false, 0, false);
    assert_eq!(output_note(false, &Some(empty.clone()), "console"), Some("No console output"));
    assert_eq!(
        output_note(false, &Some(empty.clone()), "plots"),
        Some("No plots generated. Use plt.show() to display plots.")
    );
    assert_eq!(
        output_note(false, &Some(empty), "xai"),
        Some("No XAI output. Use the FL Config panel to generate code with Explainable AI analysis.")
    );
    assert_eq!(plot_src("AAA="), "data:image/png;base64,AAA=");
    let e = server_error_result("boom");
    assert_eq!(e.stderr, "Server error: boom");
    assert!(e.stdout.is_empty() && e.plots.is_empty() && e.table_html.is_none());
}
