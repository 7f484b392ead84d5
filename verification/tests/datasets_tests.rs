use open_fair_flow::datasets::{
    dataset_dir, download_file_name, downloading_dataset, hf_download_total, hf_files_to_fetch,
    hf_resolve_url, hf_tree_url, is_huggingface_url, parse_hf_repo_id, path_join, plan_storage,
    status_after_download, uploaded_dataset, DatasetError, DatasetFields, HfTreeEntry,
};

fn is_uuid(s: &str) -> bool {
    s.len() == 36
        && s.chars().enumerate().all(|(i, c)| {
            if [8, 13, 18, 23].contains(&i) {
                c == '-'
            } else {
                c.is_ascii_digit() || ('a'..='f').contains(&c)
            }
        })
}

fn fields() -> DatasetFields {
    DatasetFields {
        name: "Set".to_string(),
        description: "desc".to_string(),
        dataset_type: "CIFAR-10".to_string(),
        tags: vec!["t".to_string()],
        format: "png".to_string(),
        num_samples: Some(5),
        num_classes: None,
    }
}

#[test]
fn huggingface_links() {
    assert!(is_huggingface_url("https://huggingface.co/datasets/ylecun/mnist"));
    assert!(!is_huggingface_url("https://huggingface.co/models/bert"));
    assert_eq!(parse_hf_repo_id("https://huggingface.co/datasets/ylecun/mnist"), Some("ylecun/mnist".to_string()));
    assert_eq!(parse_hf_repo_id("https://huggingface.co/datasets/mnist/"), Some("mnist".to_string()));
    assert_eq!(
        parse_hf_repo_id("https://huggingface.co/datasets/a/b/tree/main///"),
        Some("a/b".to_string())
    );
    assert_eq!(parse_hf_repo_id("https://huggingface.co/datasets/"), Some(String::new()));
    assert_eq!(parse_hf_repo_id("https://example.com/data.zip"), None);
}

#[test]
fn download_file_names() {
    assert_eq!(download_file_name("https://huggingface.co/datasets/x/y"), "huggingface_dataset");
    assert_eq!(download_file_name("https://example.com/files/train.csv"), "train.csv");
    assert_eq!(download_file_name("https://example.com/files/"), "dataset");
    assert_eq!(download_file_name("archive.zip"), "archive.zip");
}

#[test]
fn paths_and_hub_addresses() {
    assert_eq!(dataset_dir("abc"), "data/datasets/abc");
    assert_eq!(path_join("data/datasets/abc", "f.bin"), "data/datasets/abc/f.bin");
    assert_eq!(
        hf_tree_url("ylecun/mnist"),
        "https://huggingface.co/api/datasets/ylecun/mnist/tree/main?recursive=true"
    );
    assert_eq!(
        hf_resolve_url("ylecun/mnist", "data/train.parquet"),
        "https://huggingface.co/datasets/ylecun/mnist/resolve/main/data/train.parquet"
    );
}

#[test]
fn hub_listing_keeps_files_only() {
    let entries = vec![
        HfTreeEntry { entry_type: "directory".to_string(), path: "data".to_string() },
        HfTreeEntry { entry_type: "file".to_string(), path: "data/a.parquet".to_string() },
        HfTreeEntry { entry_type: "file".to_string(), path: "README.md".to_string() },
    ];
    assert_eq!(
        hf_files_to_fetch(&entries),
        Ok(vec!["data/a.parquet".to_string(), "README.md".to_string()])
    );
    let dirs = vec![HfTreeEntry { entry_type: "directory".to_string(), path: "x".to_string() }];
    assert_eq!(hf_files_to_fetch(&dirs), Err(DatasetError::NoFilesInRepo));
    assert_eq!(hf_files_to_fetch(&vec![]), Err(DatasetError::NoFilesInRepo));
}

#[test]
fn hub_download_totals() {
    assert_eq!(hf_download_total(&vec![Some(10), None, Some(5)]), Ok(15));
    assert_eq!(hf_download_total(&vec![None, None]), Err(DatasetError::NothingDownloaded));
    assert_eq!(hf_download_total(&vec![Some(0)]), Err(DatasetError::NothingDownloaded));
    assert_eq!(hf_download_total(&vec![]), Err(DatasetError::NothingDownloaded));
}

#[test]
fn new_records() {
    let plan = plan_storage("train.bin");
    assert!(is_uuid(&plan.id));
    assert_eq!(plan.id.chars().nth(14), Some('4'));
    assert!(matches!(plan.id.chars().nth(19), Some('8' | '9' | 'a' | 'b')));
    assert_eq!(plan.dir, format!("data/datasets/{}", plan.id));
    assert_eq!(plan.file_path, format!("data/datasets/{}/train.bin", plan.id));
    let other = plan_storage("train.bin");
    assert_ne!(plan.id, other.id);

    let d = uploaded_dataset(plan.clone(), fields(), 1234);
    assert_eq!(d.id, plan.id);
    assert_eq!(d.file_size, 1234);
    assert_eq!(d.source, "local");
    assert_eq!(d.status, "ready");
    assert_eq!(d.name, "Set");
    assert_eq!(d.num_samples, Some(5));
    assert!(rfc3339_utc(&d.created_at), "{}", d.created_at);

    let l = downloading_dataset(plan, fields(), "https://e.com/x");
    assert_eq!(l.status, "downloading");
    assert_eq!(l.source, "https://e.com/x");
    assert_eq!(l.file_size, 0);
}

#[test]
fn status_after_downloads() {
    assert_eq!(status_after_download::<DatasetError>(Ok(42)), ("ready".to_string(), Some(42)));
    assert_eq!(status_after_download(Err(DatasetError::NothingDownloaded)), ("error".to_string(), None));
}

#[test]
fn error_messages() {
    assert_eq!(DatasetError::UnparsableRepoId.message(), "Could not parse HuggingFace repo ID from URL");
    assert_eq!(DatasetError::NoFilesInRepo.message(), "No files found in this HuggingFace dataset");
    assert_eq!(
        DatasetError::NothingDownloaded.message(),
        "Could not download any files (dataset may require authentication)"
    );
    assert_eq!(DatasetError::DatasetNotFound.message(), "Dataset not found");
    assert_eq!(DatasetError::DirectoryNotFound.message(), "Dataset directory not found");
    assert_eq!(DatasetError::NoParquetFiles.message(), "No parquet files found in dataset");
}

fn rfc3339_utc(t: &str) -> bool {
    let c: Vec<char> = t.chars().collect();
    let digit = |i: usize| c[i].is_ascii_digit();
    c.len() >= 25
        && (0..4).all(digit)
        && c[4] == '-' && c[7] == '-' && c[10] == 'T' && c[13] == ':' && c[16] == ':'
        && t.ends_with("+00:00")
        && [5, 6, 8, 9, 11, 12, 14, 15, 17, 18].iter().all(|&i| digit(i))
        && [19usize, 23, 26, 29].contains(&(c.len() - 6))
}
