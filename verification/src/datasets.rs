//! Adding datasets: where their files go, what is recorded about them, and
//! how a HuggingFace dataset link is turned into file downloads.

use vstd::prelude::*;
use crate::ids::{is_utc_rfc3339, is_v4_uuid_text, new_uuid, now_rfc3339};
use crate::models::Dataset;
use crate::text::{
    chars_of, contains, contains_pat, extend_chars, find_first, occurs_at, split_by, split_chars,
    str_is, string_of, trim_end_char, trim_end_matching, views,
};

verus! {

// ---------------------------------------------------------------------------
// Errors
// ---------------------------------------------------------------------------

/// Why a dataset operation was refused.
#[derive(Debug, Clone, Copy, PartialEq, Eq, Structural)]
pub enum DatasetError {
    /// The link names no HuggingFace repository.
    UnparsableRepoId,
    /// The HuggingFace repository lists no files.
    NoFilesInRepo,
    /// None of the repository's files could be fetched.
    NothingDownloaded,
    /// No dataset has the given id.
    DatasetNotFound,
    /// The dataset's directory does not exist.
    DirectoryNotFound,
    /// The dataset holds no parquet file.
    NoParquetFiles,
}

impl DatasetError {
    /// The message the server reports for this error.
    pub fn message(&self) -> (m: String)
        ensures
            m@ == error_message(*self),
    {
        let s = match self {
            DatasetError::UnparsableRepoId => "Could not parse HuggingFace repo ID from URL",
            DatasetError::NoFilesInRepo => "No files found in this HuggingFace dataset",
            DatasetError::NothingDownloaded =>
                "Could not download any files (dataset may require authentication)",
            DatasetError::DatasetNotFound => "Dataset not found",
            DatasetError::DirectoryNotFound => "Dataset directory not found",
            DatasetError::NoParquetFiles => "No parquet files found in dataset",
        };
        string_of(chars_of(s).as_slice())
    }
}

/// The message of each error.
pub open spec fn error_message(e: DatasetError) -> Seq<char> {
    match e {
        DatasetError::UnparsableRepoId => "Could not parse HuggingFace repo ID from URL"@,
        DatasetError::NoFilesInRepo => "No files found in this HuggingFace dataset"@,
        DatasetError::NothingDownloaded =>
            "Could not download any files (dataset may require authentication)"@,
        DatasetError::DatasetNotFound => "Dataset not found"@,
        DatasetError::DirectoryNotFound => "Dataset directory not found"@,
        DatasetError::NoParquetFiles => "No parquet files found in dataset"@,
    }
}

// ---------------------------------------------------------------------------
// Paths and links
// ---------------------------------------------------------------------------

/// The directory that holds the files of dataset `id`.
pub open spec fn dataset_dir_of(id: Seq<char>) -> Seq<char> {
    "data/datasets/"@ + id
}

/// `name` inside directory `dir`.
pub open spec fn path_in(dir: Seq<char>, name: Seq<char>) -> Seq<char> {
    dir + seq!['/'] + name
}

/// The part of a link that marks a HuggingFace dataset.
pub open spec fn hf_marker() -> Seq<char> {
    "huggingface.co/datasets/"@
}

/// The first index at which `p` occurs in `s` (meaningful when it occurs).
pub open spec fn first_index(s: Seq<char>, p: Seq<char>) -> int {
    choose|i: int| occurs_at(s, p, i) && forall|j: int| 0 <= j < i ==> !occurs_at(s, p, j)
}

/// The repository id in the part of a link after the marker: trailing
/// slashes dropped, then the first path segment, or the first two joined by `/`.
pub open spec fn repo_id_from(after: Seq<char>) -> Seq<char> {
    let parts = split_by(trim_end_char(after, '/'), '/');
    if parts.len() <= 1 {
        parts[0]
    } else {
        parts[0] + seq!['/'] + parts[1]
    }
}

/// The HuggingFace repository id a link names, e.g. `ylecun/mnist`.
pub open spec fn hf_repo_id_of(url: Seq<char>) -> Option<Seq<char>> {
    if contains_pat(url, hf_marker()) {
        Some(repo_id_from(url.skip(first_index(url, hf_marker()) + hf_marker().len())))
    } else {
        None
    }
}

/// The name under which a downloaded link is stored.
pub open spec fn download_file_name_of(url: Seq<char>) -> Seq<char> {
    if contains_pat(url, hf_marker()) {
        "huggingface_dataset"@
    } else if split_by(url, '/').last().len() > 0 {
        split_by(url, '/').last()
    } else {
        "dataset"@
    }
}

/// The directory that holds the files of dataset `id`: `data/datasets/{id}`.
pub fn dataset_dir(id: &str) -> (d: String)
    ensures
        d@ == dataset_dir_of(id@),
{
    let mut out = chars_of("data/datasets/");
    extend_chars(&mut out, chars_of(id).as_slice());
    string_of(out.as_slice())
}

/// `name` inside directory `dir`: `{dir}/{name}`.
pub fn path_join(dir: &str, name: &str) -> (p: String)
    ensures
        p@ == path_in(dir@, name@),
{
    let mut out = chars_of(dir);
    out.push('/');
    extend_chars(&mut out, chars_of(name).as_slice());
    string_of(out.as_slice())
}

/// Whether a link points at a HuggingFace dataset.
pub fn is_huggingface_url(url: &str) -> (b: bool)
    ensures
        b == contains_pat(url@, hf_marker()),
{
    contains(chars_of(url).as_slice(), chars_of("huggingface.co/datasets/").as_slice())
}

/// The repository id (e.g. `ylecun/mnist`) a HuggingFace dataset link names.
pub fn parse_hf_repo_id(url: &str) -> (r: Option<String>)
    ensures
        match r {
            Some(id) => hf_repo_id_of(url@) == Some(id@),
            None => hf_repo_id_of(url@) is None,
        },
{
    let u = chars_of(url);
    let marker = chars_of("huggingface.co/datasets/");
    match find_first(u.as_slice(), marker.as_slice()) {
        None => None,
        Some(idx) => {
            proof {
                assert(occurs_at(u@, marker@, idx as int) && forall|j: int|
                    0 <= j < idx ==> !occurs_at(u@, marker@, j));
                let i = first_index(u@, marker@);
                assert(occurs_at(u@, marker@, i) && forall|j: int|
                    0 <= j < i ==> !occurs_at(u@, marker@, j));
                if i < idx {
                    assert(!occurs_at(u@, marker@, i));
                }
                if i > idx {
                    assert(!occurs_at(u@, marker@, idx as int));
                }
                assert(first_index(u@, marker@) == idx as int);
                assert(contains_pat(u@, marker@));
            }
            let ml = marker.len();
            let ul = u.len();
            assert(idx + ml <= ul);
            let start = idx + ml;
            let after = crate::text::slice_chars(u.as_slice(), start, u.len());
            assert(after@ == u@.skip(idx + marker@.len()));
            let clean = trim_end_matching(after.as_slice(), '/');
            let parts = split_chars(clean.as_slice(), '/');
            let mut id: Vec<char> = Vec::new();
            assert(views(parts@)[0] == parts@[0]@);
            if parts.len() <= 1 {
                extend_chars(&mut id, parts[0].as_slice());
            } else {
                assert(views(parts@)[1] == parts@[1]@);
                extend_chars(&mut id, parts[0].as_slice());
                id.push('/');
                extend_chars(&mut id, parts[1].as_slice());
            }
            Some(string_of(id.as_slice()))
        },
    }
}

/// The name under which a downloaded link is stored: `huggingface_dataset`
/// for HuggingFace links, else the last path segment of the link, or
/// `dataset` when that is empty.
pub fn download_file_name(url: &str) -> (n: String)
    ensures
        n@ == download_file_name_of(url@),
{
    if is_huggingface_url(url) {
        return string_of(chars_of("huggingface_dataset").as_slice());
    }
    let parts = split_chars(chars_of(url).as_slice(), '/');
    let last = &parts[parts.len() - 1];
    assert(views(parts@).last() == last@);
    if last.len() > 0 {
        string_of(last.as_slice())
    } else {
        string_of(chars_of("dataset").as_slice())
    }
}

/// The Hub API address that lists every file of a repository.
pub open spec fn hf_tree_url_of(repo: Seq<char>) -> Seq<char> {
    "https://huggingface.co/api/datasets/"@ + repo + "/tree/main?recursive=true"@
}

/// The address from which one file of a repository is fetched.
pub open spec fn hf_resolve_url_of(repo: Seq<char>, path: Seq<char>) -> Seq<char> {
    "https://huggingface.co/datasets/"@ + repo + "/resolve/main/"@ + path
}

/// The Hub API address that lists every file of `repo`.
pub fn hf_tree_url(repo: &str) -> (u: String)
    ensures
        u@ == hf_tree_url_of(repo@),
{
    let mut out = chars_of("https://huggingface.co/api/datasets/");
    extend_chars(&mut out, chars_of(repo).as_slice());
    extend_chars(&mut out, chars_of("/tree/main?recursive=true").as_slice());
    string_of(out.as_slice())
}

/// The address from which the file `path` of `repo` is fetched.
pub fn hf_resolve_url(repo: &str, path: &str) -> (u: String)
    ensures
        u@ == hf_resolve_url_of(repo@, path@),
{
    let mut out = chars_of("https://huggingface.co/datasets/");
    extend_chars(&mut out, chars_of(repo).as_slice());
    extend_chars(&mut out, chars_of("/resolve/main/").as_slice());
    extend_chars(&mut out, chars_of(path).as_slice());
    string_of(out.as_slice())
}

/// One entry of a Hub file listing.
#[derive(Debug, Clone, PartialEq)]
pub struct HfTreeEntry {
    /// `file` or `directory`.
    pub entry_type: String,
    /// The path inside the repository.
    pub path: String,
}

/// The paths of the listing's entries that are files, in listing order.
pub open spec fn file_paths_of(entries: Seq<HfTreeEntry>) -> Seq<Seq<char>>
    decreases entries.len(),
{
    if entries.len() == 0 {
        Seq::<Seq<char>>::empty()
    } else if entries.last().entry_type@ == "file"@ {
        file_paths_of(entries.drop_last()).push(entries.last().path@)
    } else {
        file_paths_of(entries.drop_last())
    }
}

/// The files to fetch from a repository listing; a listing without files is
/// refused.
pub fn hf_files_to_fetch(entries: &Vec<HfTreeEntry>) -> (r: Result<Vec<String>, DatasetError>)
    ensures
        match r {
            Ok(paths) => paths@.len() > 0 && crate::store::string_views(paths@) == file_paths_of(
                entries@,
            ),
            Err(e) => e == DatasetError::NoFilesInRepo && file_paths_of(entries@).len() == 0,
        },
{
    let mut paths: Vec<String> = Vec::new();
    let mut i: usize = 0;
    while i < entries.len()
        invariant
            i <= entries@.len(),
            crate::store::string_views(paths@) == file_paths_of(entries@.take(i as int)),
        decreases entries.len() - i,
    {
        assert(entries@.take(i + 1).drop_last() == entries@.take(i as int));
        if str_is(entries[i].entry_type.as_str(), "file") {
            paths.push(entries[i].path.clone());
            assert(crate::store::string_views(paths@) =~= file_paths_of(entries@.take(i as int)).push(
                entries@[i as int].path@,
            ));
        }
        i += 1;
    }
    assert(entries@.take(entries.len() as int) == entries@);
    if paths.len() == 0 {
        Err(DatasetError::NoFilesInRepo)
    } else {
        Ok(paths)
    }
}

/// The sum of the sizes of the files that were fetched (`None` for a file
/// that was skipped).
pub open spec fn fetched_total(sizes: Seq<Option<u64>>) -> int
    decreases sizes.len(),
{
    if sizes.len() == 0 {
        0
    } else {
        fetched_total(sizes.drop_last()) + match sizes.last() {
            Some(n) => n as int,
            None => 0,
        }
    }
}

proof fn lemma_fetched_total_monotone(sizes: Seq<Option<u64>>, i: int)
    requires
        0 <= i <= sizes.len(),
    ensures
        0 <= fetched_total(sizes.take(i)) <= fetched_total(sizes),
    decreases sizes.len(),
{
    if sizes.len() > 0 {
        if i == sizes.len() {
            assert(sizes.take(i) == sizes);
            lemma_fetched_total_monotone(sizes.drop_last(), i - 1);
        } else {
            assert(sizes.drop_last().take(i) == sizes.take(i));
            lemma_fetched_total_monotone(sizes.drop_last(), i);
        }
    }
}

/// The size recorded for a HuggingFace download: the total of the fetched
/// files; nothing fetched is an error.
pub fn hf_download_total(sizes: &Vec<Option<u64>>) -> (r: Result<u64, DatasetError>)
    requires
        fetched_total(sizes@) <= u64::MAX,
    ensures
        match r {
            Ok(total) => total == fetched_total(sizes@) && total > 0,
            Err(e) => e == DatasetError::NothingDownloaded && fetched_total(sizes@) == 0,
        },
{
    let mut total: u64 = 0;
    let mut i: usize = 0;
    while i < sizes.len()
        invariant
            i <= sizes@.len(),
            total == fetched_total(sizes@.take(i as int)),
            fetched_total(sizes@) <= u64::MAX,
        decreases sizes.len() - i,
    {
        assert(sizes@.take(i + 1).drop_last() == sizes@.take(i as int));
        proof {
            lemma_fetched_total_monotone(sizes@, i + 1);
        }
        if let Some(n) = sizes[i] {
            total = total + n;
        }
        i += 1;
    }
    assert(sizes@.take(sizes.len() as int) == sizes@);
    if total == 0 {
        Err(DatasetError::NothingDownloaded)
    } else {
        Ok(total)
    }
}

// ---------------------------------------------------------------------------
// New dataset records
// ---------------------------------------------------------------------------

/// Where the files of a new dataset go.
#[derive(Debug, Clone, PartialEq)]
pub struct StoragePlan {
    pub id: String,
    pub dir: String,
    pub file_path: String,
}

/// The user-supplied description of a new dataset.
#[derive(Debug, Clone, PartialEq)]
pub struct DatasetFields {
    pub name: String,
    pub description: String,
    pub dataset_type: String,
    pub tags: Vec<String>,
    pub format: String,
    pub num_samples: Option<u64>,
    pub num_classes: Option<u32>,
}

/// A fresh dataset id and the places of its directory and of the file
/// `file_name` in it.
pub fn plan_storage(file_name: &str) -> (p: StoragePlan)
    ensures
        is_v4_uuid_text(p.id@),
        p.dir@ == dataset_dir_of(p.id@),
        p.file_path@ == path_in(dataset_dir_of(p.id@), file_name@),
{
    let id = new_uuid();
    let dir = dataset_dir(id.as_str());
    let file_path = path_join(dir.as_str(), file_name);
    StoragePlan { id, dir, file_path }
}

/// The fields of a dataset record agree with what the user supplied.
pub open spec fn carries_fields(d: Dataset, f: DatasetFields) -> bool {
    &&& d.name@ == f.name@
    &&& d.description@ == f.description@
    &&& d.dataset_type@ == f.dataset_type@
    &&& d.tags == f.tags
    &&& d.format@ == f.format@
    &&& d.num_samples == f.num_samples
    &&& d.num_classes == f.num_classes
}

/// The record of an uploaded dataset: stored at the plan's place, `local`
/// source, `ready`, sized by the uploaded bytes, created now.
pub fn uploaded_dataset(plan: StoragePlan, fields: DatasetFields, uploaded_len: usize) -> (d:
    Dataset)
    ensures
        carries_fields(d, fields),
        d.id == plan.id,
        d.file_path == plan.file_path,
        d.file_size == uploaded_len,
        d.source@ == "local"@,
        d.status@ == "ready"@,
        is_utc_rfc3339(d.created_at@),
{
    Dataset {
        id: plan.id,
        name: fields.name,
        dataset_type: fields.dataset_type,
        description: fields.description,
        tags: fields.tags,
        format: fields.format,
        num_samples: fields.num_samples,
        num_classes: fields.num_classes,
        file_size: uploaded_len as u64,
        source: string_of(chars_of("local").as_slice()),
        file_path: plan.file_path,
        created_at: now_rfc3339(),
        status: string_of(chars_of("ready").as_slice()),
    }
}

/// The record written before a link is downloaded: the link is the source,
/// the size is 0 and the status `downloading`.
pub fn downloading_dataset(plan: StoragePlan, fields: DatasetFields, url: &str) -> (d: Dataset)
    ensures
        carries_fields(d, fields),
        d.id == plan.id,
        d.file_path == plan.file_path,
        d.file_size == 0,
        d.source@ == url@,
        d.status@ == "downloading"@,
        is_utc_rfc3339(d.created_at@),
{
    Dataset {
        id: plan.id,
        name: fields.name,
        dataset_type: fields.dataset_type,
        description: fields.description,
        tags: fields.tags,
        format: fields.format,
        num_samples: fields.num_samples,
        num_classes: fields.num_classes,
        file_size: 0,
        source: string_of(chars_of(url).as_slice()),
        file_path: plan.file_path,
        created_at: now_rfc3339(),
        status: string_of(chars_of("downloading").as_slice()),
    }
}

/// The status (and size) a download leaves on its record: `ready` with the
/// downloaded size, or `error` (whatever the failure) with the size untouched.
pub fn status_after_download<E>(outcome: Result<u64, E>) -> (r: (String, Option<u64>))
    ensures
        match outcome {
            Ok(n) => r.0@ == "ready"@ && r.1 == Some(n),
            Err(_) => r.0@ == "error"@ && r.1 is None,
        },
{
    match outcome {
        Ok(n) => (string_of(chars_of("ready").as_slice()), Some(n)),
        Err(_) => (string_of(chars_of("error").as_slice()), None),
    }
}

} // verus!
