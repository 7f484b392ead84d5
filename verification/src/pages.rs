//! What the pages compute from the user's input and from the records they
//! show: form checks, the dashboard figures, card labels and the viewer's
//! paging.

use vstd::prelude::*;
use crate::models::{
    div_round_half_even, fixed_1, human_size, nearest_double, nearest_f64, push_fixed_1,
    round_half_even_div, same_dataset, size_label, Dataset, DatasetViewerPage, ExecutionResult,
    Workspace,
};
use crate::preview::{all_digits, digits_up_to, digits_value};
use crate::store::{newest_first, sort_newest_first, string_views, with_stamp};
use crate::workspaces::{empty_result_with, error_only};
use crate::text::{
    chars_of, decimal, decimal_chars, extend_chars, push_decimal, replace_all, replace_chars, slice_chars,
    split_by, split_chars, str_is, string_of, trim, trim_chars, views,
};

verus! {

// ---------------------------------------------------------------------------
// Forms
// ---------------------------------------------------------------------------

/// Why a form was not submitted.
#[derive(Debug, Clone, Copy, PartialEq, Eq, Structural)]
pub enum FormError {
    NameRequired,
    FileRequired,
    UrlRequired,
    DatasetRequired,
}

/// The message a form shows for each error.
pub open spec fn form_error_text(e: FormError) -> Seq<char> {
    match e {
        FormError::NameRequired => "Name is required"@,
        FormError::FileRequired => "Please select a file"@,
        FormError::UrlRequired => "URL is required"@,
        FormError::DatasetRequired => "Please select a dataset"@,
    }
}

impl FormError {
    /// The message the form shows.
    pub fn message(&self) -> (m: String)
        ensures
            m@ == form_error_text(*self),
    {
        let s = match self {
            FormError::NameRequired => "Name is required",
            FormError::FileRequired => "Please select a file",
            FormError::UrlRequired => "URL is required",
            FormError::DatasetRequired => "Please select a dataset",
        };
        string_of(chars_of(s).as_slice())
    }
}

/// The non-empty trimmed pieces, in order.
pub open spec fn nonempty_trimmed(pieces: Seq<Seq<char>>) -> Seq<Seq<char>>
    decreases pieces.len(),
{
    if pieces.len() == 0 {
        Seq::<Seq<char>>::empty()
    } else if trim(pieces.last()).len() > 0 {
        nonempty_trimmed(pieces.drop_last()).push(trim(pieces.last()))
    } else {
        nonempty_trimmed(pieces.drop_last())
    }
}

/// The tags typed as a comma-separated list: each trimmed, empty ones dropped.
pub open spec fn tags_of(input: Seq<char>) -> Seq<Seq<char>> {
    nonempty_trimmed(split_by(input, ','))
}

/// The tags typed as a comma-separated list.
pub fn parse_tags(input: &str) -> (tags: Vec<String>)
    ensures
        string_views(tags@) == tags_of(input@),
{
    let pieces = split_chars(chars_of(input).as_slice(), ',');
    let ghost pv = views(pieces@);
    let mut tags: Vec<String> = Vec::new();
    let mut i: usize = 0;
    while i < pieces.len()
        invariant
            i <= pieces@.len(),
            pv == views(pieces@),
            pv == split_by(input@, ','),
            string_views(tags@) == nonempty_trimmed(pv.take(i as int)),
        decreases pieces.len() - i,
    {
        assert(pv.take(i + 1).drop_last() == pv.take(i as int));
        assert(pv.take(i + 1).last() == pieces@[i as int]@);
        let t = trim_chars(pieces[i].as_slice());
        if t.len() > 0 {
            let s = string_of(t.as_slice());
            tags.push(s);
            assert(string_views(tags@) =~= nonempty_trimmed(pv.take(i as int)).push(t@));
        }
        i += 1;
    }
    assert(pv.take(pieces.len() as int) == pv);
    tags
}

/// What `str::parse` gives for an unsigned integer type whose largest value
/// is `max`: an optional `+`, then decimal digits whose value is at most `max`.
pub open spec fn parse_unsigned_of(s: Seq<char>, max: int) -> Option<int> {
    let body = if s.len() > 0 && s[0] == '+' {
        s.drop_first()
    } else {
        s
    };
    if all_digits(body) && digits_value(body) <= max {
        Some(digits_value(body))
    } else {
        None
    }
}

fn parse_unsigned(s: &str, max: u128) -> (r: Option<u128>)
    requires
        max <= 0xFFFF_FFFF_FFFF_FFFF,
    ensures
        match r {
            Some(v) => parse_unsigned_of(s@, max as int) == Some(v as int) && v <= max,
            None => parse_unsigned_of(s@, max as int) is None,
        },
{
    let c = chars_of(s);
    let from: usize = if c.len() > 0 && c[0] == '+' {
        1
    } else {
        0
    };
    assert(c@.skip(1) == c@.drop_first());
    assert(c@.skip(0) == c@);
    digits_up_to(c.as_slice(), from, max)
}

/// A number typed into a form (`parse::<u64>().ok()`).
pub fn parse_u64_field(s: &str) -> (r: Option<u64>)
    ensures
        match r {
            Some(v) => parse_unsigned_of(s@, u64::MAX as int) == Some(v as int),
            None => parse_unsigned_of(s@, u64::MAX as int) is None,
        },
{
    match parse_unsigned(s, 0xFFFF_FFFF_FFFF_FFFF) {
        Some(v) => Some(v as u64),
        None => None,
    }
}

/// A number typed into a form (`parse::<u32>().ok()`).
pub fn parse_u32_field(s: &str) -> (r: Option<u32>)
    ensures
        match r {
            Some(v) => parse_unsigned_of(s@, u32::MAX as int) == Some(v as int),
            None => parse_unsigned_of(s@, u32::MAX as int) is None,
        },
{
    match parse_unsigned(s, 0xFFFF_FFFF) {
        Some(v) => Some(v as u32),
        None => None,
    }
}

/// What the dataset form submits.
#[derive(Debug, Clone, PartialEq)]
pub struct DatasetSubmission {
    pub name: String,
    pub tags: Vec<String>,
    pub num_samples: Option<u64>,
    pub num_classes: Option<u32>,
    /// The trimmed link, when the dataset is downloaded from one.
    pub url: Option<String>,
}

/// Checks the dataset form: a name is required; an upload needs a file; a
/// download needs a link. Names and links are trimmed, tags split, counts
/// parsed (unreadable counts are left out).
pub fn check_dataset_form(
    name: &str,
    tags_input: &str,
    samples_input: &str,
    classes_input: &str,
    is_upload: bool,
    file_len: usize,
    url: &str,
) -> (r: Result<DatasetSubmission, FormError>)
    ensures
        match r {
            Ok(sub) => {
                &&& trim(name@).len() > 0
                &&& sub.name@ == trim(name@)
                &&& string_views(sub.tags@) == tags_of(tags_input@)
                &&& (match sub.num_samples {
                    Some(v) => parse_unsigned_of(samples_input@, u64::MAX as int) == Some(v as int),
                    None => parse_unsigned_of(samples_input@, u64::MAX as int) is None,
                })
                &&& (match sub.num_classes {
                    Some(v) => parse_unsigned_of(classes_input@, u32::MAX as int) == Some(v as int),
                    None => parse_unsigned_of(classes_input@, u32::MAX as int) is None,
                })
                &&& (is_upload ==> file_len > 0 && sub.url is None)
                &&& (!is_upload ==> trim(url@).len() > 0 && sub.url is Some && sub.url->0@ == trim(url@))
            },
            Err(e) => {
                &&& trim(name@).len() == 0 ==> e == FormError::NameRequired
                &&& trim(name@).len() > 0 && is_upload ==> e == FormError::FileRequired && file_len == 0
                &&& trim(name@).len() > 0 && !is_upload ==> e == FormError::UrlRequired && trim(url@).len() == 0
            },
        },
{
    let n = trim_chars(chars_of(name).as_slice());
    if n.len() == 0 {
        return Err(FormError::NameRequired);
    }
    let tags = parse_tags(tags_input);
    let num_samples = parse_u64_field(samples_input);
    let num_classes = parse_u32_field(classes_input);
    let url_value = if is_upload {
        if file_len == 0 {
            return Err(FormError::FileRequired);
        }
        None
    } else {
        let u = trim_chars(chars_of(url).as_slice());
        if u.len() == 0 {
            return Err(FormError::UrlRequired);
        }
        Some(string_of(u.as_slice()))
    };
    Ok(DatasetSubmission { name: string_of(n.as_slice()), tags, num_samples, num_classes, url: url_value })
}

/// Checks the new-workspace form: a name and a dataset are required; both
/// are trimmed.
pub fn check_workspace_form(name: &str, dataset_id: &str) -> (r: Result<(String, String), FormError>)
    ensures
        match r {
            Ok((n, d)) => trim(name@).len() > 0 && trim(dataset_id@).len() > 0 && n@ == trim(name@) && d@ == trim(dataset_id@),
            Err(e) => if trim(name@).len() == 0 {
                e == FormError::NameRequired
            } else {
                e == FormError::DatasetRequired && trim(dataset_id@).len() == 0
            },
        },
{
    let n = trim_chars(chars_of(name).as_slice());
    let d = trim_chars(chars_of(dataset_id).as_slice());
    if n.len() == 0 {
        return Err(FormError::NameRequired);
    }
    if d.len() == 0 {
        return Err(FormError::DatasetRequired);
    }
    Ok((string_of(n.as_slice()), string_of(d.as_slice())))
}

/// The size of the chosen file as the upload form shows it: bytes below
/// 1 KiB, then KB or MB with one decimal, rounded half to even as `{:.1}`
/// rounds the `f64` quotient.
pub open spec fn upload_size_text(n: nat) -> Seq<char> {
    if n < 1024 {
        decimal(n) + " B"@
    } else if n < 1048576 {
        fixed_1(round_half_even_div(n * 10, 1024)) + " KB"@
    } else {
        fixed_1(round_half_even_div(nearest_f64(n) * 10, 1048576)) + " MB"@
    }
}

/// The size of the chosen file as the upload form shows it.
pub fn upload_size_label(n: usize) -> (s: String)
    ensures
        s@ == upload_size_text(n as nat),
{
    let mut out: Vec<char> = Vec::new();
    if n < 1024 {
        push_decimal(&mut out, n as u128);
        extend_chars(&mut out, chars_of(" B").as_slice());
    } else if n < 1048576 {
        let v = div_round_half_even(n as u128 * 10, 1024);
        push_fixed_1(&mut out, v);
        extend_chars(&mut out, chars_of(" KB").as_slice());
    } else {
        let d = nearest_double(n as u64);
        let v = div_round_half_even(d * 10, 1048576);
        push_fixed_1(&mut out, v);
        extend_chars(&mut out, chars_of(" MB").as_slice());
    }
    string_of(out.as_slice())
}

// ---------------------------------------------------------------------------
// Dashboard
// ---------------------------------------------------------------------------

/// The total of the file sizes.
pub open spec fn total_size_of(list: Seq<Dataset>) -> int
    decreases list.len(),
{
    if list.len() == 0 {
        0
    } else {
        total_size_of(list.drop_last()) + list.last().file_size
    }
}

/// The number of datasets whose status is `ready`.
pub open spec fn ready_count_of(list: Seq<Dataset>) -> int
    decreases list.len(),
{
    if list.len() == 0 {
        0
    } else {
        ready_count_of(list.drop_last()) + if list.last().status@ == "ready"@ {
            1int
        } else {
            0
        }
    }
}

proof fn lemma_total_prefix(list: Seq<Dataset>, i: int)
    requires
        0 <= i <= list.len(),
    ensures
        0 <= total_size_of(list.take(i)) <= total_size_of(list),
    decreases list.len(),
{
    if list.len() > 0 {
        if i == list.len() {
            assert(list.take(i) == list);
            lemma_total_prefix(list.drop_last(), i - 1);
        } else {
            assert(list.drop_last().take(i) == list.take(i));
            lemma_total_prefix(list.drop_last(), i);
        }
    }
}

/// The dataset figures of the dashboard.
pub struct DatasetFigures {
    pub total: usize,
    pub ready: usize,
    pub total_size: u64,
    /// The total size as shown, e.g. `"1.5 KB"`.
    pub size_label: String,
    /// The five most recently created datasets: the first five of the
    /// newest-first listing, in its order.
    pub recent: Vec<Dataset>,
}

/// The dataset figures of the dashboard: how many datasets there are, how
/// many are ready, their total size, and the recent datasets (the first five
/// of the listing, which comes newest first).
pub fn dataset_figures(list: &Vec<Dataset>) -> (f: DatasetFigures)
    requires
        total_size_of(list@) <= u64::MAX,
    ensures
        f.total == list@.len(),
        f.ready == ready_count_of(list@),
        f.total_size == total_size_of(list@),
        f.size_label@ == human_size(f.total_size as nat),
        f.recent@.len() == if list@.len() < 5 { list@.len() as int } else { 5 },
        forall|k: int| 0 <= k < f.recent@.len() ==> same_dataset(#[trigger] f.recent@[k], list@[k]),
{
    let mut ready: usize = 0;
    let mut total: u64 = 0;
    let mut i: usize = 0;
    while i < list.len()
        invariant
            i <= list@.len(),
            ready == ready_count_of(list@.take(i as int)),
            ready <= i,
            total == total_size_of(list@.take(i as int)),
            total_size_of(list@) <= u64::MAX,
        decreases list.len() - i,
    {
        assert(list@.take(i + 1).drop_last() == list@.take(i as int));
        proof {
            lemma_total_prefix(list@, i + 1);
        }
        if str_is(list[i].status.as_str(), "ready") {
            ready += 1;
        }
        total = total + list[i].file_size;
        i += 1;
    }
    assert(list@.take(list.len() as int) == list@);
    let mut recent: Vec<Dataset> = Vec::new();
    let mut k: usize = 0;
    while k < list.len() && k < 5
        invariant
            k <= list@.len(),
            k <= 5,
            recent@.len() == k,
            forall|j: int| 0 <= j < k ==> same_dataset(#[trigger] recent@[j], list@[j]),
        decreases list.len() - k,
    {
        recent.push(list[k].duplicate());
        k += 1;
    }
    DatasetFigures { total: list.len(), ready, total_size: total, size_label: size_label(total), recent }
}

/// The workspace figures of the dashboard: how many workspaces there are,
/// and the first five after a stable sort by last update, latest first.
pub fn workspace_figures(list: Vec<Workspace>) -> (r: (usize, Vec<Workspace>))
    ensures
        r.0 == list@.len(),
        r.1@.len() == if list@.len() < 5 { list@.len() as int } else { 5 },
        exists|sorted: Seq<Workspace>|
            #![trigger sorted.to_multiset()]
            sorted.to_multiset() == list@.to_multiset() && newest_first(sorted)
                && (forall|k: Seq<char>| #[trigger] with_stamp(sorted, k) == with_stamp(list@, k))
                && r.1@ == sorted.take(r.1@.len() as int),
        newest_first(list@) ==> r.1@ == list@.take(r.1@.len() as int),
{
    let count = list.len();
    let ghost input = list@;
    let mut sorted = sort_newest_first(list);
    let ghost all = sorted@;
    let keep: usize = if sorted.len() < 5 {
        sorted.len()
    } else {
        5
    };
    sorted.truncate(keep);
    assert(sorted@ == all.take(keep as int));
    proof {
        if newest_first(input) {
            assert(all == input);
        }
    }
    (count, sorted)
}

// ---------------------------------------------------------------------------
// Cards
// ---------------------------------------------------------------------------

/// The date a dataset card shows: the first ten characters of the timestamp.
pub fn card_date(created_at: &str) -> (d: String)
    ensures
        d@ == if created_at@.len() < 10 { created_at@ } else { created_at@.take(10) },
{
    let c = chars_of(created_at);
    let n = if c.len() < 10 {
        c.len()
    } else {
        10
    };
    let r = slice_chars(c.as_slice(), 0, n);
    assert(c@.subrange(0, n as int) == if c@.len() < 10 { c@ } else { c@.take(10) });
    string_of(r.as_slice())
}

/// How many tags a card leaves out after showing three.
pub fn hidden_tag_count(tags: &Vec<String>) -> (n: Option<usize>)
    ensures
        tags@.len() > 3 ==> n == Some((tags@.len() - 3) as usize),
        tags@.len() <= 3 ==> n is None,
{
    if tags.len() > 3 {
        Some(tags.len() - 3)
    } else {
        None
    }
}

/// The date a workspace card shows: the timestamp up to its `T`.
pub fn date_part(timestamp: &str) -> (d: String)
    ensures
        d@ == split_by(timestamp@, 'T')[0],
{
    let pieces = split_chars(chars_of(timestamp).as_slice(), 'T');
    assert(views(pieces@)[0] == pieces@[0]@);
    string_of(pieces[0].as_slice())
}

/// The number on the XAI tab: the XAI plots, plus one for the XAI table.
pub fn xai_item_count(r: &ExecutionResult) -> (n: usize)
    requires
        r.xai_plots@.len() < usize::MAX,
    ensures
        n == r.xai_plots@.len() + if r.xai_html is Some { 1int } else { 0 },
{
    r.xai_plots.len() + if r.xai_html.is_some() {
        1
    } else {
        0
    }
}

/// The badge on an output tab: the number of plots, `1` for a table, the
/// number of XAI items; no badge on a tab with nothing to show.
pub open spec fn tab_badge_of(r: ExecutionResult, tab: Seq<char>) -> Option<int> {
    if tab == "plots"@ {
        if r.plots@.len() > 0 {
            Some(r.plots@.len() as int)
        } else {
            None
        }
    } else if tab == "table"@ {
        if r.table_html is Some {
            Some(1)
        } else {
            None
        }
    } else if tab == "xai"@ {
        if r.xai_plots@.len() > 0 || r.xai_html is Some {
            Some(r.xai_plots@.len() + if r.xai_html is Some { 1int } else { 0 })
        } else {
            None
        }
    } else {
        None
    }
}

/// The badge on an output tab.
pub fn tab_badge(r: &ExecutionResult, tab: &str) -> (b: Option<usize>)
    requires
        r.xai_plots@.len() < usize::MAX,
    ensures
        match b {
            Some(n) => tab_badge_of(*r, tab@) == Some(n as int),
            None => tab_badge_of(*r, tab@) is None,
        },
{
    if str_is(tab, "plots") {
        if r.plots.len() > 0 {
            Some(r.plots.len())
        } else {
            None
        }
    } else if str_is(tab, "table") {
        if r.table_html.is_some() {
            Some(1)
        } else {
            None
        }
    } else if str_is(tab, "xai") {
        if r.xai_plots.len() > 0 || r.xai_html.is_some() {
            Some(xai_item_count(r))
        } else {
            None
        }
    } else {
        None
    }
}

/// The note the output panel shows in place of output: while the code runs,
/// before any run, or on a tab with nothing to show.
pub open spec fn output_note_of(running: bool, result: Option<ExecutionResult>, tab: Seq<char>) -> Option<Seq<char>> {
    if running {
        Some("Executing Python code..."@)
    } else {
        match result {
            None => Some("Click \"\u{25b6} Run\" to execute your code"@),
            Some(r) => if tab == "console"@ {
                if r.stdout@.len() == 0 && r.stderr@.len() == 0 {
                    Some("No console output"@)
                } else {
                    None
                }
            } else if tab == "plots"@ {
                if r.plots@.len() == 0 {
                    Some("No plots generated. Use plt.show() to display plots."@)
                } else {
                    None
                }
            } else if tab == "table"@ {
                if r.table_html is None {
                    Some("No table output. Assign a DataFrame to a variable to see it here."@)
                } else {
                    None
                }
            } else if tab == "xai"@ {
                if r.xai_plots@.len() == 0 && r.xai_html is None {
                    Some("No XAI output. Use the FL Config panel to generate code with Explainable AI analysis."@)
                } else {
                    None
                }
            } else {
                None
            },
        }
    }
}

/// The note the output panel shows in place of output, if any.
pub fn output_note(running: bool, result: &Option<ExecutionResult>, tab: &str) -> (n: Option<&'static str>)
    ensures
        match n {
            Some(s) => output_note_of(running, *result, tab@) == Some(s@),
            None => output_note_of(running, *result, tab@) is None,
        },
{
    if running {
        return Some("Executing Python code...");
    }
    match result {
        None => Some("Click \"\u{25b6} Run\" to execute your code"),
        Some(r) => {
            if str_is(tab, "console") {
                if r.stdout.as_str().is_empty() && r.stderr.as_str().is_empty() {
                    Some("No console output")
                } else {
                    None
                }
            } else if str_is(tab, "plots") {
                if r.plots.len() == 0 {
                    Some("No plots generated. Use plt.show() to display plots.")
                } else {
                    None
                }
            } else if str_is(tab, "table") {
                if r.table_html.is_none() {
                    Some("No table output. Assign a DataFrame to a variable to see it here.")
                } else {
                    None
                }
            } else if str_is(tab, "xai") {
                if r.xai_plots.len() == 0 && r.xai_html.is_none() {
                    Some(
                        "No XAI output. Use the FL Config panel to generate code with Explainable AI analysis.",
                    )
                } else {
                    None
                }
            } else {
                None
            }
        },
    }
}

/// The image source of a plot: its base64 PNG as a data URL.
pub fn plot_src(plot: &str) -> (s: String)
    ensures
        s@ == "data:image/png;base64,"@ + plot@,
{
    let mut out = chars_of("data:image/png;base64,");
    extend_chars(&mut out, chars_of(plot).as_slice());
    string_of(out.as_slice())
}

/// What the editor shows when the run request itself failed.
pub fn server_error_result(err: &str) -> (r: ExecutionResult)
    ensures
        error_only(r, "Server error: "@ + err@),
{
    let mut m = chars_of("Server error: ");
    extend_chars(&mut m, chars_of(err).as_slice());
    empty_result_with(string_of(m.as_slice()))
}

/// What the detail page shows as a dataset's source: `Local upload` for an
/// uploaded file, else the link it came from.
pub fn source_label(source: &str) -> (s: String)
    ensures
        s@ == if source@ == "local"@ { "Local upload"@ } else { source@ },
{
    if str_is(source, "local") {
        string_of(chars_of("Local upload").as_slice())
    } else {
        string_of(chars_of(source).as_slice())
    }
}

/// The count the class bars are scaled to: the largest count, or 1 when there
/// is none.
pub open spec fn largest_count_of(dist: Seq<(String, u32)>) -> int
    decreases dist.len(),
{
    if dist.len() == 0 {
        1
    } else if dist.len() == 1 {
        dist[0].1 as int
    } else {
        let rest = largest_count_of(dist.drop_last());
        if dist.last().1 > rest {
            dist.last().1 as int
        } else {
            rest
        }
    }
}

/// The count the class bars are scaled to.
pub fn largest_count(dist: &Vec<(String, u32)>) -> (m: u32)
    ensures
        m == largest_count_of(dist@),
        dist@.len() == 0 ==> m == 1,
        forall|i: int| 0 <= i < dist@.len() ==> #[trigger] dist@[i].1 <= m,
        dist@.len() > 0 ==> exists|i: int| 0 <= i < dist@.len() && #[trigger] dist@[i].1 == m,
{
    if dist.len() == 0 {
        return 1;
    }
    let mut m: u32 = dist[0].1;
    let mut i: usize = 1;
    assert(dist@.take(1).drop_last() =~= Seq::<(String, u32)>::empty());
    while i < dist.len()
        invariant
            1 <= i <= dist@.len(),
            m == largest_count_of(dist@.take(i as int)),
            forall|j: int| 0 <= j < i ==> #[trigger] dist@[j].1 <= m,
            exists|j: int| 0 <= j < i && #[trigger] dist@[j].1 == m,
        decreases dist.len() - i,
    {
        assert(dist@.take(i + 1).drop_last() =~= dist@.take(i as int));
        assert(dist@.take(i + 1).last() == dist@[i as int]);
        if dist[i].1 > m {
            m = dist[i].1;
        }
        i += 1;
    }
    assert(dist@.take(dist.len() as int) =~= dist@);
    m
}

// ---------------------------------------------------------------------------
// Viewer paging
// ---------------------------------------------------------------------------

/// How many rows a viewer page holds.
pub const ROWS_PER_PAGE: u64 = 10;

/// The offset of the page before the one at `offset` (never below 0).
pub open spec fn previous_offset_of(offset: nat) -> nat {
    if offset < ROWS_PER_PAGE {
        0
    } else {
        (offset - ROWS_PER_PAGE) as nat
    }
}

/// The offset of the page after the one at `offset`.
pub open spec fn next_offset_of(offset: nat) -> nat {
    offset + (ROWS_PER_PAGE as nat)
}

/// The offset of the previous page (never below 0).
pub fn previous_offset(offset: u64) -> (o: u64)
    ensures
        o == previous_offset_of(offset as nat),
{
    offset.saturating_sub(ROWS_PER_PAGE)
}

/// The offset of the next page.
pub fn next_offset(offset: u64) -> (o: u64)
    requires
        offset + ROWS_PER_PAGE <= u64::MAX,
    ensures
        o == next_offset_of(offset as nat),
{
    offset + ROWS_PER_PAGE
}

/// Paging forward and then back returns to the same rows; paging back from
/// any page but the first, and then forward, does too.
pub proof fn law_paging_round_trip(offset: nat)
    ensures
        previous_offset_of(next_offset_of(offset)) == offset,
        offset >= ROWS_PER_PAGE ==> next_offset_of(previous_offset_of(offset)) == offset,
{
}

/// Whether the viewer offers a previous page.
pub fn has_previous_page(page: &DatasetViewerPage) -> (b: bool)
    ensures
        b == (page.offset != 0),
{
    page.offset != 0
}

/// Whether the viewer offers a next page.
pub fn has_next_page(page: &DatasetViewerPage) -> (b: bool)
    requires
        page.offset + page.limit <= u64::MAX,
    ensures
        b == (page.offset + page.limit < page.total_rows),
{
    !(page.offset + page.limit >= page.total_rows)
}

/// The range line under the viewer: `Showing {first}–{last} of {total}`.
pub open spec fn range_line_of(offset: nat, shown: nat, total: nat) -> Seq<char> {
    let last = if offset + shown < total { offset + shown } else { total };
    "Showing "@ + decimal(offset + 1) + "\u{2013}"@ + decimal(last) + " of "@ + decimal(total)
}

/// The range line under the viewer.
pub fn range_line(page: &DatasetViewerPage) -> (s: String)
    requires
        page.offset + page.rows@.len() <= u64::MAX,
        page.offset < u64::MAX,
    ensures
        s@ == range_line_of(page.offset as nat, page.rows@.len(), page.total_rows as nat),
{
    let shown = page.rows.len() as u64;
    let end_raw = page.offset + shown;
    let end = if end_raw < page.total_rows {
        end_raw
    } else {
        page.total_rows
    };
    let mut out = chars_of("Showing ");
    extend_chars(&mut out, decimal_chars((page.offset + 1) as u128).as_slice());
    extend_chars(&mut out, chars_of("\u{2013}").as_slice());
    extend_chars(&mut out, decimal_chars(end as u128).as_slice());
    extend_chars(&mut out, chars_of(" of ").as_slice());
    extend_chars(&mut out, decimal_chars(page.total_rows as u128).as_slice());
    string_of(out.as_slice())
}

// ---------------------------------------------------------------------------
// Editor
// ---------------------------------------------------------------------------

/// Code made safe for a JavaScript template literal: backslashes doubled,
/// backquotes and `${` escaped.
pub open spec fn js_template_escaped(code: Seq<char>) -> Seq<char> {
    replace_all(replace_all(replace_all(code, seq!['\\'], seq!['\\', '\\']), seq!['`'], seq!['\\', '`']), seq!['$', '{'], seq!['\\', '$', '{'])
}

/// Code made safe for a JavaScript template literal.
pub fn escape_for_js_template(code: &str) -> (e: String)
    ensures
        e@ == js_template_escaped(code@),
{
    let mut bs: Vec<char> = Vec::new();
    bs.push('\\');
    let mut bs2: Vec<char> = Vec::new();
    bs2.push('\\');
    bs2.push('\\');
    let mut bq: Vec<char> = Vec::new();
    bq.push('`');
    let mut bq2: Vec<char> = Vec::new();
    bq2.push('\\');
    bq2.push('`');
    let mut dl: Vec<char> = Vec::new();
    dl.push('$');
    dl.push('{');
    let mut dl2: Vec<char> = Vec::new();
    dl2.push('\\');
    dl2.push('$');
    dl2.push('{');
    assert(bs@ =~= seq!['\\']);
    assert(bs2@ =~= seq!['\\', '\\']);
    assert(bq@ =~= seq!['`']);
    assert(bq2@ =~= seq!['\\', '`']);
    assert(dl@ =~= seq!['$', '{']);
    assert(dl2@ =~= seq!['\\', '$', '{']);
    let a = replace_chars(chars_of(code).as_slice(), bs.as_slice(), bs2.as_slice());
    let b = replace_chars(a.as_slice(), bq.as_slice(), bq2.as_slice());
    let c = replace_chars(b.as_slice(), dl.as_slice(), dl2.as_slice());
    string_of(c.as_slice())
}

} // verus!
