//! The records the application stores and shows: datasets, their previews and
//! viewer pages, workspaces and the results of running workspace code.

use vstd::prelude::*;
use crate::text::{
    chars_of, decimal, digit, digit_char, extend_chars, push_decimal, str_is, string_of,
};

verus! {

/// A dataset registered with the application.
#[derive(Debug, Clone, PartialEq)]
pub struct Dataset {
    pub id: String,
    pub name: String,
    pub dataset_type: String,
    pub description: String,
    pub tags: Vec<String>,
    pub format: String,
    pub num_samples: Option<u64>,
    pub num_classes: Option<u32>,
    pub file_size: u64,
    pub source: String,
    pub file_path: String,
    pub created_at: String,
    pub status: String,
}

/// What the preview panel of a dataset shows.
#[derive(Debug, Clone, PartialEq)]
pub struct DatasetPreview {
    pub sample_images: Vec<String>,
    pub class_distribution: Vec<(String, u32)>,
    pub summary: Vec<(String, String)>,
}

/// One page of rows of a dataset split, as the table viewer shows it.
#[derive(Debug, Clone, PartialEq)]
pub struct DatasetViewerPage {
    pub columns: Vec<ColumnInfo>,
    pub rows: Vec<DatasetViewerRow>,
    pub total_rows: u64,
    pub offset: u64,
    pub limit: u64,
    pub split: String,
    pub available_splits: Vec<String>,
}

/// A column of the table viewer.
#[derive(Debug, Clone, PartialEq)]
pub struct ColumnInfo {
    pub name: String,
    pub col_type: ColumnType,
}

/// How the cells of a column are rendered.
#[derive(Debug, Clone, PartialEq, Eq, Structural)]
pub enum ColumnType {
    Image,
    Text,
    Number,
}

/// One row of the table viewer; `index` is the row's position in the split.
#[derive(Debug, Clone, PartialEq)]
pub struct DatasetViewerRow {
    pub index: u64,
    pub cells: Vec<DatasetCell>,
}

/// One rendered cell of the table viewer.
#[derive(Debug, Clone, PartialEq)]
pub enum DatasetCell {
    Image(String),
    Text(String),
    Number(String),
}

/// A federated-learning workspace bound to a dataset.
#[derive(Debug, Clone, PartialEq)]
pub struct Workspace {
    pub id: String,
    pub name: String,
    pub dataset_id: String,
    pub dataset_name: String,
    pub code: String,
    pub created_at: String,
    pub updated_at: String,
}

/// The outcome of running a workspace's code.
#[derive(Debug, Clone, PartialEq)]
pub struct ExecutionResult {
    pub stdout: String,
    pub stderr: String,
    pub plots: Vec<String>,
    pub table_html: Option<String>,
    pub xai_plots: Vec<String>,
    pub xai_html: Option<String>,
}

// ---------------------------------------------------------------------------
// Human-readable sizes
// ---------------------------------------------------------------------------

/// `a / b` rounded to the nearest integer, ties to the even neighbour.
pub open spec fn round_half_even_div(a: nat, b: nat) -> nat
    recommends
        b > 0,
{
    let q = a / b;
    let r = a % b;
    if 2 * r > b || (2 * r == b && q % 2 == 1) {
        q + 1
    } else {
        q
    }
}

/// The spacing of `f64` values around `n`: 1 below 2^53, doubling with each
/// further binary digit.
pub open spec fn f64_ulp(n: nat) -> nat
    decreases n,
{
    if n < 0x20_0000_0000_0000 {
        1
    } else {
        2 * f64_ulp(n / 2)
    }
}

/// `n as f64`: the nearest double, ties to even (what an integer-to-float
/// `as` cast computes).
pub open spec fn nearest_f64(n: nat) -> nat {
    round_half_even_div(n, f64_ulp(n)) * f64_ulp(n)
}

/// `v / 10` written with one decimal digit.
pub open spec fn fixed_1(v: nat) -> Seq<char> {
    decimal(v / 10) + seq!['.', digit_char(v % 10)]
}

/// `v / 100` written with two decimal digits.
pub open spec fn fixed_2(v: nat) -> Seq<char> {
    decimal(v / 100) + seq!['.', digit_char((v % 100) / 10), digit_char(v % 10)]
}

/// A byte count as the application shows it: bytes below 1 KiB, then KB and
/// MB with one decimal, GB with two; decimals are rounded half to even, as
/// `{:.1}` / `{:.2}` round the exact value of the `f64` quotient.
pub open spec fn human_size(n: nat) -> Seq<char> {
    if n < 1024 {
        decimal(n) + " B"@
    } else if n < 1048576 {
        fixed_1(round_half_even_div(n * 10, 1024)) + " KB"@
    } else if n < 1073741824 {
        fixed_1(round_half_even_div(n * 10, 1048576)) + " MB"@
    } else {
        fixed_2(round_half_even_div(nearest_f64(n) * 100, 1073741824)) + " GB"@
    }
}

/// The badge classes for a dataset status.
pub open spec fn status_color_of(status: Seq<char>) -> Seq<char> {
    if status == "ready"@ {
        "border border-white text-white"@
    } else if status == "uploading"@ || status == "downloading"@ {
        "border border-[#888] text-[#888] animate-pulse"@
    } else if status == "error"@ {
        "border border-dashed border-[#ff3333] text-[#ff3333]"@
    } else {
        "border border-[#444] text-[#444]"@
    }
}

pub(crate) fn div_round_half_even(a: u128, b: u128) -> (r: u128)
    requires
        0 < b <= 0x1_0000_0000_0000_0000,
        a < 0x1_0000_0000_0000_0000_0000_0000,
    ensures
        r == round_half_even_div(a as nat, b as nat),
{
    let q = a / b;
    let r = a % b;
    if 2 * r > b || (2 * r == b && q % 2 == 1) {
        q + 1
    } else {
        q
    }
}

fn ulp_of(n: u64) -> (u: u64)
    ensures
        u == f64_ulp(n as nat),
        n < 0x20_0000_0000_0000 ==> u == 1,
        n >= 0x20_0000_0000_0000 ==> u * 0x10_0000_0000_0000 <= n,
        1 <= u <= 4096,
    decreases n,
{
    if n < 0x20_0000_0000_0000 {
        1
    } else {
        let h = ulp_of(n / 2);
        2 * h
    }
}

pub(crate) fn nearest_double(n: u64) -> (r: u128)
    ensures
        r == nearest_f64(n as nat),
        r <= n + 4096,
{
    let u = ulp_of(n);
    let q = div_round_half_even(n as u128, u as u128);
    assert(q * u <= n + u) by (nonlinear_arith)
        requires
            q <= (n as int) / (u as int) + 1,
            u > 0,
    {
        assert((n as int) / (u as int) * u <= n);
    }
    q * (u as u128)
}

impl Dataset {
    /// The file size as the application shows it, e.g. `"1.5 KB"`.
    pub fn human_readable_size(&self) -> (s: String)
        ensures
            s@ == human_size(self.file_size as nat),
    {
        size_label(self.file_size)
    }

    /// A copy of this dataset.
    pub fn duplicate(&self) -> (d: Dataset)
        ensures
            same_dataset(d, *self),
    {
        let mut tags: Vec<String> = Vec::new();
        let mut i: usize = 0;
        while i < self.tags.len()
            invariant
                i <= self.tags@.len(),
                tags@.len() == i,
                forall|k: int| 0 <= k < i ==> #[trigger] tags@[k]@ == self.tags@[k]@,
            decreases self.tags.len() - i,
        {
            tags.push(self.tags[i].clone());
            i += 1;
        }
        Dataset {
            id: self.id.clone(),
            name: self.name.clone(),
            dataset_type: self.dataset_type.clone(),
            description: self.description.clone(),
            tags,
            format: self.format.clone(),
            num_samples: self.num_samples,
            num_classes: self.num_classes,
            file_size: self.file_size,
            source: self.source.clone(),
            file_path: self.file_path.clone(),
            created_at: self.created_at.clone(),
            status: self.status.clone(),
        }
    }
}

/// Two datasets hold the same values.
pub open spec fn same_dataset(a: Dataset, b: Dataset) -> bool {
    &&& a.id@ == b.id@
    &&& a.name@ == b.name@
    &&& a.dataset_type@ == b.dataset_type@
    &&& a.description@ == b.description@
    &&& a.tags@.len() == b.tags@.len()
    &&& forall|k: int| 0 <= k < a.tags@.len() ==> #[trigger] a.tags@[k]@ == b.tags@[k]@
    &&& a.format@ == b.format@
    &&& a.num_samples == b.num_samples
    &&& a.num_classes == b.num_classes
    &&& a.file_size == b.file_size
    &&& a.source@ == b.source@
    &&& a.file_path@ == b.file_path@
    &&& a.created_at@ == b.created_at@
    &&& a.status@ == b.status@
}

/// A byte count as the application shows it, e.g. `"1.5 KB"`.
pub fn size_label(n: u64) -> (s: String)
    ensures
        s@ == human_size(n as nat),
{
    {
        let mut out: Vec<char> = Vec::new();
        if n < 1024 {
            push_decimal(&mut out, n as u128);
            extend_chars(&mut out, chars_of(" B").as_slice());
        } else if n < 1048576 {
            let v = div_round_half_even(n as u128 * 10, 1024);
            push_fixed_1(&mut out, v);
            extend_chars(&mut out, chars_of(" KB").as_slice());
        } else if n < 1073741824 {
            let v = div_round_half_even(n as u128 * 10, 1048576);
            push_fixed_1(&mut out, v);
            extend_chars(&mut out, chars_of(" MB").as_slice());
        } else {
            let d = nearest_double(n);
            let v = div_round_half_even(d * 100, 1073741824);
            push_fixed_2(&mut out, v);
            extend_chars(&mut out, chars_of(" GB").as_slice());
        }
        string_of(out.as_slice())
    }
}

impl Dataset {
    /// The badge classes for this dataset's status.
    pub fn status_color(&self) -> (c: &str)
        ensures
            c@ == status_color_of(self.status@),
    {
        let s = self.status.as_str();
        if str_is(s, "ready") {
            "border border-white text-white"
        } else if str_is(s, "uploading") || str_is(s, "downloading") {
            "border border-[#888] text-[#888] animate-pulse"
        } else if str_is(s, "error") {
            "border border-dashed border-[#ff3333] text-[#ff3333]"
        } else {
            "border border-[#444] text-[#444]"
        }
    }
}

pub(crate) fn push_fixed_1(out: &mut Vec<char>, v: u128)
    ensures
        final(out)@ == old(out)@ + fixed_1(v as nat),
{
    push_decimal(out, v / 10);
    out.push('.');
    out.push(digit((v % 10) as u64));
}

fn push_fixed_2(out: &mut Vec<char>, v: u128)
    ensures
        final(out)@ == old(out)@ + fixed_2(v as nat),
{
    push_decimal(out, v / 100);
    out.push('.');
    out.push(digit(((v % 100) / 10) as u64));
    out.push(digit((v % 10) as u64));
}

} // verus!
