//! How datasets and workspaces are laid out as rows of the `datasets` and
//! `workspaces` tables, and the order in which listings show them.
//!
//! The SQL statements themselves run in the application; this module holds
//! what the library decides about the rows: tags travel as a JSON array of
//! strings, the file size as a signed 64-bit integer, and listings show the
//! newest entries first.

use vstd::prelude::*;
use crate::models::{Dataset, Workspace};
use crate::text::{
    chars_of, hex_digit, lex_less, lex_lt, lemma_lex_irreflexive, lemma_lex_total, lemma_lex_transitive,
};

verus! {

broadcast use {vstd::seq_lib::group_to_multiset_ensures, vstd::multiset::group_multiset_axioms};

// ---------------------------------------------------------------------------
// JSON arrays of strings
// ---------------------------------------------------------------------------

/// How `serde_json` writes one character inside a JSON string: `"` and `\`
/// are escaped, control characters below U+0020 use the short escapes where
/// JSON has them and `\u00XX` (lower-case hex) otherwise; all else is verbatim.
pub open spec fn json_escape(c: char) -> Seq<char> {
    if c == '"' {
        seq!['\\', '"']
    } else if c == '\\' {
        seq!['\\', '\\']
    } else if c == '\u{08}' {
        seq!['\\', 'b']
    } else if c == '\t' {
        seq!['\\', 't']
    } else if c == '\n' {
        seq!['\\', 'n']
    } else if c == '\u{0C}' {
        seq!['\\', 'f']
    } else if c == '\r' {
        seq!['\\', 'r']
    } else if (c as u32) < 0x20 {
        seq!['\\', 'u', '0', '0', hex_digit((c as u32 / 16) as nat), hex_digit((c as u32 % 16) as nat)]
    } else {
        seq![c]
    }
}

/// The escaped body of a JSON string.
pub open spec fn json_escaped(s: Seq<char>) -> Seq<char>
    decreases s.len(),
{
    if s.len() == 0 {
        Seq::<char>::empty()
    } else {
        json_escaped(s.drop_last()) + json_escape(s.last())
    }
}

/// A JSON string literal.
pub open spec fn json_string(s: Seq<char>) -> Seq<char> {
    seq!['"'] + json_escaped(s) + seq!['"']
}

/// The comma-separated JSON string literals of `v`.
pub open spec fn json_elements(v: Seq<Seq<char>>) -> Seq<char>
    decreases v.len(),
{
    if v.len() == 0 {
        Seq::<char>::empty()
    } else if v.len() == 1 {
        json_string(v[0])
    } else {
        json_elements(v.drop_last()) + seq![','] + json_string(v.last())
    }
}

/// The compact JSON array of strings that `serde_json::to_string` writes.
pub open spec fn json_string_array(v: Seq<Seq<char>>) -> Seq<char> {
    seq!['['] + json_elements(v) + seq![']']
}

/// The views of a sequence of strings.
pub open spec fn string_views(v: Seq<String>) -> Seq<Seq<char>> {
    v.map_values(|s: String| s@)
}

/// What `serde_json::from_str::<Vec<String>>` makes of `s`: the strings, or
/// `None` where `s` is not a JSON array of strings.
pub uninterp spec fn parse_json_string_array(s: Seq<char>) -> Option<Seq<Seq<char>>>;

/// Writes `items` as a compact JSON array (`serde_json::to_string`).
/// Claimed: the text is the array of JSON string literals, escaped as
/// `serde_json`'s serializer escapes them (its `ESCAPE` table).
#[verifier::external_body]
fn write_json_strings(items: &Vec<String>) -> (r: Option<String>)
    ensures
        r is Some,
        r.unwrap()@ == json_string_array(string_views(items@)),
{
    serde_json::to_string(items).ok()
}

/// Reads a JSON array of strings (`serde_json::from_str::<Vec<String>>`).
/// Claimed: the result is a function of the text, and the compact array that
/// `serde_json` writes for some strings is read back as exactly those strings.
#[verifier::external_body]
fn read_json_strings(text: &str) -> (r: Option<Vec<String>>)
    ensures
        match r {
            Some(v) => parse_json_string_array(text@) == Some(string_views(v@)),
            None => parse_json_string_array(text@) is None,
        },
        forall|v: Seq<Seq<char>>|
            #[trigger] json_string_array(v) == text@ ==> (r is Some && string_views(r.unwrap()@)
                == v),
{
    serde_json::from_str::<Vec<String>>(text).ok()
}

/// The `tags` column value for these tags: their JSON array (empty text if
/// the serializer failed, which it does not for strings).
pub fn tags_to_json(tags: &Vec<String>) -> (s: String)
    ensures
        s@ == json_string_array(string_views(tags@)),
{
    match write_json_strings(tags) {
        Some(s) => s,
        None => String::new(),
    }
}

/// The tags stored in a `tags` column value; unreadable text gives no tags.
pub fn tags_from_json(text: &str) -> (tags: Vec<String>)
    ensures
        string_views(tags@) == match parse_json_string_array(text@) {
            Some(v) => v,
            None => Seq::<Seq<char>>::empty(),
        },
        forall|v: Seq<Seq<char>>| #[trigger] json_string_array(v) == text@ ==> string_views(tags@)
            == v,
{
    match read_json_strings(text) {
        Some(v) => v,
        None => {
            let v: Vec<String> = Vec::new();
            assert(string_views(v@) =~= Seq::<Seq<char>>::empty());
            v
        },
    }
}

// ---------------------------------------------------------------------------
// Rows
// ---------------------------------------------------------------------------

/// A row of the `datasets` table, column for column.
#[derive(Debug, Clone, PartialEq)]
pub struct DatasetRow {
    pub id: String,
    pub name: String,
    pub dataset_type: String,
    pub description: String,
    pub tags: String,
    pub format: String,
    pub num_samples: Option<u64>,
    pub num_classes: Option<u32>,
    pub file_size: i64,
    pub source: String,
    pub file_path: String,
    pub created_at: String,
    pub status: String,
}

/// The text columns of a dataset and a row agree.
pub open spec fn same_text_columns(d: Dataset, r: DatasetRow) -> bool {
    &&& r.id@ == d.id@
    &&& r.name@ == d.name@
    &&& r.dataset_type@ == d.dataset_type@
    &&& r.description@ == d.description@
    &&& r.format@ == d.format@
    &&& r.num_samples == d.num_samples
    &&& r.num_classes == d.num_classes
    &&& r.source@ == d.source@
    &&& r.file_path@ == d.file_path@
    &&& r.created_at@ == d.created_at@
    &&& r.status@ == d.status@
}

/// The row that stores `dataset`: its tags as a JSON array and its size as
/// the signed integer with the same bits.
pub fn dataset_to_row(dataset: &Dataset) -> (r: DatasetRow)
    ensures
        same_text_columns(*dataset, r),
        r.tags@ == json_string_array(string_views(dataset.tags@)),
        r.file_size == dataset.file_size as i64,
{
    DatasetRow {
        id: dataset.id.clone(),
        name: dataset.name.clone(),
        dataset_type: dataset.dataset_type.clone(),
        description: dataset.description.clone(),
        tags: tags_to_json(&dataset.tags),
        format: dataset.format.clone(),
        num_samples: dataset.num_samples,
        num_classes: dataset.num_classes,
        file_size: dataset.file_size as i64,
        source: dataset.source.clone(),
        file_path: dataset.file_path.clone(),
        created_at: dataset.created_at.clone(),
        status: dataset.status.clone(),
    }
}

/// The dataset a row stores: tags read from JSON (none if unreadable), size
/// read back as the unsigned integer with the same bits.
pub fn dataset_from_row(row: DatasetRow) -> (d: Dataset)
    ensures
        same_text_columns(d, row),
        string_views(d.tags@) == match parse_json_string_array(row.tags@) {
            Some(v) => v,
            None => Seq::<Seq<char>>::empty(),
        },
        forall|v: Seq<Seq<char>>| #[trigger] json_string_array(v) == row.tags@ ==> string_views(
            d.tags@,
        ) == v,
        d.file_size == row.file_size as u64,
{
    let tags = tags_from_json(row.tags.as_str());
    Dataset {
        id: row.id,
        name: row.name,
        dataset_type: row.dataset_type,
        description: row.description,
        tags,
        format: row.format,
        num_samples: row.num_samples,
        num_classes: row.num_classes,
        file_size: row.file_size as u64,
        source: row.source,
        file_path: row.file_path,
        created_at: row.created_at,
        status: row.status,
    }
}

/// Storing a dataset and reading it back gives the same dataset: every field
/// (text columns, counts, tags and file size) comes back unchanged.
pub proof fn law_dataset_row_round_trip(d: Dataset, stored: DatasetRow, read: Dataset)
    requires
        same_text_columns(d, stored),
        stored.tags@ == json_string_array(string_views(d.tags@)),
        stored.file_size == d.file_size as i64,
        same_text_columns(read, stored),
        forall|v: Seq<Seq<char>>| #[trigger] json_string_array(v) == stored.tags@ ==> string_views(
            read.tags@,
        ) == v,
        read.file_size == stored.file_size as u64,
    ensures
        same_text_columns(read, stored) && same_text_columns(d, stored),
        string_views(read.tags@) == string_views(d.tags@),
        read.file_size == d.file_size,
        crate::models::same_dataset(read, d),
{
    assert(json_string_array(string_views(d.tags@)) == stored.tags@);
    let n = d.file_size;
    assert((n as i64) as u64 == n) by (bit_vector);
    assert forall|k: int| 0 <= k < read.tags@.len() implies #[trigger] read.tags@[k]@ == d.tags@[k]@ by {
        assert(string_views(read.tags@)[k] == read.tags@[k]@);
        assert(string_views(d.tags@)[k] == d.tags@[k]@);
    }
}

// ---------------------------------------------------------------------------
// Newest first
// ---------------------------------------------------------------------------

/// Records listed by a timestamp column, compared as text.
pub trait Timestamped: Sized {
    /// The timestamp that orders listings.
    spec fn stamp(&self) -> Seq<char>;

    /// The characters of the timestamp.
    fn stamp_chars(&self) -> (r: Vec<char>)
        ensures
            r@ == self.stamp(),
    ;
}

impl Timestamped for Workspace {
    open spec fn stamp(&self) -> Seq<char> {
        self.updated_at@
    }

    fn stamp_chars(&self) -> (r: Vec<char>) {
        chars_of(self.updated_at.as_str())
    }
}

impl Timestamped for Dataset {
    open spec fn stamp(&self) -> Seq<char> {
        self.created_at@
    }

    fn stamp_chars(&self) -> (r: Vec<char>) {
        chars_of(self.created_at.as_str())
    }
}

/// No record is listed before one with a later timestamp (`ORDER BY ... DESC`).
pub open spec fn newest_first<T: Timestamped>(s: Seq<T>) -> bool {
    forall|i: int, j: int| 0 <= i < j < s.len() ==> !lex_lt(#[trigger] s[i].stamp(), #[trigger] s[j].stamp())
}

/// The records of `s` whose timestamp is `k`, in their order in `s`.
pub open spec fn with_stamp<T: Timestamped>(s: Seq<T>, k: Seq<char>) -> Seq<T>
    decreases s.len(),
{
    if s.len() == 0 {
        Seq::<T>::empty()
    } else if s.last().stamp() == k {
        with_stamp(s.drop_last(), k).push(s.last())
    } else {
        with_stamp(s.drop_last(), k)
    }
}

proof fn lemma_with_stamp_add<T: Timestamped>(a: Seq<T>, b: Seq<T>, k: Seq<char>)
    ensures
        with_stamp(a + b, k) == with_stamp(a, k) + with_stamp(b, k),
    decreases b.len(),
{
    if b.len() == 0 {
        assert(a + b =~= a);
        assert(with_stamp(a, k) + with_stamp(b, k) =~= with_stamp(a, k));
    } else {
        lemma_with_stamp_add(a, b.drop_last(), k);
        assert((a + b).drop_last() =~= a + b.drop_last());
        assert((a + b).last() == b.last());
        if b.last().stamp() == k {
            assert(with_stamp(a, k) + with_stamp(b.drop_last(), k).push(b.last()) =~= (with_stamp(a, k)
                + with_stamp(b.drop_last(), k)).push(b.last()));
        }
    }
}

proof fn lemma_with_stamp_none<T: Timestamped>(a: Seq<T>, k: Seq<char>)
    requires
        forall|i: int| 0 <= i < a.len() ==> (#[trigger] a[i]).stamp() != k,
    ensures
        with_stamp(a, k) == Seq::<T>::empty(),
    decreases a.len(),
{
    if a.len() > 0 {
        assert forall|i: int| 0 <= i < a.drop_last().len() implies (#[trigger] a.drop_last()[i]).stamp() != k by {
            assert(a.drop_last()[i] == a[i]);
        }
        lemma_with_stamp_none(a.drop_last(), k);
        assert(a.last() == a[a.len() - 1]);
    }
}

proof fn lemma_with_stamp_single<T: Timestamped>(x: T, k: Seq<char>)
    ensures
        with_stamp(seq![x], k) == if x.stamp() == k { seq![x] } else { Seq::<T>::empty() },
{
    assert(seq![x].drop_last() =~= Seq::<T>::empty());
    assert(with_stamp(Seq::<T>::empty(), k) == Seq::<T>::empty());
    assert(seq![x].last() == x);
    assert(Seq::<T>::empty().push(x) =~= seq![x]);
}

/// Moving the first of the latest records of `rest` to the end of `out`
/// keeps, for every timestamp, the records with that timestamp in order.
proof fn lemma_select_keeps_order<T: Timestamped>(out: Seq<T>, rest: Seq<T>, best: int, k: Seq<char>)
    requires
        0 <= best < rest.len(),
        forall|j: int| 0 <= j < best ==> (#[trigger] rest[j]).stamp() != rest[best].stamp(),
    ensures
        with_stamp(out.push(rest[best]), k) + with_stamp(rest.remove(best), k) == with_stamp(out, k)
            + with_stamp(rest, k),
{
    let x = rest[best];
    let a = rest.take(best);
    let b = rest.skip(best + 1);
    assert(rest =~= a + seq![x] + b);
    assert(rest.remove(best) =~= a + b);
    assert(out.push(x) =~= out + seq![x]);
    lemma_with_stamp_add(out, seq![x], k);
    lemma_with_stamp_add(a, b, k);
    lemma_with_stamp_add(a, seq![x], k);
    lemma_with_stamp_add(a + seq![x], b, k);
    lemma_with_stamp_single(x, k);
    if x.stamp() == k {
        assert forall|i: int| 0 <= i < a.len() implies (#[trigger] a[i]).stamp() != k by {
            assert(a[i] == rest[i]);
        }
        lemma_with_stamp_none(a, k);
        assert(with_stamp(out, k) + seq![x] + with_stamp(b, k) =~= with_stamp(out, k) + (
        Seq::<T>::empty() + seq![x] + with_stamp(b, k)));
        assert(with_stamp(a, k) + with_stamp(b, k) =~= with_stamp(b, k));
    } else {
        assert(with_stamp(out, k) + Seq::<T>::empty() =~= with_stamp(out, k));
        assert(with_stamp(a, k) + Seq::<T>::empty() =~= with_stamp(a, k));
    }
}

/// The records, reordered so that later timestamps come first; records with
/// the same timestamp keep their order (a stable sort), so a listing already
/// in that order comes back unchanged.
pub fn sort_newest_first<T: Timestamped>(items: Vec<T>) -> (r: Vec<T>)
    ensures
        r@.to_multiset() == items@.to_multiset(),
        r@.len() == items@.len(),
        newest_first(r@),
        forall|k: Seq<char>| #[trigger] with_stamp(r@, k) == with_stamp(items@, k),
        newest_first(items@) ==> r@ == items@,
{
    let mut rest = items;
    let mut out: Vec<T> = Vec::new();
    let ghost input = rest@;
    let ghost all = rest@.to_multiset();
    assert(out@.to_multiset() =~= vstd::multiset::Multiset::<T>::empty());
    proof {
        assert forall|k: Seq<char>| #[trigger] with_stamp(input, k) == with_stamp(out@, k) + with_stamp(rest@, k) by {
            assert(with_stamp(out@, k) == Seq::<T>::empty());
            assert(Seq::<T>::empty() + with_stamp(rest@, k) =~= with_stamp(rest@, k));
        }
        assert(input.take(0) =~= out@);
        assert(input.skip(0) =~= rest@);
    }
    while rest.len() > 0
        invariant
            out@.to_multiset().add(rest@.to_multiset()) == all,
            newest_first(out@),
            forall|i: int, j: int|
                0 <= i < out@.len() && 0 <= j < rest@.len() ==> !lex_lt(
                    #[trigger] out@[i].stamp(),
                    #[trigger] rest@[j].stamp(),
                ),
            forall|k: Seq<char>| #[trigger] with_stamp(input, k) == with_stamp(out@, k) + with_stamp(rest@, k),
            newest_first(input) ==> out@.len() <= input.len() && out@ == input.take(out@.len() as int)
                && rest@ == input.skip(out@.len() as int),
        decreases rest.len(),
    {
        let mut best: usize = 0;
        let mut best_key = rest[0].stamp_chars();
        let mut k: usize = 1;
        proof {
            lemma_lex_irreflexive(rest@[0].stamp());
        }
        while k < rest.len()
            invariant
                best < k <= rest@.len(),
                best_key@ == rest@[best as int].stamp(),
                forall|j: int| 0 <= j < k ==> !lex_lt(rest@[best as int].stamp(), #[trigger] rest@[j].stamp()),
                forall|j: int| 0 <= j < best ==> lex_lt(#[trigger] rest@[j].stamp(), rest@[best as int].stamp()),
                newest_first(rest@) ==> best == 0,
            decreases rest.len() - k,
        {
            let key = rest[k].stamp_chars();
            if lex_less(best_key.as_slice(), key.as_slice()) {
                proof {
                    if newest_first(rest@) {
                        assert(!lex_lt(rest@[0].stamp(), rest@[k as int].stamp()));
                    }
                    assert forall|j: int| 0 <= j < k + 1 implies !lex_lt(
                        rest@[k as int].stamp(),
                        #[trigger] rest@[j].stamp(),
                    ) by {
                        if j == k {
                            lemma_lex_irreflexive(rest@[k as int].stamp());
                        } else if lex_lt(rest@[k as int].stamp(), rest@[j].stamp()) {
                            lemma_lex_transitive(
                                rest@[best as int].stamp(),
                                rest@[k as int].stamp(),
                                rest@[j].stamp(),
                            );
                        }
                    }
                    assert forall|j: int| 0 <= j < k implies lex_lt(
                        #[trigger] rest@[j].stamp(),
                        rest@[k as int].stamp(),
                    ) by {
                        if j < best {
                            lemma_lex_transitive(
                                rest@[j].stamp(),
                                rest@[best as int].stamp(),
                                rest@[k as int].stamp(),
                            );
                        } else if j > best {
                            lemma_lex_total(rest@[j].stamp(), rest@[best as int].stamp());
                            if lex_lt(rest@[j].stamp(), rest@[best as int].stamp()) {
                                lemma_lex_transitive(
                                    rest@[j].stamp(),
                                    rest@[best as int].stamp(),
                                    rest@[k as int].stamp(),
                                );
                            }
                        }
                    }
                }
                best = k;
                best_key = key;
            }
            k += 1;
        }
        let ghost before_rest = rest@;
        let ghost before_out = out@;
        proof {
            assert forall|j: int| 0 <= j < best implies (#[trigger] before_rest[j]).stamp() != before_rest[best as int].stamp() by {
                lemma_lex_irreflexive(before_rest[best as int].stamp());
            }
            assert forall|key: Seq<char>| #[trigger] with_stamp(input, key) == with_stamp(before_out.push(before_rest[best as int]), key) + with_stamp(before_rest.remove(best as int), key) by {
                lemma_select_keeps_order(before_out, before_rest, best as int, key);
            }
        }
        let item = rest.remove(best);
        out.push(item);
        proof {
            assert(before_rest.remove(best as int).to_multiset() == before_rest.to_multiset().remove(
                before_rest[best as int],
            ));
            assert(before_out.push(item).to_multiset() == before_out.to_multiset().insert(item));
            assert(before_rest.to_multiset().contains(item));
            assert(out@.to_multiset().add(rest@.to_multiset()) =~= all);
            assert forall|i: int, j: int| 0 <= i < out@.len() && 0 <= j < rest@.len() implies !lex_lt(
                #[trigger] out@[i].stamp(),
                #[trigger] rest@[j].stamp(),
            ) by {
                let src = if j < best {
                    j
                } else {
                    j + 1
                };
                assert(rest@[j] == before_rest[src]);
                if i < before_out.len() {
                    assert(out@[i] == before_out[i]);
                }
            }
            assert forall|i: int, j: int| 0 <= i < j < out@.len() implies !lex_lt(
                #[trigger] out@[i].stamp(),
                #[trigger] out@[j].stamp(),
            ) by {
                if j < before_out.len() {
                    assert(out@[i] == before_out[i]);
                    assert(out@[j] == before_out[j]);
                } else {
                    assert(out@[i] == before_out[i]);
                    assert(out@[j] == before_rest[best as int]);
                }
            }
            if newest_first(input) {
                let n = before_out.len() as int;
                assert forall|i: int, j: int| 0 <= i < j < before_rest.len() implies !lex_lt(
                    #[trigger] before_rest[i].stamp(),
                    #[trigger] before_rest[j].stamp(),
                ) by {
                    assert(before_rest[i] == input[n + i]);
                    assert(before_rest[j] == input[n + j]);
                }
                assert(newest_first(before_rest));
                assert(best == 0);
                assert(out@ =~= input.take(n + 1));
                assert(rest@ =~= input.skip(n + 1));
            }
        }
    }
    assert(rest@.to_multiset() =~= vstd::multiset::Multiset::<T>::empty());
    assert(out@.to_multiset() =~= all);
    proof {
        out@.to_multiset_ensures();
        items_len_from_multiset(out@, input);
        assert forall|k: Seq<char>| #[trigger] with_stamp(out@, k) == with_stamp(input, k) by {
            assert(with_stamp(rest@, k) == Seq::<T>::empty());
            assert(with_stamp(out@, k) + Seq::<T>::empty() =~= with_stamp(out@, k));
        }
        if newest_first(input) {
            assert(out@ =~= input);
        }
    }
    out
}

proof fn items_len_from_multiset<T>(a: Seq<T>, b: Seq<T>)
    requires
        a.to_multiset() == b.to_multiset(),
    ensures
        a.len() == b.len(),
{
    a.to_multiset_ensures();
    b.to_multiset_ensures();
}

/// The workspaces as the workspace list shows them: most recently updated
/// first (the `workspaces` rows ordered by `updated_at DESC`); rows updated
/// at the same time keep the order they were read in.
pub fn list_workspaces(rows: Vec<Workspace>) -> (r: Vec<Workspace>)
    ensures
        r@.to_multiset() == rows@.to_multiset(),
        r@.len() == rows@.len(),
        newest_first(r@),
        forall|k: Seq<char>| #[trigger] with_stamp(r@, k) == with_stamp(rows@, k),
        newest_first(rows@) ==> r@ == rows@,
{
    sort_newest_first(rows)
}

/// The datasets as the dataset list shows them: most recently created first
/// (the `datasets` rows ordered by `created_at DESC`, then read); rows
/// created at the same time keep the order they were read in.
pub fn list_datasets(rows: Vec<DatasetRow>) -> (r: Vec<Dataset>)
    ensures
        r@.len() == rows@.len(),
        newest_first(r@),
        exists|sorted: Seq<DatasetRow>|
            #![trigger sorted.to_multiset()]
            sorted.to_multiset() == rows@.to_multiset() && sorted.len() == r@.len()
                && (forall|k: Seq<char>| #[trigger] with_stamp(sorted, k) == with_stamp(rows@, k))
                && (newest_first(rows@) ==> sorted == rows@)
                && forall|k: int| 0 <= k < sorted.len() ==> converted_from(#[trigger] r@[k], sorted[k]),
{
    let mut sorted = sort_newest_first(rows);
    let ghost order = sorted@;
    let n = sorted.len();
    let mut out: Vec<Dataset> = Vec::new();
    let mut i: usize = 0;
    while i < n
        invariant
            n == order.len(),
            i <= n,
            sorted@ == order.skip(i as int),
            out@.len() == i,
            forall|k: int| 0 <= k < i ==> converted_from(#[trigger] out@[k], order[k]),
        decreases n - i,
    {
        let row = sorted.remove(0);
        assert(order.skip(i as int).remove(0) =~= order.skip(i + 1));
        let d = dataset_from_row(row);
        out.push(d);
        i += 1;
    }
    assert forall|i: int, j: int| 0 <= i < j < out@.len() implies !lex_lt(
        #[trigger] out@[i].stamp(),
        #[trigger] out@[j].stamp(),
    ) by {
        assert(order[i].stamp() == out@[i].stamp());
        assert(order[j].stamp() == out@[j].stamp());
    }
    out
}

/// `d` is what reading the row `r` gives.
pub open spec fn converted_from(d: Dataset, r: DatasetRow) -> bool {
    &&& same_text_columns(d, r)
    &&& string_views(d.tags@) == match parse_json_string_array(r.tags@) {
        Some(v) => v,
        None => Seq::<Seq<char>>::empty(),
    }
    &&& d.file_size == r.file_size as u64
}

impl Timestamped for DatasetRow {
    open spec fn stamp(&self) -> Seq<char> {
        self.created_at@
    }

    fn stamp_chars(&self) -> (r: Vec<char>) {
        chars_of(self.created_at.as_str())
    }
}

} // verus!
