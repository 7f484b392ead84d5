//! The table viewer: which parquet file serves each split, how columns are
//! typed, and how the values of a page of rows are rendered.

use vstd::prelude::*;
use vstd::utf8::{decode_utf8, valid_utf8};
use crate::models::{ColumnInfo, ColumnType, DatasetCell, DatasetViewerPage, DatasetViewerRow};
use crate::preview::{
    entry_named, find_entry, image_field, is_image_field, thumbnail_data_url, thumbnail_url_of,
};
use crate::table::{FieldKind, FieldValue, GroupEntry, PhysicalType, RowEntry, SchemaField, SchemaFieldKind};
use crate::text::{
    chars_of, decimal, decimal_chars, lex_less, lex_lt, lemma_lex_total, signed_decimal,
    signed_decimal_chars, slice_chars, str_is, string_of,
};

verus! {

// ---------------------------------------------------------------------------
// Splits
// ---------------------------------------------------------------------------

/// Whether `c` occurs in `s`.
pub open spec fn has_char(s: Seq<char>, c: char) -> bool {
    exists|i: int| 0 <= i < s.len() && s[i] == c
}

/// The split a parquet file belongs to, from its file stem
/// `{split}-{shard}-of-{total}`: the text before the first `-`, or the whole
/// stem.
pub open spec fn split_name_of(stem: Seq<char>) -> Seq<char> {
    if has_char(stem, '-') {
        stem.take(choose|i: int| 0 <= i < stem.len() && stem[i] == '-' && forall|j: int| 0 <= j < i ==> stem[j] != '-')
    } else {
        stem
    }
}

/// The split a parquet file with this file stem belongs to.
pub fn split_name(stem: &str) -> (s: String)
    ensures
        s@ == split_name_of(stem@),
{
    let cs = chars_of(stem);
    let mut i: usize = 0;
    while i < cs.len()
        invariant
            i <= cs@.len(),
            cs@ == stem@,
            forall|j: int| 0 <= j < i ==> cs@[j] != '-',
        decreases cs.len() - i,
    {
        if cs[i] == '-' {
            proof {
                assert(cs@[i as int] == '-');
                assert(has_char(cs@, '-'));
                let k = choose|k: int| 0 <= k < cs@.len() && cs@[k] == '-' && forall|j: int| 0 <= j < k ==> cs@[j] != '-';
                if k < i {
                    assert(cs@[k] != '-');
                }
                if k > i {
                    assert(cs@[i as int] != '-');
                }
                assert(split_name_of(stem@) == cs@.take(i as int));
                assert(cs@.subrange(0, i as int) == cs@.take(i as int));
            }
            return string_of(slice_chars(cs.as_slice(), 0, i).as_slice());
        }
        i += 1;
    }
    string_of(cs.as_slice())
}

/// A shard file named `{split}-{shard}-of-{total}` belongs to `split`, for
/// any split name without a hyphen; a stem without a hyphen is a split of
/// its own.
pub proof fn law_shard_names_give_their_split(split: Seq<char>, rest: Seq<char>)
    requires
        forall|i: int| 0 <= i < split.len() ==> split[i] != '-',
    ensures
        split_name_of(split + seq!['-'] + rest) == split,
        split_name_of(split) == split,
{
    let stem = split + seq!['-'] + rest;
    let n = split.len() as int;
    assert(stem[n] == '-');
    assert(has_char(stem, '-'));
    let k = choose|k: int| 0 <= k < stem.len() && stem[k] == '-' && forall|j: int| 0 <= j < k ==> stem[j] != '-';
    if k < n {
        assert(stem[k] == split[k]);
    }
    if k > n {
        assert(stem[n] != '-');
    }
    assert(stem.take(n) =~= split);
    assert(!has_char(split, '-'));
}

/// The views of split entries.
pub open spec fn split_views(v: Seq<(String, String)>) -> Seq<(Seq<char>, Seq<char>)> {
    v.map_values(|e: (String, String)| (e.0@, e.1@))
}

/// Split names strictly ascending (the order of a `BTreeMap`).
pub open spec fn splits_sorted(v: Seq<(Seq<char>, Seq<char>)>) -> bool {
    forall|i: int, j: int| 0 <= i < j < v.len() ==> lex_lt(#[trigger] v[i].0, #[trigger] v[j].0)
}

/// Whether some entry is for split `k`.
pub open spec fn has_split(v: Seq<(Seq<char>, Seq<char>)>, k: Seq<char>) -> bool {
    exists|i: int| 0 <= i < v.len() && #[trigger] v[i].0 == k
}

/// Records the parquet file `path` (file stem `stem`) for its split; a split
/// keeps the first file recorded for it. Splits stay in ascending order.
pub fn register_parquet_file(splits: &mut Vec<(String, String)>, stem: &str, path: String)
    requires
        splits_sorted(split_views(old(splits)@)),
    ensures
        splits_sorted(split_views(final(splits)@)),
        has_split(split_views(old(splits)@), split_name_of(stem@)) ==> final(splits)@ == old(splits)@,
        !has_split(split_views(old(splits)@), split_name_of(stem@)) ==> exists|pos: int|
            0 <= pos <= old(splits)@.len() && split_views(final(splits)@) == split_views(old(splits)@).insert(
                pos,
                (split_name_of(stem@), path@),
            ),
{
    let name = split_name(stem);
    let key = chars_of(name.as_str());
    let ghost v = split_views(splits@);
    let mut i: usize = 0;
    while i < splits.len()
        invariant
            i <= splits@.len(),
            v == split_views(splits@),
            splits@ == old(splits)@,
            key@ == split_name_of(stem@),
            key@ == name@,
            forall|j: int| 0 <= j < i ==> lex_lt(#[trigger] v[j].0, key@),
            splits_sorted(v),
        decreases splits.len() - i,
    {
        let k = chars_of(splits[i].0.as_str());
        assert(v[i as int].0 == k@);
        if crate::text::chars_eq(k.as_slice(), key.as_slice()) {
            return;
        }
        if lex_less(key.as_slice(), k.as_slice()) {
            proof {
                assert forall|j: int| 0 <= j < v.len() implies #[trigger] v[j].0 != key@ by {
                    if j < i {
                        if v[j].0 == key@ {
                            crate::text::lemma_lex_irreflexive(key@);
                        }
                    } else
                    if j > i {
                        crate::text::lemma_lex_transitive(key@, v[i as int].0, v[j].0);
                        crate::text::lemma_lex_irreflexive(key@);
                    } else {
                        crate::text::lemma_lex_irreflexive(key@);
                    }
                }
                assert(!has_split(v, key@));
            }
            let ghost entry = (name, path);
            let ghost before = splits@;
            splits.insert(i, (name, path));
            proof {
                assert(splits@ == before.insert(i as int, entry));
                assert(entry.0@ == key@);
                assert forall|j: int| 0 <= j < splits@.len() implies #[trigger] split_views(splits@)[j] == v.insert(i as int, (key@, path@))[j] by {
                    if j < i {
                        assert(splits@[j] == before[j]);
                    } else if j > i {
                        assert(splits@[j] == before[j - 1]);
                    }
                }
                assert(split_views(splits@) =~= v.insert(i as int, (key@, path@)));
                let w = split_views(splits@);
                assert forall|a: int, b: int| 0 <= a < b < w.len() implies lex_lt(#[trigger] w[a].0, #[trigger] w[b].0) by {
                    if b < i {
                    } else if a < i && b == i {
                    } else if a <= i && b > i {
                        if b - 1 > i {
                            crate::text::lemma_lex_transitive(key@, v[i as int].0, v[b - 1].0);
                        }
                        assert(lex_lt(key@, w[b].0));
                        if a < i {
                            crate::text::lemma_lex_transitive(w[a].0, key@, w[b].0);
                        }
                    } else {
                    }
                }
            }
            return;
        }
        proof {
            lemma_lex_total(k@, key@);
        }
        i += 1;
    }
    let ghost entry = (name, path);
    assert(entry.0@ == key@);
    splits.push((name, path));
    proof {
        assert forall|j: int| 0 <= j < v.len() implies #[trigger] v[j].0 != key@ by {
            if v[j].0 == key@ {
                crate::text::lemma_lex_irreflexive(key@);
            }
        }
        assert(!has_split(v, key@));
        assert(split_views(splits@) =~= v.insert(v.len() as int, (key@, path@)));
    }
}

/// The names of the splits, in order.
pub fn available_splits(splits: &Vec<(String, String)>) -> (names: Vec<String>)
    ensures
        names@.len() == splits@.len(),
        forall|i: int| 0 <= i < names@.len() ==> #[trigger] names@[i]@ == splits@[i].0@,
{
    let mut names: Vec<String> = Vec::new();
    let mut i: usize = 0;
    while i < splits.len()
        invariant
            i <= splits@.len(),
            names@.len() == i,
            forall|k: int| 0 <= k < i ==> #[trigger] names@[k]@ == splits@[k].0@,
        decreases splits.len() - i,
    {
        names.push(splits[i].0.clone());
        i += 1;
    }
    names
}

fn find_split(splits: &Vec<(String, String)>, name: &str) -> (r: Option<usize>)
    ensures
        match r {
            Some(i) => i < splits@.len() && splits@[i as int].0@ == name@ && forall|j: int| 0 <= j < i ==> splits@[j].0@ != name@,
            None => forall|j: int| 0 <= j < splits@.len() ==> splits@[j].0@ != name@,
        },
{
    let mut i: usize = 0;
    while i < splits.len()
        invariant
            i <= splits@.len(),
            forall|j: int| 0 <= j < i ==> splits@[j].0@ != name@,
        decreases splits.len() - i,
    {
        if str_is(splits[i].0.as_str(), name) {
            return Some(i);
        }
        i += 1;
    }
    None
}

/// The split the viewer shows: the requested one if the dataset has it,
/// else the first; `None` when the dataset has no parquet file.
pub fn choose_viewer_split(splits: &Vec<(String, String)>, requested: &str) -> (r: Option<usize>)
    ensures
        splits@.len() == 0 ==> r is None,
        splits@.len() > 0 ==> r is Some,
        match r {
            Some(i) => i < splits@.len() && if has_split(split_views(splits@), requested@) {
                splits@[i as int].0@ == requested@ && forall|j: int| 0 <= j < i ==> splits@[j].0@ != requested@
            } else {
                i == 0
            },
            None => true,
        },
{
    if splits.len() == 0 {
        return None;
    }
    match find_split(splits, requested) {
        Some(i) => {
            assert(split_views(splits@)[i as int].0 == requested@);
            Some(i)
        },
        None => {
            assert(!has_split(split_views(splits@), requested@)) by {
                if has_split(split_views(splits@), requested@) {
                    let i = choose|i: int| 0 <= i < split_views(splits@).len() && #[trigger] split_views(splits@)[i].0 == requested@;
                    assert(splits@[i].0@ == requested@);
                }
            }
            Some(0)
        },
    }
}

/// The parquet file the preview reads: the `train` split's, else the first.
pub fn choose_preview_split(splits: &Vec<(String, String)>) -> (r: Option<usize>)
    ensures
        splits@.len() == 0 <==> r is None,
        match r {
            Some(i) => i < splits@.len() && if has_split(split_views(splits@), "train"@) {
                splits@[i as int].0@ == "train"@ && forall|j: int| 0 <= j < i ==> splits@[j].0@ != "train"@
            } else {
                i == 0
            },
            None => true,
        },
{
    choose_viewer_split(splits, "train")
}

// ---------------------------------------------------------------------------
// Columns
// ---------------------------------------------------------------------------

/// Physical types shown as numbers.
pub open spec fn is_numeric(p: PhysicalType) -> bool {
    p == PhysicalType::Int32 || p == PhysicalType::Int64 || p == PhysicalType::Int96
        || p == PhysicalType::Float || p == PhysicalType::Double
}

/// How a top-level field is shown: image groups as images, numeric
/// primitive columns as numbers, everything else as text.
pub open spec fn column_type_of(f: SchemaField) -> ColumnType {
    if is_image_field(f) {
        ColumnType::Image
    } else {
        match f.kind {
            SchemaFieldKind::Primitive(p) => if is_numeric(p) {
                ColumnType::Number
            } else {
                ColumnType::Text
            },
            SchemaFieldKind::Group(_) => ColumnType::Text,
        }
    }
}

/// How the viewer types a column, whatever the field's name: a primitive
/// column of a 32-, 64- or 96-bit integer or a 32- or 64-bit float shows
/// numbers; a boolean or byte-array column shows text; a group shows images
/// when it has a `bytes` member and text otherwise.
pub proof fn law_column_types(name: String, p: PhysicalType, subs: Vec<String>)
    ensures
        (p == PhysicalType::Int32 || p == PhysicalType::Int64 || p == PhysicalType::Int96
            || p == PhysicalType::Float || p == PhysicalType::Double) ==> column_type_of(
            SchemaField { name, kind: SchemaFieldKind::Primitive(p) },
        ) == ColumnType::Number,
        (p == PhysicalType::Boolean || p == PhysicalType::ByteArray || p == PhysicalType::FixedLenByteArray)
            ==> column_type_of(SchemaField { name, kind: SchemaFieldKind::Primitive(p) }) == ColumnType::Text,
        (exists|i: int| 0 <= i < subs@.len() && #[trigger] subs@[i]@ == "bytes"@) ==> column_type_of(
            SchemaField { name, kind: SchemaFieldKind::Group(subs) },
        ) == ColumnType::Image,
        (forall|i: int| 0 <= i < subs@.len() ==> #[trigger] subs@[i]@ != "bytes"@) ==> column_type_of(
            SchemaField { name, kind: SchemaFieldKind::Group(subs) },
        ) == ColumnType::Text,
{
    let g = SchemaField { name, kind: SchemaFieldKind::Group(subs) };
    if exists|i: int| 0 <= i < subs@.len() && #[trigger] subs@[i]@ == "bytes"@ {
        let i = choose|i: int| 0 <= i < subs@.len() && #[trigger] subs@[i]@ == "bytes"@;
        match g.kind {
            SchemaFieldKind::Group(v) => {
                assert(v == subs);
                assert(v@[i]@ == "bytes"@);
            },
            SchemaFieldKind::Primitive(_) => {},
        }
        assert(is_image_field(g));
    }
}

/// The viewer's columns: one per top-level field, in schema order.
pub fn viewer_columns(fields: &Vec<SchemaField>) -> (cols: Vec<ColumnInfo>)
    ensures
        cols@.len() == fields@.len(),
        forall|i: int| 0 <= i < cols@.len() ==> (#[trigger] cols@[i]).name@ == fields@[i].name@
            && cols@[i].col_type == column_type_of(fields@[i]),
{
    let mut cols: Vec<ColumnInfo> = Vec::new();
    let mut i: usize = 0;
    while i < fields.len()
        invariant
            i <= fields@.len(),
            cols@.len() == i,
            forall|k: int| 0 <= k < i ==> (#[trigger] cols@[k]).name@ == fields@[k].name@
                && cols@[k].col_type == column_type_of(fields@[k]),
        decreases fields.len() - i,
    {
        let f = &fields[i];
        let t = if image_field(f) {
            ColumnType::Image
        } else {
            match &f.kind {
                SchemaFieldKind::Primitive(p) => match p {
                    PhysicalType::Int32 | PhysicalType::Int64 | PhysicalType::Int96
                    | PhysicalType::Float | PhysicalType::Double => ColumnType::Number,
                    _ => ColumnType::Text,
                },
                SchemaFieldKind::Group(_) => ColumnType::Text,
            }
        };
        cols.push(ColumnInfo { name: f.name.clone(), col_type: t });
        i += 1;
    }
    cols
}

// ---------------------------------------------------------------------------
// Cells
// ---------------------------------------------------------------------------

/// Bytes as text, invalid UTF-8 replaced by U+FFFD (`String::from_utf8_lossy`).
pub uninterp spec fn utf8_lossy(b: Seq<u8>) -> Seq<char>;

/// `String::from_utf8_lossy(b).into_owned()`. Claimed: the result depends on
/// the bytes alone, and valid UTF-8 is decoded as it is.
#[verifier::external_body]
pub(crate) fn lossy_text(b: &[u8]) -> (s: String)
    ensures
        s@ == utf8_lossy(b@),
        valid_utf8(b@) ==> s@ == decode_utf8(b@),
{
    String::from_utf8_lossy(b).into_owned()
}

/// The thumbnail of the first `bytes` member of an image value that decodes.
pub open spec fn first_group_thumbnail(entries: Seq<GroupEntry>) -> Option<Seq<char>>
    decreases entries.len(),
{
    if entries.len() == 0 {
        None
    } else if entries[0].name@ == "bytes"@ && entries[0].bytes is Some && thumbnail_url_of(
        entries[0].bytes->0@,
    ) is Some {
        thumbnail_url_of(entries[0].bytes->0@)
    } else {
        first_group_thumbnail(entries.drop_first())
    }
}

/// A rendered cell: its kind and its text.
pub open spec fn cell_view(c: DatasetCell) -> (ColumnType, Seq<char>) {
    match c {
        DatasetCell::Image(s) => (ColumnType::Image, s@),
        DatasetCell::Text(s) => (ColumnType::Text, s@),
        DatasetCell::Number(s) => (ColumnType::Number, s@),
    }
}

/// How a value is rendered in a column of the given type: an image column
/// shows the thumbnail of the value's first decodable `bytes` member, or
/// `(image)`; a number column shows integers in decimal and floats with four
/// decimals; a text column shows strings as they are and bytes as lossy
/// UTF-8; anything else is shown as displayed.
pub open spec fn cell_of(f: FieldValue, t: ColumnType) -> (ColumnType, Seq<char>) {
    match t {
        ColumnType::Image => match f.kind {
            FieldKind::Group(entries) => match first_group_thumbnail(entries@) {
                Some(u) => (ColumnType::Image, u),
                None => (ColumnType::Text, "(image)"@),
            },
            _ => (ColumnType::Text, "(image)"@),
        },
        ColumnType::Number => (
            ColumnType::Number,
            match f.kind {
                FieldKind::Int(v) => signed_decimal(v as int),
                FieldKind::Long(v) => signed_decimal(v as int),
                FieldKind::Float(s) => s@,
                FieldKind::Double(s) => s@,
                FieldKind::UInt(v) => decimal(v as nat),
                FieldKind::ULong(v) => decimal(v as nat),
                _ => f.shown@,
            },
        ),
        ColumnType::Text => (
            ColumnType::Text,
            match f.kind {
                FieldKind::Str(s) => s@,
                FieldKind::Bytes(b) => utf8_lossy(b@),
                _ => f.shown@,
            },
        ),
    }
}

fn group_thumbnail(entries: &Vec<GroupEntry>) -> (r: Option<String>)
    ensures
        match r {
            Some(u) => first_group_thumbnail(entries@) == Some(u@),
            None => first_group_thumbnail(entries@) is None,
        },
{
    let mut i: usize = 0;
    assert(entries@.skip(0) == entries@);
    while i < entries.len()
        invariant
            i <= entries@.len(),
            first_group_thumbnail(entries@) == first_group_thumbnail(entries@.skip(i as int)),
        decreases entries.len() - i,
    {
        let e = &entries[i];
        assert(entries@.skip(i as int)[0] == *e);
        if str_is(e.name.as_str(), "bytes") {
            if let Some(b) = &e.bytes {
                if let Some(u) = thumbnail_data_url(b.as_slice()) {
                    return Some(u);
                }
            }
        }
        assert(entries@.skip(i as int).drop_first() == entries@.skip(i + 1));
        i += 1;
    }
    None
}

/// Renders a value in a column of the given type.
pub fn field_to_cell(field: &FieldValue, col_type: &ColumnType) -> (c: DatasetCell)
    ensures
        cell_view(c) == cell_of(*field, *col_type),
{
    match col_type {
        ColumnType::Image => {
            if let FieldKind::Group(entries) = &field.kind {
                if let Some(u) = group_thumbnail(entries) {
                    return DatasetCell::Image(u);
                }
            }
            DatasetCell::Text(string_of(chars_of("(image)").as_slice()))
        },
        ColumnType::Number => {
            let s = match &field.kind {
                FieldKind::Int(v) => string_of(signed_decimal_chars(*v as i128).as_slice()),
                FieldKind::Long(v) => string_of(signed_decimal_chars(*v as i128).as_slice()),
                FieldKind::Float(s) => s.clone(),
                FieldKind::Double(s) => s.clone(),
                FieldKind::UInt(v) => string_of(decimal_chars(*v as u128).as_slice()),
                FieldKind::ULong(v) => string_of(decimal_chars(*v as u128).as_slice()),
                _ => field.shown.clone(),
            };
            DatasetCell::Number(s)
        },
        ColumnType::Text => {
            let s = match &field.kind {
                FieldKind::Str(s) => s.clone(),
                FieldKind::Bytes(b) => lossy_text(b.as_slice()),
                _ => field.shown.clone(),
            };
            DatasetCell::Text(s)
        },
    }
}

// ---------------------------------------------------------------------------
// Rows and pages
// ---------------------------------------------------------------------------

/// The cell shown for column `col` of a row: its value rendered, or `—`
/// when the row has no value of that name.
pub open spec fn row_cell(row: Seq<RowEntry>, col: ColumnInfo) -> (ColumnType, Seq<char>) {
    match entry_named(row, col.name@) {
        Some(v) => cell_of(v, col.col_type),
        None => (ColumnType::Text, "—"@),
    }
}

/// One viewer row: a cell for each column, in column order.
pub fn viewer_row(index: u64, row: &Vec<RowEntry>, columns: &Vec<ColumnInfo>) -> (r: DatasetViewerRow)
    ensures
        r.index == index,
        r.cells@.len() == columns@.len(),
        forall|i: int| 0 <= i < columns@.len() ==> cell_view(#[trigger] r.cells@[i]) == row_cell(row@, columns@[i]),
{
    let mut cells: Vec<DatasetCell> = Vec::new();
    let mut i: usize = 0;
    while i < columns.len()
        invariant
            i <= columns@.len(),
            cells@.len() == i,
            forall|k: int| 0 <= k < i ==> cell_view(#[trigger] cells@[k]) == row_cell(row@, columns@[k]),
        decreases columns.len() - i,
    {
        let col = &columns[i];
        let cell = match find_entry(row, col.name.as_str()) {
            Some(v) => field_to_cell(v, &col.col_type),
            None => DatasetCell::Text(string_of(chars_of("—").as_slice())),
        };
        cells.push(cell);
        i += 1;
    }
    DatasetViewerRow { index, cells }
}

/// A page of the viewer: the first `limit` of the rows read after skipping
/// `offset` rows, numbered from `offset`; the total is the file's row count.
pub fn viewer_page(
    columns: Vec<ColumnInfo>,
    rows: &Vec<Vec<RowEntry>>,
    num_rows: i64,
    offset: u64,
    limit: u64,
    split: String,
    available: Vec<String>,
) -> (p: DatasetViewerPage)
    requires
        rows@.len() == 0 || limit == 0 || offset + (if rows@.len() < limit { rows@.len() as int } else { limit as int }) - 1 <= u64::MAX,
    ensures
        p.rows@.len() == if rows@.len() < limit { rows@.len() as int } else { limit as int },
        forall|i: int| 0 <= i < p.rows@.len() ==> (#[trigger] p.rows@[i]).index == offset + i
            && p.rows@[i].cells@.len() == columns@.len()
            && forall|k: int| 0 <= k < columns@.len() ==> cell_view(#[trigger] p.rows@[i].cells@[k]) == row_cell(rows@[i]@, columns@[k]),
        p.columns == columns,
        p.total_rows == num_rows as u64,
        p.offset == offset,
        p.limit == limit,
        p.split == split,
        p.available_splits == available,
{
    let mut out: Vec<DatasetViewerRow> = Vec::new();
    let mut i: usize = 0;
    while i < rows.len() && (i as u64) < limit
        invariant
            i <= rows@.len(),
            i <= limit,
            rows@.len() == 0 || limit == 0 || offset + (if rows@.len() < limit { rows@.len() as int } else { limit as int }) - 1 <= u64::MAX,
            out@.len() == i,
            forall|j: int| 0 <= j < i ==> (#[trigger] out@[j]).index == offset + j
                && out@[j].cells@.len() == columns@.len()
                && forall|k: int| 0 <= k < columns@.len() ==> cell_view(#[trigger] out@[j].cells@[k]) == row_cell(rows@[j]@, columns@[k]),
        decreases rows.len() - i,
    {
        let r = viewer_row(offset + i as u64, &rows[i], &columns);
        out.push(r);
        i += 1;
    }
    DatasetViewerPage {
        columns,
        rows: out,
        total_rows: num_rows as u64,
        offset,
        limit,
        split,
        available_splits: available,
    }
}

// ---------------------------------------------------------------------------
// Walking the rows of a page
// ---------------------------------------------------------------------------

/// How far the walk over a file's rows for one page has come: rows skipped
/// before the page, and rows taken into it.
#[derive(Debug, Clone, Copy, PartialEq, Eq, Structural)]
pub struct PageCursor {
    pub skipped: u64,
    pub taken: u64,
}

/// What reading the next row of the file gave.
#[derive(Debug, Clone, PartialEq)]
pub enum RowEvent {
    /// A row, with its values.
    Row(Vec<RowEntry>),
    /// The row could not be read; the error as displayed.
    Failed(String),
    /// The file has no more rows.
    End,
}

/// What to do after a row was read.
#[derive(Debug, Clone, PartialEq)]
pub enum PageAction {
    /// The row lies before the page and is passed over.
    Skipped,
    /// The row belongs to the page.
    Keep(Vec<RowEntry>),
    /// The page cannot be read; the message to report.
    Fail(String),
    /// The page is complete.
    Done,
}

/// The cursor before any row is read.
pub fn page_start() -> (c: PageCursor)
    ensures
        c.skipped == 0,
        c.taken == 0,
{
    PageCursor { skipped: 0, taken: 0 }
}

/// Whether the walk reads another row: while rows before the page remain to
/// be skipped, then while the page holds fewer than `limit` rows.
pub open spec fn wants_row_of(offset: u64, limit: u64, cur: PageCursor) -> bool {
    cur.skipped < offset || cur.taken < limit
}

/// Whether the walk reads another row.
pub fn page_wants_row(offset: u64, limit: u64, cur: PageCursor) -> (b: bool)
    ensures
        b == wants_row_of(offset, limit, cur),
{
    cur.skipped < offset || cur.taken < limit
}

/// The message of a row that could not be read.
pub open spec fn row_error_text(err: Seq<char>) -> Seq<char> {
    "Row read error: "@ + err
}

/// One step of the walk over a file's rows for the page of `limit` rows
/// after `offset`: while rows before the page remain, any row read (even one
/// that failed) is skipped, and the end of the file ends the page empty;
/// then each row read is kept, a row that fails ends the walk with the
/// row-read message, and the end of the file completes the page.
pub fn page_step(offset: u64, limit: u64, cur: PageCursor, ev: RowEvent) -> (r: (PageCursor, PageAction))
    requires
        cur.skipped <= offset,
        cur.taken <= limit,
        cur.skipped < offset ==> cur.taken == 0,
        wants_row_of(offset, limit, cur),
    ensures
        r.0.skipped <= offset,
        r.0.taken <= limit,
        r.0.skipped < offset ==> r.0.taken == 0,
        cur.skipped < offset ==> match ev {
            RowEvent::End => r.0 == cur && r.1 == PageAction::Done,
            _ => r.0 == PageCursor { skipped: (cur.skipped + 1) as u64, taken: 0 } && r.1 == PageAction::Skipped,
        },
        cur.skipped == offset ==> match ev {
            RowEvent::Row(row) => r.0 == PageCursor { skipped: offset, taken: (cur.taken + 1) as u64 }
                && r.1 == PageAction::Keep(row),
            RowEvent::Failed(e) => r.0 == cur && (r.1 matches PageAction::Fail(m) && m@ == row_error_text(e@)),
            RowEvent::End => r.0 == cur && r.1 == PageAction::Done,
        },
{
    if cur.skipped < offset {
        match ev {
            RowEvent::End => (cur, PageAction::Done),
            _ => (PageCursor { skipped: cur.skipped + 1, taken: 0 }, PageAction::Skipped),
        }
    } else {
        match ev {
            RowEvent::Row(row) => (PageCursor { skipped: cur.skipped, taken: cur.taken + 1 }, PageAction::Keep(row)),
            RowEvent::Failed(e) => {
                let mut m = chars_of("Row read error: ");
                crate::text::extend_chars(&mut m, chars_of(e.as_str()).as_slice());
                (cur, PageAction::Fail(string_of(m.as_slice())))
            },
            RowEvent::End => (cur, PageAction::Done),
        }
    }
}

} // verus!
