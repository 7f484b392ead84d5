//! The preview of a dataset: a summary of its record, thumbnails of sample
//! images, and the distribution of its class labels.

use vstd::prelude::*;
use base64::Engine;
use crate::models::{human_size, Dataset, DatasetPreview};
use crate::table::{FieldKind, FieldValue, GroupEntry, RowEntry, SchemaField, SchemaFieldKind};
use crate::text::{
    chars_of, decimal, decimal_chars, extend_chars, lex_less, lex_lt,
    lemma_lex_irreflexive, lemma_lex_total, lemma_lex_transitive, signed_decimal,
    signed_decimal_chars, str_is, string_of,
};

verus! {

broadcast use {vstd::seq_lib::group_to_multiset_ensures, vstd::multiset::group_multiset_axioms};

// ---------------------------------------------------------------------------
// Summary
// ---------------------------------------------------------------------------

/// The views of summary pairs.
pub open spec fn pair_views(v: Seq<(String, String)>) -> Seq<(Seq<char>, Seq<char>)> {
    v.map_values(|p: (String, String)| (p.0@, p.1@))
}

/// The summary lines of a dataset's preview, in order.
pub open spec fn summary_of(d: Dataset) -> Seq<(Seq<char>, Seq<char>)> {
    let base = seq![
        ("Name"@, d.name@),
        ("Type"@, d.dataset_type@),
        ("Format"@, d.format@),
        ("Size"@, human_size(d.file_size as nat)),
        ("Source"@, d.source@),
        ("Status"@, d.status@),
    ];
    let with_samples = match d.num_samples {
        Some(n) => base.push(("Samples"@, decimal(n as nat))),
        None => base,
    };
    match d.num_classes {
        Some(n) => with_samples.push(("Classes"@, decimal(n as nat))),
        None => with_samples,
    }
}

/// The summary of a dataset shows its name, type, format, size, source and
/// status, in that order; then a `Samples` line exactly when the number of
/// samples is known and a `Classes` line exactly when the number of classes
/// is known, each with its number, and nothing else.
pub proof fn law_summary_lines(d: Dataset)
    ensures
        summary_of(d).len() == 6 + (if d.num_samples is Some { 1int } else { 0 }) + (if d.num_classes is Some {
            1int
        } else {
            0
        }),
        summary_of(d)[0] == ("Name"@, d.name@),
        summary_of(d)[1] == ("Type"@, d.dataset_type@),
        summary_of(d)[2] == ("Format"@, d.format@),
        summary_of(d)[3] == ("Size"@, human_size(d.file_size as nat)),
        summary_of(d)[4] == ("Source"@, d.source@),
        summary_of(d)[5] == ("Status"@, d.status@),
        d.num_samples is Some ==> summary_of(d)[6] == ("Samples"@, decimal(d.num_samples->0 as nat)),
        d.num_classes is Some ==> summary_of(d).last() == ("Classes"@, decimal(d.num_classes->0 as nat)),
        d.num_classes is None && d.num_samples is Some ==> summary_of(d).last() == ("Samples"@, decimal(
            d.num_samples->0 as nat,
        )),
{
}

fn pair(label: &str, value: String) -> (p: (String, String))
    ensures
        p.0@ == label@,
        p.1@ == value@,
{
    (string_of(chars_of(label).as_slice()), value)
}

/// The summary lines of a dataset's preview: name, type, format, size,
/// source and status, then the sample and class counts where known.
pub fn preview_summary(d: &Dataset) -> (s: Vec<(String, String)>)
    ensures
        pair_views(s@) == summary_of(*d),
{
    let mut s: Vec<(String, String)> = Vec::new();
    s.push(pair("Name", d.name.clone()));
    s.push(pair("Type", d.dataset_type.clone()));
    s.push(pair("Format", d.format.clone()));
    s.push(pair("Size", d.human_readable_size()));
    s.push(pair("Source", d.source.clone()));
    s.push(pair("Status", d.status.clone()));
    if let Some(n) = d.num_samples {
        s.push(pair("Samples", string_of(decimal_chars(n as u128).as_slice())));
    }
    if let Some(n) = d.num_classes {
        s.push(pair("Classes", string_of(decimal_chars(n as u128).as_slice())));
    }
    assert(pair_views(s@) =~= summary_of(*d));
    s
}

/// A preview with only the summary filled in.
pub fn new_preview(d: &Dataset) -> (p: DatasetPreview)
    ensures
        p.sample_images@.len() == 0,
        p.class_distribution@.len() == 0,
        pair_views(p.summary@) == summary_of(*d),
{
    DatasetPreview {
        sample_images: Vec::new(),
        class_distribution: Vec::new(),
        summary: preview_summary(d),
    }
}

// ---------------------------------------------------------------------------
// Thumbnails
// ---------------------------------------------------------------------------

/// The standard base64 alphabet.
pub open spec fn b64(v: nat) -> char {
    "ABCDEFGHIJKLMNOPQRSTUVWXYZabcdefghijklmnopqrstuvwxyz0123456789+/"@[v as int]
}

/// Standard base64 with `=` padding (RFC 4648, section 4).
pub open spec fn base64_of(b: Seq<u8>) -> Seq<char>
    decreases b.len(),
{
    if b.len() == 0 {
        Seq::<char>::empty()
    } else if b.len() == 1 {
        seq![b64((b[0] / 4) as nat), b64(((b[0] % 4) * 16) as nat), '=', '=']
    } else if b.len() == 2 {
        seq![
            b64((b[0] / 4) as nat),
            b64(((b[0] % 4) * 16 + b[1] / 16) as nat),
            b64(((b[1] % 16) * 4) as nat),
            '=',
        ]
    } else {
        seq![
            b64((b[0] / 4) as nat),
            b64(((b[0] % 4) * 16 + b[1] / 16) as nat),
            b64(((b[1] % 16) * 4 + b[2] / 64) as nat),
            b64((b[2] % 64) as nat),
        ] + base64_of(b.skip(3))
    }
}

/// The PNG bytes of a thumbnail of an encoded image, scaled to fit in
/// `max_w` x `max_h` with its aspect kept, or `None` where the bytes are not
/// an image the decoder reads or the encoder fails.
pub uninterp spec fn png_thumbnail_of(image: Seq<u8>, max_w: u32, max_h: u32) -> Option<Seq<u8>>;

/// Decodes an image (`image::load_from_memory`), scales it to fit in
/// `max_w` x `max_h` (`DynamicImage::thumbnail`) and encodes it as PNG
/// (`write_to` with `ImageFormat::Png`). Claimed: the result depends on the
/// bytes and the bounds alone.
#[verifier::external_body]
fn png_thumbnail(image_bytes: &[u8], max_w: u32, max_h: u32) -> (r: Option<Vec<u8>>)
    ensures
        match r {
            Some(p) => png_thumbnail_of(image_bytes@, max_w, max_h) == Some(p@),
            None => png_thumbnail_of(image_bytes@, max_w, max_h) is None,
        },
{
    let img = image::load_from_memory(image_bytes).ok()?;
    let thumb = img.thumbnail(max_w, max_h);
    let mut buf = std::io::Cursor::new(Vec::new());
    thumb.write_to(&mut buf, image::ImageFormat::Png).ok()?;
    Some(buf.into_inner())
}

/// Base64 of some bytes (`base64::engine::general_purpose::STANDARD.encode`).
/// Claimed: standard alphabet with `=` padding, as RFC 4648 defines it.
#[verifier::external_body]
fn base64_encode(data: &[u8]) -> (s: String)
    ensures
        s@ == base64_of(data@),
{
    base64::engine::general_purpose::STANDARD.encode(data)
}

/// The data URL of a PNG.
pub open spec fn png_data_url(png: Seq<u8>) -> Seq<char> {
    "data:image/png;base64,"@ + base64_of(png)
}

/// The thumbnail (fitted into 64x64) of an encoded image as a PNG data URL,
/// if it decodes.
pub open spec fn thumbnail_url_of(image: Seq<u8>) -> Option<Seq<char>> {
    match png_thumbnail_of(image, 64, 64) {
        Some(p) => Some(png_data_url(p)),
        None => None,
    }
}

/// The thumbnail (fitted into 64x64) of an encoded image as a PNG data URL,
/// if it decodes.
pub fn thumbnail_data_url(image_bytes: &[u8]) -> (r: Option<String>)
    ensures
        match r {
            Some(u) => thumbnail_url_of(image_bytes@) == Some(u@),
            None => thumbnail_url_of(image_bytes@) is None,
        },
{
    match png_thumbnail(image_bytes, 64, 64) {
        Some(png) => {
            let encoded = base64_encode(png.as_slice());
            let mut url = chars_of("data:image/png;base64,");
            extend_chars(&mut url, chars_of(encoded.as_str()).as_slice());
            Some(string_of(url.as_slice()))
        },
        None => None,
    }
}

// ---------------------------------------------------------------------------
// Image files
// ---------------------------------------------------------------------------

/// The PNG bytes of a thumbnail of an image file with extension `ext`,
/// decoded in the format that extension names and scaled to fit in
/// `max_w` x `max_h`; `None` where the extension names no format, the bytes
/// do not decode in it, or the encoder fails.
pub uninterp spec fn png_file_thumbnail_of(image: Seq<u8>, ext: Seq<char>, max_w: u32, max_h: u32) -> Option<Seq<u8>>;

/// Decodes an image file's bytes in the format its extension names
/// (`ImageFormat::from_extension`, `image::load_from_memory_with_format`, as
/// `image::open` does), scales it (`DynamicImage::thumbnail`) and encodes it
/// as PNG. Claimed: the result depends on the bytes, the extension and the
/// bounds alone.
#[verifier::external_body]
fn png_file_thumbnail(image_bytes: &[u8], ext: &str, max_w: u32, max_h: u32) -> (r: Option<Vec<u8>>)
    ensures
        match r {
            Some(p) => png_file_thumbnail_of(image_bytes@, ext@, max_w, max_h) == Some(p@),
            None => png_file_thumbnail_of(image_bytes@, ext@, max_w, max_h) is None,
        },
{
    let format = image::ImageFormat::from_extension(ext)?;
    let img = image::load_from_memory_with_format(image_bytes, format).ok()?;
    let thumb = img.thumbnail(max_w, max_h);
    let mut buf = std::io::Cursor::new(Vec::new());
    thumb.write_to(&mut buf, image::ImageFormat::Png).ok()?;
    Some(buf.into_inner())
}

/// The thumbnail (fitted into 64x64) of an image file with extension `ext`
/// as a PNG data URL, if it decodes in the format the extension names.
pub open spec fn file_thumbnail_url_of(image: Seq<u8>, ext: Seq<char>) -> Option<Seq<char>> {
    match png_file_thumbnail_of(image, ext, 64, 64) {
        Some(p) => Some(png_data_url(p)),
        None => None,
    }
}

/// The thumbnail (fitted into 64x64) of an image file with extension `ext`
/// as a PNG data URL, if it decodes in the format the extension names.
pub fn file_thumbnail_data_url(image_bytes: &[u8], ext: &str) -> (r: Option<String>)
    ensures
        match r {
            Some(u) => file_thumbnail_url_of(image_bytes@, ext@) == Some(u@),
            None => file_thumbnail_url_of(image_bytes@, ext@) is None,
        },
{
    match png_file_thumbnail(image_bytes, ext, 64, 64) {
        Some(png) => {
            let encoded = base64_encode(png.as_slice());
            let mut url = chars_of("data:image/png;base64,");
            extend_chars(&mut url, chars_of(encoded.as_str()).as_slice());
            Some(string_of(url.as_slice()))
        },
        None => None,
    }
}

/// A string in lower case as `str::to_lowercase` maps it (Unicode lower-case
/// mapping).
pub uninterp spec fn lowercase(s: Seq<char>) -> Seq<char>;

/// `str::to_lowercase`. Claimed: the result depends on the text alone.
#[verifier::external_body]
fn to_lowercase(s: &str) -> (r: String)
    ensures
        r@ == lowercase(s@),
{
    s.to_lowercase()
}

/// The extensions (in lower case) of files shown as sample images.
pub open spec fn is_image_ext(lower: Seq<char>) -> bool {
    ||| lower == "png"@
    ||| lower == "jpg"@
    ||| lower == "jpeg"@
    ||| lower == "bmp"@
    ||| lower == "gif"@
    ||| lower == "webp"@
}

/// Whether a file with this extension is shown as a sample image; the
/// extension is compared in lower case.
pub fn is_image_extension(ext: &str) -> (b: bool)
    ensures
        b == is_image_ext(lowercase(ext@)),
{
    let lower = to_lowercase(ext);
    let l = lower.as_str();
    str_is(l, "png") || str_is(l, "jpg") || str_is(l, "jpeg") || str_is(l, "bmp") || str_is(
        l,
        "gif",
    ) || str_is(l, "webp")
}

// ---------------------------------------------------------------------------
// Image and label columns
// ---------------------------------------------------------------------------

/// A group field with an immediate `bytes` member holds encoded images.
pub open spec fn is_image_field(f: SchemaField) -> bool {
    match f.kind {
        SchemaFieldKind::Group(subs) => exists|i: int| 0 <= i < subs@.len() && #[trigger] subs@[i]@ == "bytes"@,
        SchemaFieldKind::Primitive(_) => false,
    }
}

/// A field named `label` or `labels` holds class labels.
pub open spec fn is_label_field(f: SchemaField) -> bool {
    f.name@ == "label"@ || f.name@ == "labels"@
}

/// Whether a schema field holds encoded images.
pub fn image_field(f: &SchemaField) -> (b: bool)
    ensures
        b == is_image_field(*f),
{
    match &f.kind {
        SchemaFieldKind::Group(subs) => {
            let r = has_bytes_member(subs);
            proof {
                if r {
                    let i = choose|i: int| 0 <= i < subs@.len() && subs@[i]@ == "bytes"@;
                    assert(subs@[i]@ == "bytes"@);
                }
            }
            r
        },
        SchemaFieldKind::Primitive(_) => false,
    }
}

fn has_bytes_member(subs: &Vec<String>) -> (b: bool)
    ensures
        b == exists|i: int| 0 <= i < subs@.len() && #[trigger] subs@[i]@ == "bytes"@,
{
    let mut i: usize = 0;
    while i < subs.len()
        invariant
            i <= subs@.len(),
            forall|j: int| 0 <= j < i ==> subs@[j]@ != "bytes"@,
        decreases subs.len() - i,
    {
        if str_is(subs[i].as_str(), "bytes") {
            assert(subs@[i as int]@ == "bytes"@);
            return true;
        }
        i += 1;
    }
    false
}

/// The column the preview takes images from: the first image group field.
pub fn preview_image_column(fields: &Vec<SchemaField>) -> (r: Option<String>)
    ensures
        match r {
            Some(name) => exists|i: int|
                0 <= i < fields@.len() && is_image_field(#[trigger] fields@[i]) && fields@[i].name@
                    == name@ && forall|j: int| 0 <= j < i ==> !is_image_field(#[trigger] fields@[j]),
            None => forall|j: int| 0 <= j < fields@.len() ==> !is_image_field(#[trigger] fields@[j]),
        },
{
    let mut i: usize = 0;
    while i < fields.len()
        invariant
            i <= fields@.len(),
            forall|j: int| 0 <= j < i ==> !is_image_field(#[trigger] fields@[j]),
        decreases fields.len() - i,
    {
        if image_field(&fields[i]) {
            return Some(fields[i].name.clone());
        }
        i += 1;
    }
    None
}

/// The column the preview counts labels in: the last field named `label`
/// or `labels`.
pub fn preview_label_column(fields: &Vec<SchemaField>) -> (r: Option<String>)
    ensures
        match r {
            Some(name) => exists|i: int|
                0 <= i < fields@.len() && is_label_field(#[trigger] fields@[i]) && fields@[i].name@
                    == name@ && forall|j: int| i < j < fields@.len() ==> !is_label_field(#[trigger] fields@[j]),
            None => forall|j: int| 0 <= j < fields@.len() ==> !is_label_field(#[trigger] fields@[j]),
        },
{
    let mut i: usize = fields.len();
    while i > 0
        invariant
            i <= fields@.len(),
            forall|j: int| i <= j < fields@.len() ==> !is_label_field(#[trigger] fields@[j]),
        decreases i,
    {
        i -= 1;
        let n = fields[i].name.as_str();
        if str_is(n, "label") || str_is(n, "labels") {
            return Some(fields[i].name.clone());
        }
    }
    None
}

// ---------------------------------------------------------------------------
// Scanning rows
// ---------------------------------------------------------------------------

/// How many images the preview shows at most.
pub open spec fn max_samples() -> nat {
    12
}

/// How many rows are scanned for the class distribution.
pub open spec fn max_label_scan() -> nat {
    5000
}

/// The text a label value is counted under.
pub open spec fn label_text_of(f: FieldValue) -> Seq<char> {
    match f.kind {
        FieldKind::Int(v) => signed_decimal(v as int),
        FieldKind::Long(v) => signed_decimal(v as int),
        FieldKind::Str(s) => s@,
        _ => f.shown@,
    }
}

/// The text a label value is counted under: integers in decimal, strings as
/// they are, anything else as displayed.
pub fn label_text(f: &FieldValue) -> (s: String)
    ensures
        s@ == label_text_of(*f),
{
    match &f.kind {
        FieldKind::Int(v) => string_of(signed_decimal_chars(*v as i128).as_slice()),
        FieldKind::Long(v) => string_of(signed_decimal_chars(*v as i128).as_slice()),
        FieldKind::Str(s) => s.clone(),
        _ => f.shown.clone(),
    }
}

/// The value of the first entry of a row with the given name.
pub open spec fn entry_named(row: Seq<RowEntry>, name: Seq<char>) -> Option<FieldValue>
    decreases row.len(),
{
    if row.len() == 0 {
        None
    } else if row[0].name@ == name {
        Some(row[0].value)
    } else {
        entry_named(row.drop_first(), name)
    }
}

/// The value of the first entry of a row with the given name.
pub fn find_entry<'a>(row: &'a Vec<RowEntry>, name: &str) -> (r: Option<&'a FieldValue>)
    ensures
        match r {
            Some(v) => entry_named(row@, name@) == Some(*v),
            None => entry_named(row@, name@) is None,
        },
{
    let mut i: usize = 0;
    assert(row@.skip(0) == row@);
    while i < row.len()
        invariant
            i <= row@.len(),
            entry_named(row@, name@) == entry_named(row@.skip(i as int), name@),
        decreases row.len() - i,
    {
        assert(row@.skip(i as int)[0] == row@[i as int]);
        if str_is(row[i].name.as_str(), name) {
            return Some(&row[i].value);
        }
        assert(row@.skip(i as int).drop_first() == row@.skip(i + 1));
        i += 1;
    }
    None
}

/// The thumbnails of the `bytes` members of an image value, in order.
pub open spec fn group_thumbnails(entries: Seq<GroupEntry>) -> Seq<Seq<char>>
    decreases entries.len(),
{
    if entries.len() == 0 {
        Seq::<Seq<char>>::empty()
    } else {
        let rest = group_thumbnails(entries.drop_last());
        let e = entries.last();
        if e.name@ == "bytes"@ && e.bytes is Some && thumbnail_url_of(e.bytes->0@) is Some {
            rest.push(thumbnail_url_of(e.bytes->0@)->0)
        } else {
            rest
        }
    }
}

/// The thumbnails a row contributes to the preview.
pub open spec fn row_thumbnails(row: Seq<RowEntry>, image_col: Option<Seq<char>>) -> Seq<Seq<char>> {
    match image_col {
        Some(c) => match entry_named(row, c) {
            Some(v) => match v.kind {
                FieldKind::Group(entries) => group_thumbnails(entries@),
                _ => Seq::<Seq<char>>::empty(),
            },
            None => Seq::<Seq<char>>::empty(),
        },
        None => Seq::<Seq<char>>::empty(),
    }
}

/// The sample images after scanning `rows`, starting from `images`: each row
/// adds its thumbnails while fewer than 12 images have been collected.
pub open spec fn images_after(images: Seq<Seq<char>>, rows: Seq<Vec<RowEntry>>, image_col: Option<Seq<char>>) -> Seq<Seq<char>>
    decreases rows.len(),
{
    if rows.len() == 0 {
        images
    } else {
        let next = if images.len() < max_samples() {
            images + row_thumbnails(rows[0]@, image_col)
        } else {
            images
        };
        images_after(next, rows.drop_first(), image_col)
    }
}

/// The labels found in `rows`, in order.
pub open spec fn labels_in(rows: Seq<Vec<RowEntry>>, label_col: Option<Seq<char>>) -> Seq<Seq<char>>
    decreases rows.len(),
{
    if rows.len() == 0 {
        Seq::<Seq<char>>::empty()
    } else {
        let rest = labels_in(rows.drop_last(), label_col);
        match label_col {
            Some(c) => match entry_named(rows.last()@, c) {
                Some(v) => rest.push(label_text_of(v)),
                None => rest,
            },
            None => rest,
        }
    }
}

fn push_group_thumbnails(images: &mut Vec<String>, entries: &Vec<GroupEntry>)
    ensures
        crate::store::string_views(final(images)@) == crate::store::string_views(old(images)@)
            + group_thumbnails(entries@),
{
    let mut i: usize = 0;
    while i < entries.len()
        invariant
            i <= entries@.len(),
            crate::store::string_views(images@) == crate::store::string_views(old(images)@)
                + group_thumbnails(entries@.take(i as int)),
        decreases entries.len() - i,
    {
        assert(entries@.take(i + 1).drop_last() == entries@.take(i as int));
        let e = &entries[i];
        assert(entries@.take(i + 1).last() == *e);
        let ghost prev = crate::store::string_views(images@);
        let ghost step = group_thumbnails(entries@.take(i + 1));
        let ghost base = group_thumbnails(entries@.take(i as int));
        if str_is(e.name.as_str(), "bytes") {
            if let Some(b) = &e.bytes {
                if let Some(url) = thumbnail_data_url(b.as_slice()) {
                    images.push(url);
                    assert(step == base.push(url@));
                    assert(crate::store::string_views(images@) =~= prev.push(url@));
                } else {
                    assert(step == base);
                }
            } else {
                assert(step == base);
            }
        } else {
            assert(step == base);
        }
        i += 1;
    }
    assert(entries@.take(entries.len() as int) == entries@);
}

proof fn lemma_images_after_take(
    images: Seq<Seq<char>>,
    rows: Seq<Vec<RowEntry>>,
    i: int,
    col: Option<Seq<char>>,
)
    requires
        0 <= i < rows.len(),
    ensures
        images_after(images, rows.take(i + 1), col) == {
            let mid = images_after(images, rows.take(i), col);
            if mid.len() < max_samples() {
                mid + row_thumbnails(rows[i]@, col)
            } else {
                mid
            }
        },
    decreases i,
{
    if i == 0 {
        let next = if images.len() < max_samples() {
            images + row_thumbnails(rows[0]@, col)
        } else {
            images
        };
        assert(rows.take(1).drop_first() =~= Seq::<Vec<RowEntry>>::empty());
        assert(rows.take(0) =~= Seq::<Vec<RowEntry>>::empty());
        assert(images_after(next, Seq::<Vec<RowEntry>>::empty(), col) == next);
    } else {
        let next = if images.len() < max_samples() {
            images + row_thumbnails(rows[0]@, col)
        } else {
            images
        };
        lemma_images_after_take(next, rows.drop_first(), i - 1, col);
        assert(rows.take(i + 1).drop_first() =~= rows.drop_first().take(i));
        assert(rows.take(i).drop_first() =~= rows.drop_first().take(i - 1));
    }
}

/// The rows the preview looks at: the first 5000.
pub open spec fn scanned_rows(rows: Seq<Vec<RowEntry>>) -> Seq<Vec<RowEntry>> {
    if rows.len() <= max_label_scan() {
        rows
    } else {
        rows.take(max_label_scan() as int)
    }
}

/// Scans the first 5000 rows of a parquet file for the preview: thumbnails
/// from the image column while fewer than 12 images are collected, and the
/// class distribution of the label column. When reading the rows failed part
/// way (`read_failed`), the images gathered so far stay and the class
/// distribution is left as it was.
pub fn scan_preview_rows(
    preview: &mut DatasetPreview,
    rows: &Vec<Vec<RowEntry>>,
    read_failed: bool,
    image_col: Option<&str>,
    label_col: Option<&str>,
)
    ensures
        crate::store::string_views(final(preview).sample_images@) == images_after(
            crate::store::string_views(old(preview).sample_images@),
            scanned_rows(rows@),
            crate::auth::opt_view(image_col),
        ),
        final(preview).summary == old(preview).summary,
        read_failed || labels_in(scanned_rows(rows@), crate::auth::opt_view(label_col)).len() == 0
            ==> final(preview).class_distribution == old(preview).class_distribution,
        !read_failed && labels_in(scanned_rows(rows@), crate::auth::opt_view(label_col)).len() > 0
            ==> is_class_distribution(
            final(preview).class_distribution@,
            labels_in(scanned_rows(rows@), crate::auth::opt_view(label_col)),
        ),
{
    let ghost start = crate::store::string_views(preview.sample_images@);
    let ghost icol = crate::auth::opt_view(image_col);
    let ghost lcol = crate::auth::opt_view(label_col);
    let mut labels: Vec<String> = Vec::new();
    let n: usize = if rows.len() < 5000 {
        rows.len()
    } else {
        5000
    };
    let mut i: usize = 0;
    assert(rows@.take(0) =~= Seq::<Vec<RowEntry>>::empty());
    while i < n
        invariant
            n <= rows@.len(),
            n <= max_label_scan(),
            i <= n,
            crate::store::string_views(preview.sample_images@) == images_after(start, rows@.take(i as int), icol),
            crate::store::string_views(labels@) == labels_in(rows@.take(i as int), lcol),
            labels@.len() <= i,
            icol == crate::auth::opt_view(image_col),
            lcol == crate::auth::opt_view(label_col),
            preview.summary == old(preview).summary,
            preview.class_distribution == old(preview).class_distribution,
        decreases n - i,
    {
        let row = &rows[i];
        proof {
            lemma_images_after_take(start, rows@, i as int, icol);
            assert(rows@.take(i + 1).drop_last() == rows@.take(i as int));
            assert(rows@.take(i + 1).last() == rows@[i as int]);
        }
        if preview.sample_images.len() < 12 {
            if let Some(col) = image_col {
                if let Some(v) = find_entry(row, col) {
                    if let FieldKind::Group(entries) = &v.kind {
                        push_group_thumbnails(&mut preview.sample_images, entries);
                    }
                }
            }
        }
        if let Some(col) = label_col {
            if let Some(v) = find_entry(row, col) {
                let t = label_text(v);
                labels.push(t);
                assert(crate::store::string_views(labels@) =~= labels_in(rows@.take(i as int), lcol).push(
                    label_text_of(*v),
                ));
            }
        }
        i += 1;
    }
    assert(rows@.take(n as int) == scanned_rows(rows@));
    if !read_failed && labels.len() > 0 {
        preview.class_distribution = class_distribution(&labels);
    }
}

// ---------------------------------------------------------------------------
// Class distribution
// ---------------------------------------------------------------------------

/// Whether `c` is an ASCII decimal digit.
pub open spec fn is_digit(c: char) -> bool {
    '0' <= c && c <= '9'
}

/// The value of a decimal digit character.
pub open spec fn digit_value(c: char) -> int {
    (c as int) - ('0' as int)
}

/// The value of a run of decimal digits.
pub open spec fn digits_value(s: Seq<char>) -> int
    decreases s.len(),
{
    if s.len() == 0 {
        0
    } else {
        digits_value(s.drop_last()) * 10 + digit_value(s.last())
    }
}

/// A non-empty run of decimal digits.
pub open spec fn all_digits(s: Seq<char>) -> bool {
    s.len() > 0 && forall|i: int| 0 <= i < s.len() ==> is_digit(#[trigger] s[i])
}

/// What `str::parse::<i64>` gives: an optional `+` or `-`, then decimal
/// digits, whose value fits in `i64`.
pub open spec fn parse_i64_of(s: Seq<char>) -> Option<int> {
    if s.len() > 0 && s[0] == '-' {
        if all_digits(s.drop_first()) && digits_value(s.drop_first()) <= 0x8000_0000_0000_0000 {
            Some(-digits_value(s.drop_first()))
        } else {
            None
        }
    } else if s.len() > 0 && s[0] == '+' {
        if all_digits(s.drop_first()) && digits_value(s.drop_first()) <= 0x7fff_ffff_ffff_ffff {
            Some(digits_value(s.drop_first()))
        } else {
            None
        }
    } else if all_digits(s) && digits_value(s) <= 0x7fff_ffff_ffff_ffff {
        Some(digits_value(s))
    } else {
        None
    }
}

proof fn lemma_digits_value_nonneg(s: Seq<char>)
    requires
        forall|i: int| 0 <= i < s.len() ==> is_digit(#[trigger] s[i]),
    ensures
        digits_value(s) >= 0,
    decreases s.len(),
{
    if s.len() > 0 {
        assert(is_digit(s[s.len() - 1]));
        lemma_digits_value_nonneg(s.drop_last());
    }
}

/// The value of the digits `s[from..]`, or `None` when one is not a digit,
/// there are none, or the value exceeds `limit`.
pub(crate) fn digits_up_to(s: &[char], from: usize, limit: u128) -> (r: Option<u128>)
    requires
        from <= s.len(),
        limit <= 0xFFFF_FFFF_FFFF_FFFF,
    ensures
        match r {
            Some(v) => all_digits(s@.skip(from as int)) && v == digits_value(s@.skip(from as int))
                && v <= limit,
            None => !(all_digits(s@.skip(from as int)) && digits_value(s@.skip(from as int))
                <= limit),
        },
{
    if from == s.len() {
        return None;
    }
    let ghost t = s@.skip(from as int);
    let mut acc: u128 = 0;
    let mut over = false;
    let mut i: usize = from;
    assert(s@.subrange(from as int, from as int) =~= Seq::<char>::empty());
    while i < s.len()
        invariant
            from <= i <= s.len(),
            t == s@.skip(from as int),
            limit <= 0xFFFF_FFFF_FFFF_FFFF,
            forall|j: int| from <= j < i ==> is_digit(#[trigger] s@[j]),
            over ==> digits_value(s@.subrange(from as int, i as int)) > limit,
            !over ==> acc == digits_value(s@.subrange(from as int, i as int)) && acc <= limit,
        decreases s.len() - i,
    {
        let c = s[i];
        if !('0' <= c && c <= '9') {
            assert(!is_digit(t[i - from]));
            return None;
        }
        let ghost prefix = s@.subrange(from as int, i as int);
        let ghost next = s@.subrange(from as int, i + 1);
        assert(next.drop_last() == prefix);
        assert(next.last() == c);
        let d = digit_of(c);
        proof {
            assert forall|j: int| 0 <= j < prefix.len() implies is_digit(#[trigger] prefix[j]) by {
                assert(prefix[j] == s@[from + j]);
            }
            lemma_digits_value_nonneg(prefix);
        }
        if !over {
            let v = acc * 10 + d as u128;
            if v > limit {
                over = true;
            } else {
                acc = v;
            }
        }
        i += 1;
    }
    assert(s@.subrange(from as int, s@.len() as int) == t);
    if over {
        None
    } else {
        assert forall|j: int| 0 <= j < t.len() implies is_digit(#[trigger] t[j]) by {
            assert(t[j] == s@[from + j]);
        }
        Some(acc)
    }
}

fn digit_of(c: char) -> (d: u32)
    requires
        is_digit(c),
    ensures
        d == digit_value(c),
        d < 10,
{
    if c == '0' {
        0
    } else if c == '1' {
        1
    } else if c == '2' {
        2
    } else if c == '3' {
        3
    } else if c == '4' {
        4
    } else if c == '5' {
        5
    } else if c == '6' {
        6
    } else if c == '7' {
        7
    } else if c == '8' {
        8
    } else {
        9
    }
}

/// `s.parse::<i64>().ok()`.
pub fn parse_i64(s: &[char]) -> (r: Option<i64>)
    ensures
        match r {
            Some(v) => parse_i64_of(s@) == Some(v as int),
            None => parse_i64_of(s@) is None,
        },
{
    if s.len() > 0 && s[0] == '-' {
        assert(s@.skip(1) == s@.drop_first());
        match digits_up_to(s, 1, 0x8000_0000_0000_0000) {
            Some(v) => Some((0i128 - v as i128) as i64),
            None => None,
        }
    } else if s.len() > 0 && s[0] == '+' {
        assert(s@.skip(1) == s@.drop_first());
        match digits_up_to(s, 1, 0x7fff_ffff_ffff_ffff) {
            Some(v) => Some(v as i64),
            None => None,
        }
    } else {
        assert(s@.skip(0) == s@);
        match digits_up_to(s, 0, 0x7fff_ffff_ffff_ffff) {
            Some(v) => Some(v as i64),
            None => None,
        }
    }
}

/// `a` sorts before `b` among optional numbers: nothing before any number,
/// numbers by value.
pub open spec fn opt_lt(a: Option<int>, b: Option<int>) -> bool {
    match (a, b) {
        (None, Some(_)) => true,
        (Some(x), Some(y)) => x < y,
        _ => false,
    }
}

/// The order of the class distribution: labels that read as numbers come
/// after those that do not and sort by value; ties are broken by the text.
pub open spec fn class_lt(a: Seq<char>, b: Seq<char>) -> bool {
    if parse_i64_of(a) != parse_i64_of(b) {
        opt_lt(parse_i64_of(a), parse_i64_of(b))
    } else {
        lex_lt(a, b)
    }
}

proof fn lemma_class_transitive(a: Seq<char>, b: Seq<char>, c: Seq<char>)
    requires
        class_lt(a, b),
        class_lt(b, c),
    ensures
        class_lt(a, c),
{
    let (pa, pb, pc) = (parse_i64_of(a), parse_i64_of(b), parse_i64_of(c));
    if pa == pb && pb == pc {
        lemma_lex_transitive(a, b, c);
    }
}

proof fn lemma_class_irreflexive(a: Seq<char>)
    ensures
        !class_lt(a, a),
{
    lemma_lex_irreflexive(a);
}

proof fn lemma_class_total(a: Seq<char>, b: Seq<char>)
    ensures
        a == b || class_lt(a, b) || class_lt(b, a),
{
    lemma_lex_total(a, b);
}

/// Whether `a` sorts before `b` in the class distribution.
pub fn class_less(a: &[char], b: &[char]) -> (r: bool)
    ensures
        r == class_lt(a@, b@),
{
    let pa = parse_i64(a);
    let pb = parse_i64(b);
    match (pa, pb) {
        (None, None) => lex_less(a, b),
        (None, Some(_)) => true,
        (Some(_), None) => false,
        (Some(x), Some(y)) => if x == y {
            lex_less(a, b)
        } else {
            x < y
        },
    }
}

/// `dist` is the class distribution of `labels`: one entry per distinct
/// label that occurs, with its number of occurrences, in class order.
pub open spec fn is_class_distribution(dist: Seq<(String, u32)>, labels: Seq<Seq<char>>) -> bool {
    &&& forall|i: int| 0 <= i < dist.len() ==> (#[trigger] dist[i]).1 == labels.to_multiset().count(dist[i].0@)
    &&& forall|i: int| 0 <= i < dist.len() ==> labels.contains(#[trigger] dist[i].0@)
    &&& forall|l: Seq<char>| #[trigger] labels.contains(l) ==> exists|i: int| 0 <= i < dist.len() && dist[i].0@ == l
    &&& forall|i: int, j: int| 0 <= i < j < dist.len() ==> class_lt(#[trigger] dist[i].0@, #[trigger] dist[j].0@)
}

/// The sum of the counts of a distribution.
pub open spec fn total_count(dist: Seq<(String, u32)>) -> int
    decreases dist.len(),
{
    if dist.len() == 0 {
        0
    } else {
        total_count(dist.drop_last()) + dist.last().1
    }
}

/// How often `l` occurs in `labels`.
pub open spec fn occurrences(labels: Seq<Seq<char>>, l: Seq<char>) -> int
    decreases labels.len(),
{
    if labels.len() == 0 {
        0
    } else {
        occurrences(labels.drop_last(), l) + if labels.last() == l { 1int } else { 0 }
    }
}

/// The occurrences in `labels` of each key of `dist`, added up.
spec fn occurrences_of_keys(dist: Seq<(String, u32)>, labels: Seq<Seq<char>>) -> int
    decreases dist.len(),
{
    if dist.len() == 0 {
        0
    } else {
        occurrences_of_keys(dist.drop_last(), labels) + occurrences(labels, dist.last().0@)
    }
}

/// How many keys of `dist` are `x`.
spec fn key_hits(dist: Seq<(String, u32)>, x: Seq<char>) -> int
    decreases dist.len(),
{
    if dist.len() == 0 {
        0
    } else {
        key_hits(dist.drop_last(), x) + if dist.last().0@ == x { 1int } else { 0 }
    }
}

proof fn lemma_occurrences_count(labels: Seq<Seq<char>>, l: Seq<char>)
    ensures
        labels.to_multiset().count(l) == occurrences(labels, l),
    decreases labels.len(),
{
    if labels.len() > 0 {
        lemma_occurrences_count(labels.drop_last(), l);
        assert(labels =~= labels.drop_last().push(labels.last()));
        assert(labels.drop_last().push(labels.last()).to_multiset() == labels.drop_last().to_multiset().insert(
            labels.last(),
        ));
    }
}

proof fn lemma_keys_of_no_labels(dist: Seq<(String, u32)>)
    ensures
        occurrences_of_keys(dist, Seq::<Seq<char>>::empty()) == 0,
    decreases dist.len(),
{
    if dist.len() > 0 {
        lemma_keys_of_no_labels(dist.drop_last());
    }
}

proof fn lemma_keys_of_one_more_label(dist: Seq<(String, u32)>, labels: Seq<Seq<char>>, x: Seq<char>)
    ensures
        occurrences_of_keys(dist, labels.push(x)) == occurrences_of_keys(dist, labels) + key_hits(dist, x),
    decreases dist.len(),
{
    if dist.len() > 0 {
        lemma_keys_of_one_more_label(dist.drop_last(), labels, x);
        assert(labels.push(x).drop_last() =~= labels);
    }
}

proof fn lemma_key_hits_distinct(dist: Seq<(String, u32)>, x: Seq<char>)
    requires
        forall|i: int, j: int| 0 <= i < j < dist.len() ==> #[trigger] dist[i].0@ != #[trigger] dist[j].0@,
    ensures
        (exists|i: int| 0 <= i < dist.len() && dist[i].0@ == x) ==> key_hits(dist, x) == 1,
        (forall|i: int| 0 <= i < dist.len() ==> dist[i].0@ != x) ==> key_hits(dist, x) == 0,
    decreases dist.len(),
{
    if dist.len() > 0 {
        let d = dist.drop_last();
        assert forall|i: int, j: int| 0 <= i < j < d.len() implies #[trigger] d[i].0@ != #[trigger] d[j].0@ by {
            assert(d[i] == dist[i] && d[j] == dist[j]);
        }
        lemma_key_hits_distinct(d, x);
        if exists|i: int| 0 <= i < dist.len() && dist[i].0@ == x {
            let i = choose|i: int| 0 <= i < dist.len() && dist[i].0@ == x;
            if i == dist.len() - 1 {
                assert forall|k: int| 0 <= k < d.len() implies d[k].0@ != x by {
                    assert(d[k] == dist[k]);
                }
            } else {
                assert(d[i] == dist[i]);
                assert(dist.last() == dist[dist.len() - 1]);
            }
        } else {
            assert forall|k: int| 0 <= k < d.len() implies d[k].0@ != x by {
                assert(d[k] == dist[k]);
            }
            assert(dist.last() == dist[dist.len() - 1]);
        }
    }
}

proof fn lemma_keys_cover_labels(dist: Seq<(String, u32)>, labels: Seq<Seq<char>>)
    requires
        forall|i: int, j: int| 0 <= i < j < dist.len() ==> #[trigger] dist[i].0@ != #[trigger] dist[j].0@,
        forall|l: Seq<char>| #[trigger] labels.contains(l) ==> exists|i: int| 0 <= i < dist.len() && dist[i].0@ == l,
    ensures
        occurrences_of_keys(dist, labels) == labels.len(),
    decreases labels.len(),
{
    if labels.len() == 0 {
        assert(labels =~= Seq::<Seq<char>>::empty());
        lemma_keys_of_no_labels(dist);
    } else {
        let rest = labels.drop_last();
        let x = labels.last();
        assert forall|l: Seq<char>| #[trigger] rest.contains(l) implies exists|i: int|
            0 <= i < dist.len() && dist[i].0@ == l by {
            let k = choose|k: int| 0 <= k < rest.len() && rest[k] == l;
            assert(labels[k] == l);
            assert(labels.contains(l));
        }
        lemma_keys_cover_labels(dist, rest);
        assert(labels[labels.len() - 1] == x);
        assert(labels.contains(x));
        lemma_key_hits_distinct(dist, x);
        lemma_keys_of_one_more_label(dist, rest, x);
        assert(rest.push(x) =~= labels);
    }
}

proof fn lemma_total_is_occurrences(dist: Seq<(String, u32)>, labels: Seq<Seq<char>>)
    requires
        forall|i: int| 0 <= i < dist.len() ==> (#[trigger] dist[i]).1 == labels.to_multiset().count(dist[i].0@),
    ensures
        total_count(dist) == occurrences_of_keys(dist, labels),
    decreases dist.len(),
{
    if dist.len() > 0 {
        let d = dist.drop_last();
        assert forall|i: int| 0 <= i < d.len() implies (#[trigger] d[i]).1 == labels.to_multiset().count(d[i].0@) by {
            assert(d[i] == dist[i]);
        }
        lemma_total_is_occurrences(d, labels);
        assert(dist.last() == dist[dist.len() - 1]);
        lemma_occurrences_count(labels, dist.last().0@);
    }
}

/// The counts of a class distribution add up to the number of labels counted:
/// every labelled row is counted once, under its own label.
pub proof fn law_class_counts_add_up(dist: Seq<(String, u32)>, labels: Seq<Seq<char>>)
    requires
        is_class_distribution(dist, labels),
    ensures
        total_count(dist) == labels.len(),
{
    assert forall|i: int, j: int| 0 <= i < j < dist.len() implies #[trigger] dist[i].0@ != #[trigger] dist[j].0@ by {
        lemma_class_irreflexive(dist[i].0@);
    }
    lemma_total_is_occurrences(dist, labels);
    lemma_keys_cover_labels(dist, labels);
}

/// The class distribution of some labels: each distinct label with its
/// count, labels that read as integers after the others and by value, ties
/// broken by the text.
pub fn class_distribution(labels: &Vec<String>) -> (dist: Vec<(String, u32)>)
    requires
        labels@.len() <= u32::MAX,
    ensures
        is_class_distribution(dist@, crate::store::string_views(labels@)),
{
    let ghost all = crate::store::string_views(labels@);
    let mut counts: Vec<(Vec<char>, u32)> = Vec::new();
    let mut i: usize = 0;
    while i < labels.len()
        invariant
            i <= labels@.len() <= u32::MAX,
            all == crate::store::string_views(labels@),
            forall|k: int| 0 <= k < counts@.len() ==> (#[trigger] counts@[k]).1 == all.take(i as int).to_multiset().count(counts@[k].0@),
            forall|k: int| 0 <= k < counts@.len() ==> (#[trigger] counts@[k]).1 <= i,
            forall|k: int, m: int| 0 <= k < m < counts@.len() ==> #[trigger] counts@[k].0@ != #[trigger] counts@[m].0@,
            forall|l: Seq<char>| #[trigger] all.take(i as int).contains(l) ==> exists|k: int| 0 <= k < counts@.len() && counts@[k].0@ == l,
            forall|k: int| 0 <= k < counts@.len() ==> all.contains(#[trigger] counts@[k].0@),
        decreases labels.len() - i,
    {
        let label = chars_of(labels[i].as_str());
        let ghost before = all.take(i as int);
        assert(all.take(i + 1) == before.push(label@));
        let pos = position_of(&counts, label.as_slice());
        let ghost prev = counts@;
        let found = pos.is_some();
        let k: usize = match pos {
            Some(k) => k,
            None => 0,
        };
        assert(before.push(label@).to_multiset() == before.to_multiset().insert(label@));
        if found {
            let (key, c) = counts.remove(k);
            counts.insert(k, (key, c + 1));
            assert(counts@ =~= prev.update(k as int, (prev[k as int].0, (prev[k as int].1 + 1) as u32)));
        } else {
            counts.push((label, 1));
        }
        proof {
            assert(all[i as int] == label@);
            assert forall|m: int| 0 <= m < counts@.len() implies all.contains(#[trigger] counts@[m].0@) by {
                if (found && m == k) || (!found && m == prev.len()) {
                    assert(counts@[m].0@ == label@);
                } else {
                    assert(counts@[m] == prev[m]);
                }
            }
            assert forall|m: int| 0 <= m < counts@.len() implies (#[trigger] counts@[m]).1 == all.take(i + 1).to_multiset().count(counts@[m].0@) by {
                if found && m == k {
                } else if !found && m == prev.len() {
                    assert(!before.contains(label@)) by {
                        if before.contains(label@) {
                            let mm = choose|mm: int| 0 <= mm < prev.len() && prev[mm].0@ == label@;
                            assert(prev[mm].0@ != label@);
                        }
                    }
                    assert(before.to_multiset().count(label@) == 0);
                } else {
                    assert(counts@[m] == prev[m]);
                    assert(prev[m].0@ != label@);
                }
            }
            assert forall|l: Seq<char>| #[trigger] all.take(i + 1).contains(l) implies exists|m: int|
                0 <= m < counts@.len() && counts@[m].0@ == l by {
                if l == label@ {
                    if found {
                        assert(counts@[k as int].0@ == l);
                    } else {
                        assert(counts@[prev.len() as int].0@ == l);
                    }
                } else {
                    let idx = choose|idx: int| 0 <= idx < before.push(label@).len() && before.push(label@)[idx] == l;
                    assert(before[idx] == l);
                    assert(before.contains(l));
                    let m = choose|m: int| 0 <= m < prev.len() && prev[m].0@ == l;
                    assert(counts@[m].0@ == l);
                }
            }
        }
        i += 1;
    }
    assert(all.take(labels.len() as int) == all);
    sort_classes(counts, Ghost(all))
}

fn position_of(counts: &Vec<(Vec<char>, u32)>, label: &[char]) -> (r: Option<usize>)
    ensures
        match r {
            Some(k) => k < counts@.len() && counts@[k as int].0@ == label@,
            None => forall|m: int| 0 <= m < counts@.len() ==> counts@[m].0@ != label@,
        },
{
    let mut k: usize = 0;
    while k < counts.len()
        invariant
            k <= counts@.len(),
            forall|m: int| 0 <= m < k ==> counts@[m].0@ != label@,
        decreases counts.len() - k,
    {
        if crate::text::chars_eq(counts[k].0.as_slice(), label) {
            return Some(k);
        }
        k += 1;
    }
    None
}

fn sort_classes(counts: Vec<(Vec<char>, u32)>, Ghost(all): Ghost<Seq<Seq<char>>>) -> (dist: Vec<(String, u32)>)
    requires
        forall|k: int| 0 <= k < counts@.len() ==> (#[trigger] counts@[k]).1 == all.to_multiset().count(counts@[k].0@),
        forall|k: int, m: int| 0 <= k < m < counts@.len() ==> #[trigger] counts@[k].0@ != #[trigger] counts@[m].0@,
        forall|l: Seq<char>| #[trigger] all.contains(l) ==> exists|k: int| 0 <= k < counts@.len() && counts@[k].0@ == l,
        forall|k: int| 0 <= k < counts@.len() ==> all.contains(#[trigger] counts@[k].0@),
    ensures
        is_class_distribution(dist@, all),
{
    let mut rest = counts;
    let mut out: Vec<(String, u32)> = Vec::new();
    while rest.len() > 0
        invariant
            forall|k: int| 0 <= k < rest@.len() ==> (#[trigger] rest@[k]).1 == all.to_multiset().count(rest@[k].0@),
            forall|k: int, m: int| 0 <= k < m < rest@.len() ==> #[trigger] rest@[k].0@ != #[trigger] rest@[m].0@,
            forall|i: int| 0 <= i < out@.len() ==> (#[trigger] out@[i]).1 == all.to_multiset().count(out@[i].0@),
            forall|k: int| 0 <= k < rest@.len() ==> all.contains(#[trigger] rest@[k].0@),
            forall|i: int| 0 <= i < out@.len() ==> all.contains(#[trigger] out@[i].0@),
            forall|l: Seq<char>| #[trigger] all.contains(l) ==> (exists|k: int| 0 <= k < rest@.len() && rest@[k].0@ == l) || (exists|i: int| 0 <= i < out@.len() && out@[i].0@ == l),
            forall|i: int, j: int| 0 <= i < j < out@.len() ==> class_lt(#[trigger] out@[i].0@, #[trigger] out@[j].0@),
            forall|i: int, k: int| 0 <= i < out@.len() && 0 <= k < rest@.len() ==> class_lt(#[trigger] out@[i].0@, #[trigger] rest@[k].0@),
        decreases rest.len(),
    {
        let mut best: usize = 0;
        let mut k: usize = 1;
        while k < rest.len()
            invariant
                best < k <= rest@.len(),
                forall|j: int| 0 <= j < k && j != best ==> class_lt(rest@[best as int].0@, #[trigger] rest@[j].0@),
                forall|k2: int, m: int| 0 <= k2 < m < rest@.len() ==> #[trigger] rest@[k2].0@ != #[trigger] rest@[m].0@,
            decreases rest.len() - k,
        {
            if class_less(rest[k].0.as_slice(), rest[best].0.as_slice()) {
                proof {
                    assert forall|j: int| 0 <= j < k + 1 && j != k implies class_lt(rest@[k as int].0@, #[trigger] rest@[j].0@) by {
                        if j != best {
                            lemma_class_transitive(rest@[k as int].0@, rest@[best as int].0@, rest@[j].0@);
                        }
                    }
                }
                best = k;
            } else {
                proof {
                    lemma_class_total(rest@[k as int].0@, rest@[best as int].0@);
                }
            }
            k += 1;
        }
        let ghost before_rest = rest@;
        let ghost before_out = out@;
        let (key, c) = rest.remove(best);
        let name = string_of(key.as_slice());
        out.push((name, c));
        proof {
            assert forall|j: int| 0 <= j < rest@.len() implies class_lt(out@[out@.len() - 1].0@, #[trigger] rest@[j].0@) by {
                let src = if j < best { j } else { j + 1 };
                assert(rest@[j] == before_rest[src]);
            }
            assert forall|i: int, k2: int| 0 <= i < out@.len() && 0 <= k2 < rest@.len() implies class_lt(#[trigger] out@[i].0@, #[trigger] rest@[k2].0@) by {
                let src = if k2 < best { k2 } else { k2 + 1 };
                assert(rest@[k2] == before_rest[src]);
                if i < before_out.len() {
                    assert(out@[i] == before_out[i]);
                }
            }
            assert forall|i: int, j: int| 0 <= i < j < out@.len() implies class_lt(#[trigger] out@[i].0@, #[trigger] out@[j].0@) by {
                assert(out@[i] == before_out[i] || i == before_out.len());
                if j < before_out.len() {
                    assert(out@[i] == before_out[i]);
                    assert(out@[j] == before_out[j]);
                } else {
                    assert(out@[i] == before_out[i]);
                }
            }
            assert forall|l: Seq<char>| #[trigger] all.contains(l) implies (exists|k2: int| 0 <= k2 < rest@.len() && rest@[k2].0@ == l) || (exists|i: int| 0 <= i < out@.len() && out@[i].0@ == l) by {
                if exists|k2: int| 0 <= k2 < before_rest.len() && before_rest[k2].0@ == l {
                    let k2 = choose|k2: int| 0 <= k2 < before_rest.len() && before_rest[k2].0@ == l;
                    if k2 == best {
                        assert(out@[out@.len() - 1].0@ == l);
                    } else if k2 < best {
                        assert(rest@[k2] == before_rest[k2]);
                    } else {
                        assert(rest@[k2 - 1] == before_rest[k2]);
                    }
                } else {
                    let i = choose|i: int| 0 <= i < before_out.len() && before_out[i].0@ == l;
                    assert(out@[i] == before_out[i]);
                }
            }
            assert forall|i: int| 0 <= i < out@.len() implies (#[trigger] out@[i]).1 == all.to_multiset().count(out@[i].0@) by {
                if i < before_out.len() {
                    assert(out@[i] == before_out[i]);
                }
            }
            assert forall|i: int| 0 <= i < out@.len() implies all.contains(#[trigger] out@[i].0@) by {
                if i < before_out.len() {
                    assert(out@[i] == before_out[i]);
                } else {
                    assert(out@[i].0@ == before_rest[best as int].0@);
                }
            }
            assert forall|k2: int| 0 <= k2 < rest@.len() implies all.contains(#[trigger] rest@[k2].0@) by {
                let src = if k2 < best { k2 } else { k2 + 1 };
                assert(rest@[k2] == before_rest[src]);
            }
            assert forall|k2: int, m: int| 0 <= k2 < m < rest@.len() implies #[trigger] rest@[k2].0@ != #[trigger] rest@[m].0@ by {
                let s1 = if k2 < best { k2 } else { k2 + 1 };
                let s2 = if m < best { m } else { m + 1 };
                assert(rest@[k2] == before_rest[s1]);
                assert(rest@[m] == before_rest[s2]);
            }
        }
    }
    out
}

} // verus!
