//! Capture time and embedded images, taken from an EXIF container parsed out
//! of the head of a file. Every failure funnels to `None`: one malformed frame
//! must not abort a batch.
use chrono::{Datelike, Timelike};
use vstd::prelude::*;
use vstd::utf8::{decode_utf8, valid_utf8};

use crate::asset::{spec_jpeg_first, ExifAssetData, PhotoAsset, PreviewStrip};
use crate::datetime::CaptureTime;
use crate::store::{AssetMap, KeyView};

verus! {

/// The code of the context a tag number belongs to, in the order the EXIF
/// reader declares its contexts: TIFF, Exif, GPS, interoperability.
pub const CONTEXT_TIFF: u8 = 0;

/// The code of the Exif context.
pub const CONTEXT_EXIF: u8 = 1;

/// The value of an EXIF field, as far as this library reads it: a list of
/// 32-bit unsigned integers, a list of ASCII strings, or a value of any other
/// type.
#[derive(Debug, Clone)]
pub enum FieldValue {
    Long(Vec<u32>),
    Ascii(Vec<Vec<u8>>),
    Other,
}

/// One field of an EXIF container: its tag, the number of the IFD it sits
/// in, and its value.
#[derive(Debug, Clone)]
pub struct ExifField {
    pub context: u8,
    pub number: u16,
    pub ifd: u16,
    pub value: FieldValue,
}

/// A parsed EXIF container: the TIFF data and the fields, in the order the
/// parser found them.
#[derive(Debug, Clone)]
pub struct ExifContainer {
    pub buf: Vec<u8>,
    pub fields: Vec<ExifField>,
}

/// The IFD of the primary image.
pub const PRIMARY: u16 = 0;

/// The IFD of the thumbnail image.
pub const THUMBNAIL: u16 = 1;

/// What the EXIF reader parses out of the head of a file, if anything.
pub uninterp spec fn spec_read_exif(head: Seq<u8>) -> Option<ExifContainer>;

/// The position of the field a lookup by tag and IFD finds: the last field
/// of that tag in that IFD.
pub open spec fn field_index(fields: Seq<ExifField>, context: u8, number: u16, ifd: u16) -> Option<int>
    decreases fields.len(),
{
    if fields.len() == 0 {
        None
    } else if fields.last().context == context && fields.last().number == number && fields.last().ifd == ifd {
        Some(fields.len() - 1)
    } else {
        field_index(fields.drop_last(), context, number, ifd)
    }
}

/// The first integer of a `Long` field, if the field is one and has any.
pub open spec fn first_long(fields: Seq<ExifField>, context: u8, number: u16, ifd: u16) -> Option<u32> {
    match field_index(fields, context, number, ifd) {
        Some(i) => match fields[i].value {
            FieldValue::Long(v) => if v@.len() > 0 { Some(v@[0]) } else { None },
            _ => None,
        },
        None => None,
    }
}

/// The first string of an `Ascii` field, if the field is one and has any.
pub open spec fn first_ascii(fields: Seq<ExifField>, context: u8, number: u16, ifd: u16) -> Option<Seq<u8>> {
    match field_index(fields, context, number, ifd) {
        Some(i) => match fields[i].value {
            FieldValue::Ascii(v) => if v@.len() > 0 { Some(v@[0]@) } else { None },
            _ => None,
        },
        None => None,
    }
}

/// The capture time `NaiveDateTime::parse_from_str` reads from a text in
/// the `%Y:%m:%d %H:%M:%S` format, if it reads one.
pub uninterp spec fn spec_parse_capture_time(text: Seq<char>) -> Option<CaptureTime>;

/// Runs `exif::Reader::read_from_container` on the bytes and copies the
/// parsed container out: its TIFF data (`Exif::buf`) and its fields in order
/// (`Exif::fields`), each value kept when it is a `Long` or an `Ascii`, each
/// context by its declaration index.
/// Claimed: the result is `spec_read_exif` of the bytes.
#[verifier::external_body]
pub(crate) fn read_exif_container(head: &[u8]) -> (r: Option<ExifContainer>)
    ensures
        r == spec_read_exif(head@),
{
    let exif = exif::Reader::new().read_from_container(&mut std::io::Cursor::new(head)).ok()?;
    let fields = exif.fields().map(|f| ExifField {
        context: f.tag.0 as u8,
        number: f.tag.1,
        ifd: f.ifd_num.0,
        value: match &f.value {
            exif::Value::Long(v) => FieldValue::Long(v.clone()),
            exif::Value::Ascii(v) => FieldValue::Ascii(v.clone()),
            _ => FieldValue::Other,
        },
    }).collect();
    Some(ExifContainer { buf: exif.buf().to_vec(), fields })
}

/// Calls `std::str::from_utf8`. Claimed, as its documentation states: the
/// bytes decode exactly when they are valid UTF-8, and then to the
/// characters they encode.
#[verifier::external_body]
pub(crate) fn utf8_text(bytes: &[u8]) -> (r: Option<String>)
    ensures
        r is Some <==> valid_utf8(bytes@),
        r matches Some(s) ==> s@ == decode_utf8(bytes@),
{
    std::str::from_utf8(bytes).ok().map(|s| s.to_string())
}

/// Calls `chrono::NaiveDateTime::parse_from_str` with the EXIF date format
/// `%Y:%m:%d %H:%M:%S` and copies the calendar fields out. Claimed: the
/// result is `spec_parse_capture_time` of the text, and a parsed time has a
/// date that exists (a `NaiveDateTime` always holds a valid date).
#[verifier::external_body]
pub(crate) fn parse_capture_time(text: &str) -> (r: Option<CaptureTime>)
    ensures
        r == spec_parse_capture_time(text@),
        r matches Some(t) ==> t.spec_date().wf(),
{
    let t = chrono::NaiveDateTime::parse_from_str(text, "%Y:%m:%d %H:%M:%S").ok()?;
    Some(CaptureTime {
        year: t.year(),
        month: t.month(),
        day: t.day(),
        hour: t.hour(),
        minute: t.minute(),
        second: t.second(),
        nanosecond: t.nanosecond(),
    })
}

impl ExifContainer {
    /// The field a lookup by tag and IFD finds: the last one of that tag in
    /// that IFD.
    pub fn get_field(&self, context: u8, number: u16, ifd: u16) -> (r: Option<&FieldValue>)
        ensures
            match field_index(self.fields@, context, number, ifd) {
                Some(i) => r == Some(&self.fields@[i].value),
                None => r is None,
            },
    {
        let mut i = self.fields.len();
        assert(self.fields@.take(i as int) =~= self.fields@);
        while i > 0
            invariant
                i <= self.fields@.len(),
                field_index(self.fields@, context, number, ifd) == field_index(self.fields@.take(i as int), context, number, ifd),
            decreases i,
        {
            let f = &self.fields[i - 1];
            assert(self.fields@.take(i as int).last() == *f);
            if f.context == context && f.number == number && f.ifd == ifd {
                return Some(&f.value);
            }
            assert(self.fields@.take(i as int).drop_last() =~= self.fields@.take(i - 1));
            i -= 1;
        }
        None
    }

    /// The first integer of the `Long` field of a tag and IFD.
    fn first_long_of(&self, context: u8, number: u16, ifd: u16) -> (r: Option<u32>)
        ensures
            r == first_long(self.fields@, context, number, ifd),
    {
        match self.get_field(context, number, ifd)? {
            FieldValue::Long(v) => {
                if v.len() > 0 {
                    Some(v[0])
                } else {
                    None
                }
            },
            _ => None,
        }
    }
}

/// Tag number of `StripOffsets`.
pub const STRIP_OFFSETS: u16 = 0x111;

/// Tag number of `StripByteCounts`.
pub const STRIP_BYTE_COUNTS: u16 = 0x117;

/// Tag number of `JPEGInterchangeFormat`.
pub const JPEG_INTERCHANGE_FORMAT: u16 = 0x201;

/// Tag number of `JPEGInterchangeFormatLength`.
pub const JPEG_INTERCHANGE_FORMAT_LENGTH: u16 = 0x202;

/// Tag number of `DateTimeOriginal`.
pub const DATE_TIME_ORIGINAL: u16 = 0x9003;

/// Where the full-size embedded preview is: the first `StripOffsets` and
/// `StripByteCounts` values of the primary IFD.
pub open spec fn spec_preview_location(c: ExifContainer) -> Option<PreviewStrip> {
    match (
        first_long(c.fields@, CONTEXT_TIFF, STRIP_OFFSETS, PRIMARY),
        first_long(c.fields@, CONTEXT_TIFF, STRIP_BYTE_COUNTS, PRIMARY),
    ) {
        (Some(o), Some(l)) => Some(PreviewStrip { offset: o as u64, len: l as usize }),
        _ => None,
    }
}

/// The bytes of the thumbnail: the range of the TIFF data that the first
/// `JPEGInterchangeFormat` and `JPEGInterchangeFormatLength` values of the
/// thumbnail IFD give, if it lies inside the data.
pub open spec fn spec_thumbnail(c: ExifContainer) -> Option<Seq<u8>> {
    match (
        first_long(c.fields@, CONTEXT_TIFF, JPEG_INTERCHANGE_FORMAT, THUMBNAIL),
        first_long(c.fields@, CONTEXT_TIFF, JPEG_INTERCHANGE_FORMAT_LENGTH, THUMBNAIL),
    ) {
        (Some(o), Some(l)) => if o + l <= c.buf@.len() {
            Some(c.buf@.subrange(o as int, o + l))
        } else {
            None
        },
        _ => None,
    }
}

/// The capture time: the first `DateTimeOriginal` string of the primary IFD,
/// decoded as UTF-8 and parsed in the EXIF date format.
pub open spec fn spec_capture_time(c: ExifContainer) -> Option<CaptureTime> {
    match first_ascii(c.fields@, CONTEXT_EXIF, DATE_TIME_ORIGINAL, PRIMARY) {
        Some(bytes) => if valid_utf8(bytes) {
            spec_parse_capture_time(decode_utf8(bytes))
        } else {
            None
        },
        None => None,
    }
}

/// Locates (does not read) the full-size embedded preview of a TIFF-like
/// container: a single strip referenced by `StripOffsets` and
/// `StripByteCounts` in the primary IFD.
pub fn get_embedded_preview_location(exif: &ExifContainer) -> (r: Option<PreviewStrip>)
    ensures
        r == spec_preview_location(*exif),
{
    let offset = exif.first_long_of(CONTEXT_TIFF, STRIP_OFFSETS, PRIMARY)?;
    let len = exif.first_long_of(CONTEXT_TIFF, STRIP_BYTE_COUNTS, PRIMARY)?;
    Some(PreviewStrip { offset: offset as u64, len: len as usize })
}

/// The bytes `buf[from..to]`.
fn copy_range(buf: &Vec<u8>, from: usize, to: usize) -> (r: Vec<u8>)
    requires
        from <= to <= buf@.len(),
    ensures
        r@ == buf@.subrange(from as int, to as int),
{
    let mut r: Vec<u8> = Vec::new();
    let mut i = from;
    while i < to
        invariant
            from <= i <= to <= buf@.len(),
            r@ == buf@.subrange(from as int, i as int),
        decreases to - i,
    {
        r.push(buf[i]);
        assert(buf@.subrange(from as int, i + 1) =~= buf@.subrange(from as int, i as int).push(buf@[i as int]));
        i += 1;
    }
    r
}

/// The embedded thumbnail of the thumbnail IFD, if its range lies inside the
/// TIFF data.
pub fn get_thumbnail(exif: &ExifContainer) -> (r: Option<Vec<u8>>)
    ensures
        match r {
            Some(t) => spec_thumbnail(*exif) == Some(t@),
            None => spec_thumbnail(*exif) is None,
        },
{
    let offset = exif.first_long_of(CONTEXT_TIFF, JPEG_INTERCHANGE_FORMAT, THUMBNAIL)?;
    let len = exif.first_long_of(CONTEXT_TIFF, JPEG_INTERCHANGE_FORMAT_LENGTH, THUMBNAIL)?;
    let end = offset as u64 + len as u64;
    if end <= exif.buf.len() as u64 {
        Some(copy_range(&exif.buf, offset as usize, end as usize))
    } else {
        None
    }
}

/// The capture time written in the first `DateTimeOriginal` string.
pub fn get_capture_time(exif: &ExifContainer) -> (r: Option<CaptureTime>)
    ensures
        r == spec_capture_time(*exif),
{
    let bytes = match exif.get_field(CONTEXT_EXIF, DATE_TIME_ORIGINAL, PRIMARY)? {
        FieldValue::Ascii(v) => {
            if v.len() > 0 {
                &v[0]
            } else {
                return None;
            }
        },
        _ => return None,
    };
    let text = utf8_text(bytes.as_slice())?;
    parse_capture_time(text.as_str())
}

/// Everything the metadata pass takes from one container.
pub open spec fn spec_exif_data(c: ExifContainer) -> (Option<CaptureTime>, Option<Seq<u8>>, Option<PreviewStrip>) {
    (spec_capture_time(c), spec_thumbnail(c), spec_preview_location(c))
}

/// Assembles all cheap-metadata properties from one parsed container.
pub fn extract_exif_data(exif: &ExifContainer) -> (r: ExifAssetData)
    ensures
        r@ == spec_exif_data(*exif),
{
    let thumbnail = get_thumbnail(exif);
    ExifAssetData {
        captured_at: get_capture_time(exif),
        thumbnail,
        embedded_preview_file_location: get_embedded_preview_location(exif),
    }
}

/// Whether a strip reference can be read from a file of `file_len` bytes: it
/// is not empty and ends within the file.
pub open spec fn spec_strip_readable(strip: PreviewStrip, file_len: u64) -> bool {
    strip.len != 0 && strip.offset + strip.len <= file_len
}

/// The law of strip bounds: a strip can be read exactly when it holds at
/// least one byte and ends within its file, however long it is; no strip that
/// fits its file is refused for its size.
pub proof fn law_strip_readable_iff_within_file(strip: PreviewStrip, file_len: u64)
    ensures
        spec_strip_readable(strip, file_len) <==> (strip.len > 0 && strip.offset as int + strip.len as int <= file_len as int),
        strip.len > 0 && strip.offset as int + strip.len as int <= file_len as int ==> spec_strip_readable(strip, file_len),
        strip.len == 0 ==> !spec_strip_readable(strip, file_len),
        strip.offset as int + strip.len as int > file_len as int ==> !spec_strip_readable(strip, file_len),
{
}

/// Validates a strip reference against the length of its file before any
/// byte is read, so a malformed `StripByteCounts` is refused rather than
/// over-allocated.
pub fn preview_strip_in_bounds(strip: PreviewStrip, file_len: u64) -> (r: bool)
    ensures
        r == spec_strip_readable(strip, file_len),
{
    let out_of_bounds = match strip.offset.checked_add(strip.len as u64) {
        Some(end) => end > file_len,
        None => true,
    };
    !(strip.len == 0 || out_of_bounds)
}

} // verus!

verus! {

/// The EXIF data an asset holds after enrichment from the head of its file:
/// what the container parsed from the head gives, or what it held before
/// when no head was read or no container parses from it.
pub open spec fn spec_enriched(before: ExifAssetData, head: Option<Vec<u8>>) -> (Option<CaptureTime>, Option<Seq<u8>>, Option<PreviewStrip>) {
    match head {
        Some(h) => match spec_read_exif(h@) {
            Some(c) => spec_exif_data(c),
            None => before@,
        },
        None => before@,
    }
}

/// Whether `after` is `before` enriched from `heads`, one head per asset in
/// order: every asset keeps its key, files, state, rating and image data, and
/// its EXIF data becomes what its head gives.
pub open spec fn spec_enrichment(before: Seq<(KeyView, PhotoAsset)>, after: Seq<(KeyView, PhotoAsset)>, heads: Seq<Option<Vec<u8>>>) -> bool {
    &&& after.len() == before.len()
    &&& forall|i: int| 0 <= i < before.len() ==> {
        let (b, a) = (#[trigger] before[i], after[i]);
        &&& a.0 == b.0
        &&& a.1.files == b.1.files
        &&& a.1.state == b.1.state
        &&& a.1.rating == b.1.rating
        &&& a.1.image_data == b.1.image_data
        &&& a.1.exif_data@ == spec_enriched(b.1.exif_data, heads[i])
    }
}

/// Fills the EXIF data of every asset from the head of its file. `heads[i]`
/// is the head read from the `i`-th path `AssetMap::exif_head_paths` gives,
/// or `None` when it could not be read; an asset whose head gives no
/// container keeps its data.
pub fn enrich_assets(assets: &mut AssetMap, heads: &Vec<Option<Vec<u8>>>)
    requires
        heads@.len() == old(assets)@.len(),
    ensures
        spec_enrichment(old(assets)@, final(assets)@, heads@),
{
    let n = heads.len();
    let ghost start = assets@;
    let mut i: usize = 0;
    while i < n
        invariant
            n == heads@.len(),
            n == start.len(),
            0 <= i <= n,
            assets@.len() == n,
            forall|j: int| i <= j < n ==> assets@[j] == start[j],
            forall|j: int| 0 <= j < i ==> {
                let (b, a) = (#[trigger] start[j], assets@[j]);
                &&& a.0 == b.0
                &&& a.1.files == b.1.files
                &&& a.1.state == b.1.state
                &&& a.1.rating == b.1.rating
                &&& a.1.image_data == b.1.image_data
                &&& a.1.exif_data@ == spec_enriched(b.1.exif_data, heads@[j])
            },
        decreases n - i,
    {
        if let Some(head) = &heads[i] {
            if let Some(container) = read_exif_container(head.as_slice()) {
                let data = extract_exif_data(&container);
                assets.set_exif_data(i, data);
            }
        }
        i += 1;
    }
}

/// The law of idempotence: enriching a map a second time, from the heads of
/// the same files, leaves every asset as the first enrichment made it. The
/// files each asset is represented by, and so the head paths, are the same
/// for both passes.
pub proof fn law_enrich_idempotent(
    original: Seq<(KeyView, PhotoAsset)>,
    once: Seq<(KeyView, PhotoAsset)>,
    twice: Seq<(KeyView, PhotoAsset)>,
    heads: Seq<Option<Vec<u8>>>,
)
    requires
        heads.len() == original.len(),
        spec_enrichment(original, once, heads),
        spec_enrichment(once, twice, heads),
    ensures
        twice.len() == once.len(),
        forall|i: int| 0 <= i < once.len() ==> {
            let (a, b) = (#[trigger] twice[i], once[i]);
            &&& a.0 == b.0
            &&& a.1.files == b.1.files
            &&& a.1.state == b.1.state
            &&& a.1.rating == b.1.rating
            &&& a.1.image_data == b.1.image_data
            &&& a.1.exif_data@ == b.1.exif_data@
        },
        forall|i: int| 0 <= i < original.len() ==>
            spec_jpeg_first((#[trigger] twice[i]).1.files@) == spec_jpeg_first(original[i].1.files@),
{
    assert forall|i: int| 0 <= i < once.len() implies (#[trigger] twice[i]).1.exif_data@ == once[i].1.exif_data@ by {
        let b = original[i];
        assert(once[i].1.exif_data@ == spec_enriched(b.1.exif_data, heads[i]));
    }
}

/// Whether a field has the tag and IFD of a lookup.
pub open spec fn field_is(f: ExifField, context: u8, number: u16, ifd: u16) -> bool {
    f.context == context && f.number == number && f.ifd == ifd
}

/// The law of field lookup: a lookup by tag and IFD finds a field of that tag
/// in that IFD, the last one there is, and finds none only when there is
/// none.
pub proof fn law_field_lookup_finds_last(fields: Seq<ExifField>, context: u8, number: u16, ifd: u16)
    ensures
        field_index(fields, context, number, ifd) is Some ==> {
            let i = field_index(fields, context, number, ifd)->0;
            &&& 0 <= i < fields.len()
            &&& field_is(fields[i], context, number, ifd)
            &&& forall|j: int| i < j < fields.len() ==> !field_is(#[trigger] fields[j], context, number, ifd)
        },
        field_index(fields, context, number, ifd) is None ==> forall|j: int|
            0 <= j < fields.len() ==> !field_is(#[trigger] fields[j], context, number, ifd),
    decreases fields.len(),
{
    if fields.len() > 0 {
        law_field_lookup_finds_last(fields.drop_last(), context, number, ifd);
        let last = fields.len() - 1;
        assert forall|j: int| 0 <= j < last implies fields[j] == fields.drop_last()[j] by {}
    }
}

/// The law of the thumbnail: given a thumbnail offset and length, the
/// thumbnail is the run of bytes of the TIFF data that starts at the offset
/// and is as long as the length, and there is one exactly when that run lies
/// within the data.
pub proof fn law_thumbnail_is_the_stated_range(c: ExifContainer, o: u32, l: u32)
    requires
        first_long(c.fields@, CONTEXT_TIFF, JPEG_INTERCHANGE_FORMAT, THUMBNAIL) == Some(o),
        first_long(c.fields@, CONTEXT_TIFF, JPEG_INTERCHANGE_FORMAT_LENGTH, THUMBNAIL) == Some(l),
    ensures
        o as int + l as int <= c.buf@.len() ==> spec_thumbnail(c) is Some,
        o as int + l as int > c.buf@.len() ==> spec_thumbnail(c) is None,
        spec_thumbnail(c) is Some ==> (spec_thumbnail(c)->0).len() == l,
        spec_thumbnail(c) is Some ==> forall|k: int| 0 <= k < l ==> (spec_thumbnail(c)->0)[k] == c.buf@[o + k],
{
}

/// The law of the missing thumbnail: without a thumbnail offset or length
/// there is no thumbnail.
pub proof fn law_thumbnail_needs_offset_and_length(c: ExifContainer)
    ensures
        first_long(c.fields@, CONTEXT_TIFF, JPEG_INTERCHANGE_FORMAT, THUMBNAIL) is None ==> spec_thumbnail(c) is None,
        first_long(c.fields@, CONTEXT_TIFF, JPEG_INTERCHANGE_FORMAT_LENGTH, THUMBNAIL) is None ==> spec_thumbnail(c) is None,
{
}

} // verus!
