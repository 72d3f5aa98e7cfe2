use ingot_core::{
    extract_exif_data, get_capture_time, get_embedded_preview_location, get_thumbnail, preview_strip_in_bounds,
    enrich_assets, scan_entries, WalkEntry, CaptureTime, ExifContainer, ExifField, FieldValue, PreviewStrip,
};

const TIFF: u8 = 0;
const EXIF: u8 = 1;

fn long(number: u16, ifd: u16, v: &[u32]) -> ExifField {
    ExifField { context: TIFF, number, ifd, value: FieldValue::Long(v.to_vec()) }
}

fn container(buf: Vec<u8>, fields: Vec<ExifField>) -> ExifContainer {
    ExifContainer { buf, fields }
}

#[test]
fn preview_location_from_strip_tags() {
    let c = container(vec![], vec![long(0x111, 0, &[71768]), long(0x117, 0, &[2_000_000, 5])]);
    assert_eq!(get_embedded_preview_location(&c), Some(PreviewStrip { offset: 71768, len: 2_000_000 }));
    let only_offset = container(vec![], vec![long(0x111, 0, &[71768])]);
    assert_eq!(get_embedded_preview_location(&only_offset), None);
    let wrong_ifd = container(vec![], vec![long(0x111, 1, &[1]), long(0x117, 0, &[2])]);
    assert_eq!(get_embedded_preview_location(&wrong_ifd), None);
    let empty_long = container(vec![], vec![long(0x111, 0, &[]), long(0x117, 0, &[2])]);
    assert_eq!(get_embedded_preview_location(&empty_long), None);
    let not_long = container(
        vec![],
        vec![ExifField { context: TIFF, number: 0x111, ifd: 0, value: FieldValue::Other }, long(0x117, 0, &[2])],
    );
    assert_eq!(get_embedded_preview_location(&not_long), None);
}

#[test]
fn the_last_field_of_a_tag_is_the_one_read() {
    let c = container(vec![], vec![long(0x111, 0, &[1]), long(0x117, 0, &[2]), long(0x111, 0, &[9])]);
    assert_eq!(get_embedded_preview_location(&c), Some(PreviewStrip { offset: 9, len: 2 }));
}

#[test]
fn thumbnail_is_sliced_when_in_range() {
    let buf: Vec<u8> = (0u8..20).collect();
    let c = container(buf.clone(), vec![long(0x201, 1, &[4]), long(0x202, 1, &[3])]);
    assert_eq!(get_thumbnail(&c), Some(vec![4, 5, 6]));
    let end = container(buf.clone(), vec![long(0x201, 1, &[17]), long(0x202, 1, &[3])]);
    assert_eq!(get_thumbnail(&end), Some(vec![17, 18, 19]));
    let past = container(buf.clone(), vec![long(0x201, 1, &[18]), long(0x202, 1, &[3])]);
    assert_eq!(get_thumbnail(&past), None);
    let huge = container(buf, vec![long(0x201, 1, &[u32::MAX]), long(0x202, 1, &[u32::MAX])]);
    assert_eq!(get_thumbnail(&huge), None);
}

#[test]
fn capture_time_is_parsed_from_date_time_original() {
    let field = |text: &[u8]| ExifField {
        context: EXIF,
        number: 0x9003,
        ifd: 0,
        value: FieldValue::Ascii(vec![text.to_vec()]),
    };
    let c = container(vec![], vec![field(b"2026:01:10 13:05:16")]);
    assert_eq!(
        get_capture_time(&c),
        Some(CaptureTime { year: 2026, month: 1, day: 10, hour: 13, minute: 5, second: 16, nanosecond: 0 })
    );
    assert_eq!(get_capture_time(&container(vec![], vec![field(b"0000:00:00 00:00:00")])), None);
    assert_eq!(get_capture_time(&container(vec![], vec![field(b"2026:01:10")])), None);
    assert_eq!(get_capture_time(&container(vec![], vec![field(&[0xff, 0xfe])])), None);
    let tiff_context = ExifField {
        context: TIFF,
        number: 0x9003,
        ifd: 0,
        value: FieldValue::Ascii(vec![b"2026:01:10 13:05:16".to_vec()]),
    };
    assert_eq!(get_capture_time(&container(vec![], vec![tiff_context])), None);
}

#[test]
fn extract_assembles_all_properties() {
    let buf: Vec<u8> = vec![0xFF, 0xD8, 1, 2, 0xFF, 0xD9];
    let c = container(
        buf,
        vec![
            long(0x201, 1, &[0]),
            long(0x202, 1, &[6]),
            long(0x111, 0, &[100]),
            long(0x117, 0, &[50]),
            ExifField { context: EXIF, number: 0x9003, ifd: 0, value: FieldValue::Ascii(vec![b"2026:01:10 12:26:35".to_vec()]) },
        ],
    );
    let data = extract_exif_data(&c);
    assert_eq!(data.thumbnail, Some(vec![0xFF, 0xD8, 1, 2, 0xFF, 0xD9]));
    assert_eq!(data.embedded_preview_file_location, Some(PreviewStrip { offset: 100, len: 50 }));
    let t = data.captured_at.expect("capture time");
    assert_eq!((t.year, t.month, t.day, t.hour, t.minute, t.second), (2026, 1, 10, 12, 26, 35));
    assert_eq!(t.date().day, 10);
}

/// A little-endian TIFF with one IFD holding `StripOffsets` and
/// `StripByteCounts`.
fn small_tiff(offset: u32, len: u32) -> Vec<u8> {
    let mut b: Vec<u8> = vec![b'I', b'I', 42, 0, 8, 0, 0, 0];
    b.extend_from_slice(&2u16.to_le_bytes());
    for (tag, value) in [(0x111u16, offset), (0x117u16, len)] {
        b.extend_from_slice(&tag.to_le_bytes());
        b.extend_from_slice(&4u16.to_le_bytes());
        b.extend_from_slice(&1u32.to_le_bytes());
        b.extend_from_slice(&value.to_le_bytes());
    }
    b.extend_from_slice(&0u32.to_le_bytes());
    b
}

#[test]
fn enrichment_reads_the_container_of_each_head() {
    let entries: Vec<Result<WalkEntry, walkdir::Error>> = ["d/A.CR2", "d/B.JPG", "d/C.CR2"]
        .iter()
        .map(|p| Ok(WalkEntry { path: p.to_string(), is_file: true }))
        .collect();
    let mut result = scan_entries(entries);
    let heads = vec![Some(small_tiff(1234, 56)), Some(b"not an image at all".to_vec()), None];
    enrich_assets(&mut result.assets, &heads);
    let a = &result.assets.asset_at(0).exif_data;
    assert_eq!(a.embedded_preview_file_location, Some(PreviewStrip { offset: 1234, len: 56 }));
    assert!(a.captured_at.is_none());
    assert!(a.thumbnail.is_none());
    assert!(result.assets.asset_at(1).exif_data.embedded_preview_file_location.is_none());
    assert!(result.assets.asset_at(2).exif_data.embedded_preview_file_location.is_none());

    let first: Vec<Option<PreviewStrip>> =
        (0..3).map(|i| result.assets.asset_at(i).exif_data.embedded_preview_file_location).collect();
    enrich_assets(&mut result.assets, &heads);
    let second: Vec<Option<PreviewStrip>> =
        (0..3).map(|i| result.assets.asset_at(i).exif_data.embedded_preview_file_location).collect();
    assert_eq!(first, second);
}

#[test]
fn strip_bounds_are_checked_against_file_length() {
    assert!(preview_strip_in_bounds(PreviewStrip { offset: 10, len: 90 }, 100));
    assert!(!preview_strip_in_bounds(PreviewStrip { offset: 10, len: 91 }, 100));
    assert!(!preview_strip_in_bounds(PreviewStrip { offset: 10, len: 0 }, 100));
    assert!(!preview_strip_in_bounds(PreviewStrip { offset: u64::MAX, len: 1 }, u64::MAX));
    assert!(preview_strip_in_bounds(PreviewStrip { offset: 0, len: 100 }, 100));
}
