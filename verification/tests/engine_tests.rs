use ingot_core::{
    missing_strip_error, pick_scaling_factor, scan_entries, EngineConfig, FileKind, PreviewStrip, ScaleFactor,
    SourceRead, WalkEntry,
};

#[test]
fn default_config_has_phase2_locked_values() {
    let c = EngineConfig::defaults(None);
    assert_eq!(c.preview_long_edge, 1920);
    assert_eq!(c.thumb_long_edge, 512);
    assert_eq!(c.jpeg_quality, 85);
    assert!(c.cpu_threads >= 1);
    assert_eq!(c.cpu_threads, 4);
    assert_eq!(c.card_read_permits, 2);
    assert_eq!(EngineConfig::defaults(Some(8)).cpu_threads, 8);
}

#[test]
fn config_override_keeps_other_defaults() {
    let c = EngineConfig { preview_long_edge: 2560, ..EngineConfig::defaults(None) };
    assert_eq!(c.preview_long_edge, 2560);
    assert_eq!(c.thumb_long_edge, 512);
}

fn ok(paths: &[&str]) -> Vec<Result<WalkEntry, walkdir::Error>> {
    paths.iter().map(|p| Ok(WalkEntry { path: p.to_string(), is_file: true })).collect()
}

#[test]
fn work_items_read_raw_strip_or_whole_jpeg() {
    let mut result = scan_entries(ok(&["d/A.CR2", "d/A.JPG", "d/B.JPG", "d/C.CR2", "d/D.CR2"]));
    let strip = |offset: u64, len: usize| ingot_core::ExifAssetData {
        captured_at: None,
        thumbnail: None,
        embedded_preview_file_location: Some(PreviewStrip { offset, len }),
    };
    result.assets.set_exif_data(0, strip(1, 2));
    result.assets.set_exif_data(2, strip(7, 9));
    let items = result.assets.work_items();
    assert_eq!(items.len(), 4);
    // A pair takes its previews from the JPEG its metadata was read from.
    assert_eq!(items[0].kind, FileKind::Jpeg);
    assert_eq!(items[0].path, "d/A.JPG");
    match items[0].source_read() {
        SourceRead::WholeFile(p) => assert_eq!(p, "d/A.JPG"),
        other => panic!("unexpected read {other:?}"),
    }
    match items[1].source_read() {
        SourceRead::WholeFile(p) => assert_eq!(p, "d/B.JPG"),
        other => panic!("unexpected read {other:?}"),
    }
    // A RAW-only asset is read through the strip located in its own head.
    assert_eq!(items[2].kind, FileKind::Raw);
    match items[2].source_read() {
        SourceRead::EmbeddedPreview(p, s) => {
            assert_eq!(p, "d/C.CR2");
            assert_eq!(s, PreviewStrip { offset: 7, len: 9 });
        },
        other => panic!("unexpected read {other:?}"),
    }
    assert!(matches!(items[3].source_read(), SourceRead::MissingStrip));
    assert_eq!(result.assets.exif_head_paths(), vec!["d/A.JPG", "d/B.JPG", "d/C.CR2", "d/D.CR2"]);
}

#[test]
fn outcomes_are_recorded_and_reported() {
    let mut result = scan_entries(ok(&["d/A.JPG", "d/B.JPG", "d/C.CR2"]));
    let key_a = result.assets.key_at(0).clone();
    let key_b = result.assets.key_at(1).clone();
    let key_c = result.assets.key_at(2).clone();

    let m = result.assets.record_previews(&key_a, Some(vec![1]), Some(vec![2])).unwrap();
    assert!(!m.error);
    assert_eq!(m.key, key_a);
    let a = result.assets.asset_at(0);
    assert_eq!(a.image_data.thumb, Some(vec![1]));
    assert_eq!(a.image_data.preview, Some(vec![2]));
    assert!(a.image_data.errors.is_none());

    let m = result.assets.record_previews(&key_b, None, Some(vec![3])).unwrap();
    assert!(!m.error);
    let b = result.assets.asset_at(1);
    assert_eq!(b.image_data.errors, Some(vec!["error generating thumbnail".to_string()]));
    let m = result.assets.record_previews(&key_b, None, None).unwrap();
    assert!(m.error);
    let b = result.assets.asset_at(1);
    assert_eq!(
        b.image_data.errors,
        Some(vec![
            "error generating thumbnail".to_string(),
            "error generating thumbnail".to_string(),
            "error generating preview".to_string()
        ])
    );
    assert_eq!(b.image_data.preview, Some(vec![3]));

    let m = result.assets.record_read_failure(&key_c, missing_strip_error()).unwrap();
    assert!(m.error);
    assert_eq!(
        result.assets.asset_at(2).image_data.errors,
        Some(vec!["no embedded preview strip with jpeg bytes offset, limit was found".to_string()])
    );

    let unknown = ingot_core::AssetKey { dir: "x".to_string(), stem: "y".to_string() };
    assert!(result.assets.record_previews(&unknown, None, None).is_none());
    assert!(result.assets.record_read_failure(&unknown, "e".to_string()).is_none());
}

fn turbojpeg_factors() -> Vec<ScaleFactor> {
    [(2, 1), (15, 8), (7, 4), (13, 8), (3, 2), (11, 8), (5, 4), (9, 8), (1, 1), (7, 8), (3, 4), (5, 8), (1, 2), (3, 8), (1, 4), (1, 8)]
        .iter()
        .map(|&(num, denom)| ScaleFactor { num, denom })
        .collect()
}

#[test]
fn scaling_picks_smallest_decode_reaching_target() {
    let f = pick_scaling_factor(&turbojpeg_factors(), 6240, 1920);
    assert_eq!(f, ScaleFactor { num: 3, denom: 8 });
    assert_eq!(f.scale(6240), 2340);
    let f = pick_scaling_factor(&turbojpeg_factors(), 6240, 512);
    assert_eq!(f, ScaleFactor { num: 1, denom: 8 });
    let f = pick_scaling_factor(&turbojpeg_factors(), 1000, 1000);
    assert_eq!(f, ScaleFactor { num: 1, denom: 1 });
    let f = pick_scaling_factor(&turbojpeg_factors(), 6240, 20000);
    assert_eq!(f, ScaleFactor { num: 1, denom: 1 });
    let f = pick_scaling_factor(&vec![ScaleFactor { num: 1, denom: 2 }, ScaleFactor { num: 2, denom: 4 }], 100, 10);
    assert_eq!(f, ScaleFactor { num: 1, denom: 2 });
}
