use ingot_core::{
    classify, entry_key, scan_entries, AssetFiles, AssetKey, FileKind, TriageState, WalkEntry,
};

fn ok(paths: &[&str]) -> Vec<Result<WalkEntry, walkdir::Error>> {
    paths.iter().map(|p| Ok(WalkEntry { path: p.to_string(), is_file: true })).collect()
}

#[test]
fn classify_is_case_insensitive() {
    assert_eq!(classify("CR2"), Some(FileKind::Raw));
    assert_eq!(classify("cr2"), Some(FileKind::Raw));
    assert_eq!(classify("Jpg"), Some(FileKind::Jpeg));
    assert_eq!(classify("JPEG"), Some(FileKind::Jpeg));
    assert_eq!(classify("CTG"), None);
    assert_eq!(classify(""), None);
    assert_eq!(classify("jpe"), None);
}

#[test]
fn entry_key_uses_dir_and_lowercased_stem() {
    let (key, kind) = entry_key("card/DCIM/100CANON/IMG_0001.CR2").expect("photo file");
    assert_eq!(key.dir, "card/DCIM/100CANON");
    assert_eq!(key.stem, "img_0001");
    assert_eq!(kind, FileKind::Raw);
    assert!(entry_key("card/DCIM/.DS_Store").is_none());
    assert!(entry_key("card/DCIM/EOSMISC/M2100.CTG").is_none());
    assert!(entry_key("card/DCIM").is_none());
}

#[test]
fn asset_files_insert_never_overwrites() {
    let mut files = AssetFiles::new(FileKind::Jpeg, "a/IMG_1.JPG".to_string());
    assert_eq!(files.insert(FileKind::Raw, "a/IMG_1.CR2".to_string()), Ok(()));
    assert_eq!(files.insert(FileKind::Jpeg, "a/IMG_1.JPEG".to_string()), Err("a/IMG_1.JPEG".to_string()));
    assert_eq!(files.get(FileKind::Jpeg).map(|s| s.as_str()), Some("a/IMG_1.JPG"));
    assert_eq!(files.get(FileKind::Raw).map(|s| s.as_str()), Some("a/IMG_1.CR2"));
    assert_eq!(files.len(), 2);
}

#[test]
fn prioritized_prefers_raw_then_jpeg() {
    let mut files = AssetFiles::new(FileKind::Jpeg, "a/IMG_1.JPG".to_string());
    let (kind, path) = files.get_prioritized();
    assert_eq!(kind, FileKind::Jpeg);
    assert_eq!(path, "a/IMG_1.JPG");
    assert_eq!(files.get_jpeg_first(), (FileKind::Jpeg, &"a/IMG_1.JPG".to_string()));
    files.insert(FileKind::Raw, "a/IMG_1.CR2".to_string()).unwrap();
    let (kind, path) = files.get_prioritized();
    assert_eq!(kind, FileKind::Raw);
    assert_eq!(path, "a/IMG_1.CR2");
    assert_eq!(files.get_jpeg_first(), (FileKind::Jpeg, &"a/IMG_1.JPG".to_string()));
    let raw_only = AssetFiles::new(FileKind::Raw, "b/IMG_2.CR2".to_string());
    assert_eq!(raw_only.get_jpeg_first(), (FileKind::Raw, &"b/IMG_2.CR2".to_string()));
    assert!(raw_only.get(FileKind::Jpeg).is_none());
}

#[test]
fn pairing_keeps_first_and_conserves_files() {
    let result = scan_entries(ok(&[
        "card/100/IMG_1.JPG",
        "card/100/img_1.cr2",
        "card/100/IMG_1.JPEG",
        "card/101/IMG_1.CR2",
        "card/100/notes.txt",
        "card/100/IMG_2.jpg",
    ]));
    assert!(result.errors.is_empty());
    assert_eq!(result.assets.len(), 3);
    let key = AssetKey { dir: "card/100".to_string(), stem: "img_1".to_string() };
    let asset = result.assets.get(&key).expect("paired asset");
    assert_eq!(asset.files.get(FileKind::Jpeg).map(|s| s.as_str()), Some("card/100/IMG_1.JPG"));
    assert_eq!(asset.files.get(FileKind::Raw).map(|s| s.as_str()), Some("card/100/img_1.cr2"));
    assert_eq!(asset.state, TriageState::Pending);
    assert_eq!(asset.rating, 0);
    let other_dir = AssetKey { dir: "card/101".to_string(), stem: "img_1".to_string() };
    assert!(result.assets.get(&other_dir).is_some());
    assert_eq!(result.collisions.len(), 1);
    assert_eq!(result.collisions[0].kept, "card/100/IMG_1.JPG");
    assert_eq!(result.collisions[0].displaced, "card/100/IMG_1.JPEG");
    assert_eq!(result.collisions[0].key, key);
    let stored: usize = result.assets.into_values().iter().map(|a| a.files.len()).sum();
    assert_eq!(stored + result.collisions.len(), 5);
}

#[test]
fn asset_map_positions_and_keys() {
    let result = scan_entries(ok(&["d/A.JPG", "d/B.CR2"]));
    let key_b = AssetKey { dir: "d".to_string(), stem: "b".to_string() };
    assert_eq!(result.assets.position(&key_b), Some(1));
    assert_eq!(result.assets.key_at(0).stem, "a");
    assert!(result.assets.position(&AssetKey { dir: "d".to_string(), stem: "c".to_string() }).is_none());
}
