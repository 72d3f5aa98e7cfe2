use std::collections::BTreeSet;
use std::io::Read;
use std::path::{Path, PathBuf};

use ingot_core::{enrich_assets, scan_entries, FileKind, PhotoAsset, ScanResponse, WalkEntry};

/// Creates the directory `rel` under `base` (each missing component in turn)
/// and empty files of the given names in it. The files are removed when the
/// returned handles are dropped.
fn build_tree(base: &Path, rel: &str, files: &[&str]) -> Vec<tempfile::NamedTempFile> {
    let mut dir = base.to_path_buf();
    for component in rel.split('/') {
        let next = dir.join(component);
        if !next.exists() {
            let made = tempfile::Builder::new().prefix(component).rand_bytes(0).tempdir_in(&dir);
            match made {
                Ok(d) => {
                    let _ = d.keep();
                },
                Err(err) => panic!("error building test tree: {err}"),
            }
        }
        dir = next;
    }
    files
        .iter()
        .map(|file| match tempfile::Builder::new().prefix(file).rand_bytes(0).tempfile_in(&dir) {
            Ok(f) => f,
            Err(err) => panic!("error creating test file: {err}"),
        })
        .collect()
}

fn build_default_dir_structure(tmp_dir: &Path) -> Vec<tempfile::NamedTempFile> {
    let mut files = build_tree(
        tmp_dir,
        "source/DCIM/100CANON",
        &[
            "IMG_1800.CR2",
            "IMG_1800.JPG",
            "IMG_1868.CR2",
            "IMG_1868.JPG",
            "IMG_1875.CR2",
            "IMG_1875.JPG",
            "IMG_1881.CR2",
            "IMG_1881.JPG",
            "IMG_1891.CR2",
            "IMG_1891.JPG",
            "IMG_1907.CR2",
            "IMG_1907.JPG",
            "IMG_1939.CR2",
            "IMG_1915.JPG",
        ],
    );
    files.extend(build_tree(
        tmp_dir,
        "source/DCIM/101CANON",
        &["IMG_1800.CR2", "IMG_1800.JPG", "IMG_1939.CR2", "IMG_1915.JPG"],
    ));
    files
}

/// The directory walk, as the application performs it.
fn scan_source_dir(source: &Path) -> ScanResponse {
    let entries = walkdir::WalkDir::new(source)
        .into_iter()
        .map(|e| e.map(|e| WalkEntry { path: e.path().to_string_lossy().into_owned(), is_file: e.path().is_file() }))
        .collect();
    scan_entries(entries)
}

/// The heads of the files the metadata pass reads, one per asset: at most
/// the first 128 KiB of each, read through the handle of the test file at
/// that path. Each asset with a JPEG is read from its JPEG.
fn read_heads(result: &ScanResponse, files: &[tempfile::NamedTempFile]) -> Vec<Option<Vec<u8>>> {
    let paths = result.assets.exif_head_paths();
    assert_eq!(paths.len(), result.assets.len());
    paths
        .iter()
        .enumerate()
        .map(|(i, path)| {
            if let Some(jpeg) = result.assets.asset_at(i).files.get(FileKind::Jpeg) {
                assert_eq!(path, jpeg);
            }
            let file = files.iter().find(|f| f.path() == Path::new(path))?;
            let mut head = Vec::new();
            file.take(128 * 1024).read_to_end(&mut head).ok()?;
            Some(head)
        })
        .collect()
}

fn check_eleven_assets(result: ScanResponse) {
    let result_assets: Vec<PhotoAsset> = result.assets.into_values();
    assert!(result.errors.is_empty());
    assert!(result.collisions.is_empty());
    assert_eq!(result_assets.len(), 11);

    let mut double_assets = 0;
    let mut jpg_only_assets = 0;
    let mut raw_only_assets = 0;
    for asset in result_assets {
        if asset.files.get(FileKind::Jpeg).is_some() && asset.files.get(FileKind::Raw).is_some() {
            double_assets += 1;
        } else if asset.files.get(FileKind::Jpeg).is_some() && asset.files.get(FileKind::Raw).is_none() {
            jpg_only_assets += 1;
        } else if asset.files.get(FileKind::Jpeg).is_none() && asset.files.get(FileKind::Raw).is_some() {
            raw_only_assets += 1;
        }
    }
    assert_eq!(double_assets, 7);
    assert_eq!(jpg_only_assets, 2);
    assert_eq!(raw_only_assets, 2);
}

fn check_spot_collision(tmp_dir: &Path, result: ScanResponse) {
    assert!(result.errors.is_empty());
    assert_eq!(result.collisions.len(), 1);
    assert_eq!(result.collisions[0].kind, FileKind::Jpeg);
    let got: BTreeSet<_> = BTreeSet::from([
        PathBuf::from(result.collisions[0].kept.clone()),
        PathBuf::from(result.collisions[0].displaced.clone()),
    ]);
    let want: BTreeSet<_> = BTreeSet::from([
        tmp_dir.join("source/DCIM/100CANON/IMG_1800.JPEG"),
        tmp_dir.join("source/DCIM/100CANON/IMG_1800.JPG"),
    ]);
    assert_eq!(got, want);
    let result_asset: Vec<PhotoAsset> = result.assets.into_values();
    assert_eq!(result_asset.len(), 2);
}

#[test]
fn scan_scans_test_tree_into_11_assets() {
    let tmp_dir = tempfile::tempdir().expect("error creating tmp test dir");
    let _files = build_default_dir_structure(tmp_dir.path());
    check_eleven_assets(scan_source_dir(tmp_dir.path()));
}

#[test]
fn lib_scans_test_tree_into_11_assets() {
    let tmp_dir = tempfile::tempdir().expect("error creating tmp test dir");
    let _files = build_default_dir_structure(tmp_dir.path());
    check_eleven_assets(scan_source_dir(tmp_dir.path()));
}

fn spot_collision_tree(tmp_dir: &Path) -> Vec<tempfile::NamedTempFile> {
    build_tree(
        tmp_dir,
        "source/DCIM/100CANON",
        &["IMG_1800.JPEG", "IMG_1800.JPG", "IMG_1868.CR2", "IMG_1868.JPG"],
    )
}

#[test]
fn scan_scans_test_tree_spot_collision() {
    let tmp_dir = tempfile::tempdir().expect("error creating tmp test dir");
    let _files = spot_collision_tree(tmp_dir.path());
    check_spot_collision(tmp_dir.path(), scan_source_dir(tmp_dir.path()));
}

#[test]
fn lib_scans_test_tree_spot_collision() {
    let tmp_dir = tempfile::tempdir().expect("error creating tmp test dir");
    let _files = spot_collision_tree(tmp_dir.path());
    check_spot_collision(tmp_dir.path(), scan_source_dir(tmp_dir.path()));
}

#[test]
fn metadata_enrich_assets_test_no_exif_container_exif_data_not_filled_no_error() {
    let tmp_dir = tempfile::tempdir().expect("error creating tmp test dir");
    let files = build_default_dir_structure(tmp_dir.path());

    let mut result: ScanResponse = scan_source_dir(tmp_dir.path());
    let heads = read_heads(&result, &files);
    assert!(heads.iter().all(|h| h.is_some()));
    enrich_assets(&mut result.assets, &heads);

    let result_assets: Vec<PhotoAsset> = result.assets.into_values();
    for asset in result_assets {
        assert!(asset.exif_data.captured_at.is_none());
        assert!(asset.exif_data.thumbnail.is_none());
    }
}

#[test]
fn lib_enrich_assets_test_no_exif_container_exif_data_not_filled_no_error() {
    let tmp_dir = tempfile::tempdir().expect("error creating tmp test dir");
    let files = build_default_dir_structure(tmp_dir.path());

    let mut result: ScanResponse = scan_source_dir(tmp_dir.path());
    let heads = read_heads(&result, &files);
    assert!(heads.iter().all(|h| h.is_some()));
    enrich_assets(&mut result.assets, &heads);

    let result_assets: Vec<PhotoAsset> = result.assets.into_values();
    for asset in result_assets {
        assert!(asset.exif_data.captured_at.is_none());
        assert!(asset.exif_data.thumbnail.is_none());
    }
}

#[test]
fn scan_walk_errors_are_kept_not_fatal() {
    let tmp_dir = tempfile::tempdir().expect("error creating tmp test dir");
    let _files = spot_collision_tree(tmp_dir.path());
    let missing = tmp_dir.path().join("no_such_dir");
    let mut entries: Vec<Result<WalkEntry, walkdir::Error>> = walkdir::WalkDir::new(&missing)
        .into_iter()
        .map(|e| e.map(|e| WalkEntry { path: e.path().to_string_lossy().into_owned(), is_file: e.path().is_file() }))
        .collect();
    assert_eq!(entries.len(), 1);
    entries.extend(
        walkdir::WalkDir::new(tmp_dir.path())
            .into_iter()
            .map(|e| e.map(|e| WalkEntry { path: e.path().to_string_lossy().into_owned(), is_file: e.path().is_file() })),
    );
    let result = scan_entries(entries);
    assert_eq!(result.errors.len(), 1);
    assert_eq!(result.assets.len(), 2);
    assert_eq!(result.collisions.len(), 1);
}

#[test]
fn scan_skips_directories_named_like_photos() {
    let tmp_dir = tempfile::tempdir().expect("error creating tmp test dir");
    let _files = build_tree(tmp_dir.path(), "album.jpg", &[]);
    let result = scan_source_dir(tmp_dir.path());
    assert!(result.assets.into_values().is_empty());
    assert!(result.collisions.is_empty());
    assert!(result.errors.is_empty());
}

#[test]
fn scan_pairs_files_inside_a_photo_named_directory() {
    let tmp_dir = tempfile::tempdir().expect("error creating tmp test dir");
    let _files = build_tree(tmp_dir.path(), "trip.JPG", &["IMG_5.CR2", "IMG_5.JPG"]);
    let result = scan_source_dir(tmp_dir.path());
    assert_eq!(result.assets.len(), 1);
    let heads = result.assets.exif_head_paths();
    assert_eq!(PathBuf::from(&heads[0]), tmp_dir.path().join("trip.JPG/IMG_5.JPG"));
}
