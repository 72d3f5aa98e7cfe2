//! Ingestion and triage core for RAW+JPEG photo cards: asset pairing, EXIF
//! metadata extraction, destination routing and the preview work decisions.
mod asset;
mod datetime;
mod engine;
mod route;
mod metadata;
mod path;
mod preview;
mod scan;
mod store;

pub use asset::{
    AssetFiles, AssetKey, ExifAssetData, FileKind, ImageData, PhotoAsset, PreviewStrip, TriageState,
    files_wf, law_insert_then_get, law_some_file_present, lookup_kind,
};
pub use datetime::{CaptureDate, CaptureTime};
pub use scan::{
    classify, entry_key, law_scan_conserves_files, law_scan_keeps_first, law_scan_pairs_kinds, law_scan_sound, law_scan_well_formed, scan_entries, Collision,
    WalkEntry,
    ScanResponse,
};
pub use store::AssetMap;
pub use metadata::{
    enrich_assets, extract_exif_data, law_enrich_idempotent, get_capture_time, get_embedded_preview_location, get_thumbnail, preview_strip_in_bounds,
    ExifContainer, ExifField, FieldValue,
};
pub use route::{build_destination_path, Target, TargetKind};
pub use engine::{missing_strip_error, EngineConfig, IngestEvent, IngestMessage, SourceRead, WorkItem};
pub use preview::{pick_scaling_factor, ScaleFactor};
