//! The decisions of the ingest engine: its tunable policy, the work of the
//! preview stage, and how each outcome is recorded and reported.
use vstd::prelude::*;

use crate::asset::{AssetKey, FileKind, PreviewStrip};

verus! {

/// Tunable engine policy.
#[derive(Clone, Debug)]
pub struct EngineConfig {
    /// Long edge (px) of the generated grid/loupe preview.
    pub preview_long_edge: usize,
    /// Long edge (px) of the generated grid thumbnail.
    pub thumb_long_edge: usize,
    /// JPEG encode quality (1..=100) of generated outputs.
    pub jpeg_quality: i32,
    /// Concurrent reads of the source card.
    pub card_read_permits: usize,
    /// CPU worker threads of the preview pipeline.
    pub cpu_threads: usize,
}

impl EngineConfig {
    /// The default policy on a machine whose available parallelism is
    /// `available_parallelism` (when it is known; the platform never reports
    /// zero): 1920 px previews, 512 px thumbnails, quality 85, two card reads
    /// at once, and one worker thread per available core, or four when that
    /// is not known.
    pub fn defaults(available_parallelism: Option<usize>) -> (r: EngineConfig)
        requires
            available_parallelism matches Some(n) ==> n >= 1,
        ensures
            r.cpu_threads >= 1,
            r.preview_long_edge == 1920,
            r.thumb_long_edge == 512,
            r.jpeg_quality == 85,
            r.card_read_permits == 2,
            r.cpu_threads == match available_parallelism {
                Some(n) => n,
                None => 4,
            },
    {
        EngineConfig {
            preview_long_edge: 1920,
            thumb_long_edge: 512,
            jpeg_quality: 85,
            card_read_permits: 2,
            cpu_threads: match available_parallelism {
                Some(n) => n,
                None => 4,
            },
        }
    }
}

/// The report of one processed asset: its key, and whether it failed.
#[derive(Debug)]
pub struct IngestMessage {
    pub key: AssetKey,
    pub error: bool,
}

/// What the ingest stream carries, one per processed asset.
#[derive(Debug)]
pub enum IngestEvent {
    Preview(IngestMessage),
}

/// The preview work of one asset: its key, the file its previews are taken
/// from, and where that file's embedded preview is.
#[derive(Debug)]
pub struct WorkItem {
    pub key: AssetKey,
    pub kind: FileKind,
    pub path: String,
    pub strip: Option<PreviewStrip>,
}

/// Where the JPEG bytes of an asset's previews come from.
#[derive(Debug)]
pub enum SourceRead {
    /// The embedded preview strip of a RAW file.
    EmbeddedPreview(String, PreviewStrip),
    /// The whole of a JPEG file.
    WholeFile(String),
    /// A RAW file whose embedded preview was not located.
    MissingStrip,
}

/// The text of the error recorded for a RAW file whose embedded preview was
/// not located.
pub open spec fn missing_strip_error_text() -> Seq<char> {
    "no embedded preview strip with jpeg bytes offset, limit was found"@
}

/// The error recorded for a RAW file whose embedded preview was not located.
pub fn missing_strip_error() -> (r: String)
    ensures
        r@ == missing_strip_error_text(),
{
    "no embedded preview strip with jpeg bytes offset, limit was found".to_string()
}

impl WorkItem {
    /// The read the previews of the item need: the embedded strip of a RAW,
    /// the whole file of a JPEG. Previews never come from decoding RAW data.
    pub fn source_read(&self) -> (r: SourceRead)
        ensures
            match self.kind {
                FileKind::Raw => match self.strip {
                    Some(s) => r matches SourceRead::EmbeddedPreview(p, t) && p@ == self.path@ && t == s,
                    None => r is MissingStrip,
                },
                FileKind::Jpeg => r matches SourceRead::WholeFile(p) && p@ == self.path@,
            },
    {
        match self.kind {
            FileKind::Raw => match self.strip {
                Some(s) => SourceRead::EmbeddedPreview(self.path.clone(), s),
                None => SourceRead::MissingStrip,
            },
            FileKind::Jpeg => SourceRead::WholeFile(self.path.clone()),
        }
    }
}

} // verus!
