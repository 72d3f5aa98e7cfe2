//! The asset domain model: how a photo (RAW and/or JPEG) is identified and
//! represented. An asset is keyed on its directory and its case-normalized
//! file stem, never on the stem alone.
use vstd::prelude::*;

use crate::datetime::CaptureTime;

verus! {

/// The two kinds of file that make up a photo asset.
#[derive(PartialEq, Eq, Clone, Copy, Debug, Structural)]
pub enum FileKind {
    Raw,
    Jpeg,
}

/// The key of an asset: the directory that holds its files and the lowercased
/// file stem they share.
#[derive(PartialEq, Eq, Hash, Clone, Debug)]
pub struct AssetKey {
    pub dir: String,
    pub stem: String,
}

impl View for AssetKey {
    type V = (Seq<char>, Seq<char>);

    open spec fn view(&self) -> (Seq<char>, Seq<char>) {
        (self.dir@, self.stem@)
    }
}

impl AssetKey {
    /// An independent copy of the key.
    pub fn duplicate(&self) -> (r: AssetKey)
        ensures
            r@ == self@,
    {
        AssetKey { dir: self.dir.clone(), stem: self.stem.clone() }
    }

    /// Whether two keys name the same asset: same directory and same stem.
    pub fn same_as(&self, other: &AssetKey) -> (r: bool)
        ensures
            r == (self@ == other@),
    {
        self.dir == other.dir && self.stem == other.stem
    }
}

/// The file recorded for `kind` in a list of files: the first entry of that
/// kind, if there is one.
pub open spec fn lookup_kind(files: Seq<(FileKind, Seq<char>)>, kind: FileKind) -> Option<Seq<char>>
    decreases files.len(),
{
    if files.len() == 0 {
        None
    } else if files[0].0 == kind {
        Some(files[0].1)
    } else {
        lookup_kind(files.drop_first(), kind)
    }
}

/// A well-formed file list: at least one file, and no kind twice.
pub open spec fn files_wf(files: Seq<(FileKind, Seq<char>)>) -> bool {
    &&& files.len() >= 1
    &&& forall|i: int, j: int| 0 <= i < j < files.len() ==> files[i].0 != files[j].0
}

/// The path text held by an optional borrowed path, as a value.
pub open spec fn opt_path_view(p: Option<&String>) -> Option<Seq<char>> {
    match p {
        Some(s) => Some(s@),
        None => None,
    }
}

/// A lookup finds a file exactly when some entry has that kind, and then the
/// file is the path of such an entry.
pub proof fn lemma_lookup_kind(files: Seq<(FileKind, Seq<char>)>, kind: FileKind)
    ensures
        lookup_kind(files, kind) is None <==> forall|i: int| 0 <= i < files.len() ==> files[i].0 != kind,
        lookup_kind(files, kind) matches Some(p) ==> exists|i: int| 0 <= i < files.len() && files[i] == (kind, p),
    decreases files.len(),
{
    if files.len() > 0 && files[0].0 != kind {
        lemma_lookup_kind(files.drop_first(), kind);
        assert forall|i: int| 0 <= i < files.len() && files[i].0 == kind implies
            files.drop_first()[i - 1].0 == kind by {}
        if let Some(p) = lookup_kind(files, kind) {
            let j = choose|j: int| 0 <= j < files.drop_first().len() && files.drop_first()[j] == (kind, p);
            assert(files[j + 1] == (kind, p));
        }
    }
}

/// Appending a file of a kind not yet present makes the lookup of that kind
/// give the new file and leaves every other kind's lookup as it was.
pub proof fn lemma_lookup_kind_push(files: Seq<(FileKind, Seq<char>)>, kind: FileKind, path: Seq<char>, other: FileKind)
    ensures
        lookup_kind(files, kind) is None ==> lookup_kind(files.push((kind, path)), kind) == Some(path),
        other != kind ==> lookup_kind(files.push((kind, path)), other) == lookup_kind(files, other),
    decreases files.len(),
{
    if files.len() > 0 {
        assert(files.push((kind, path)).drop_first() =~= files.drop_first().push((kind, path)));
        assert(files.push((kind, path))[0] == files[0]);
        lemma_lookup_kind_push(files.drop_first(), kind, path, other);
    } else {
        let pushed = files.push((kind, path));
        assert(pushed.drop_first() =~= Seq::<(FileKind, Seq<char>)>::empty());
        assert(lookup_kind(pushed.drop_first(), other) is None);
        assert(pushed[0] == (kind, path));
    }
}

/// A non-empty set of the files that make up one asset. There is no public way
/// to build an empty one, and a kind is never recorded twice.
#[derive(Debug)]
pub struct AssetFiles {
    files: Vec<(FileKind, String)>,
}

impl View for AssetFiles {
    type V = Seq<(FileKind, Seq<char>)>;

    closed spec fn view(&self) -> Seq<(FileKind, Seq<char>)> {
        self.files@.map_values(|e: (FileKind, String)| (e.0, e.1@))
    }
}

impl AssetFiles {
    /// Every file list has at least one file and no kind twice.
    #[verifier::type_invariant]
    spec fn inv(&self) -> bool {
        files_wf(self@)
    }

    /// Well-formedness: at least one file and no kind twice.
    pub open spec fn wf(&self) -> bool {
        files_wf(self@)
    }

    /// The file recorded for `kind`, as a value.
    pub open spec fn spec_get(&self, kind: FileKind) -> Option<Seq<char>> {
        lookup_kind(self@, kind)
    }

    /// The file list of one file.
    pub fn new(kind: FileKind, path: String) -> (r: AssetFiles)
        ensures
            r@ == seq![(kind, path@)],
            r.wf(),
    {
        let mut files: Vec<(FileKind, String)> = Vec::new();
        files.push((kind, path));
        let r = AssetFiles { files };
        assert(r@ =~= seq![(kind, path@)]);
        r
    }

    /// The number of files.
    pub fn len(&self) -> (n: usize)
        ensures
            n == self@.len(),
    {
        self.files.len()
    }

    /// The `i`-th file, with its kind.
    pub fn entry(&self, i: usize) -> (r: (FileKind, &String))
        requires
            i < self@.len(),
        ensures
            r.0 == self@[i as int].0,
            r.1@ == self@[i as int].1,
    {
        let e = &self.files[i];
        (e.0, &e.1)
    }

    /// Records `path` as the file of `kind`. A kind that is already present is
    /// never overwritten: the new path is handed back as the error and the
    /// files are unchanged.
    pub fn insert(&mut self, kind: FileKind, path: String) -> (r: Result<(), String>)
        ensures
            old(self).wf(),
            final(self).wf(),
            match r {
                Ok(()) => {
                    &&& old(self).spec_get(kind) is None
                    &&& final(self)@ == old(self)@.push((kind, path@))
                },
                Err(displaced) => {
                    &&& old(self).spec_get(kind) is Some
                    &&& displaced == path
                    &&& final(self)@ == old(self)@
                },
            },
    {
        proof {
            use_type_invariant(&*self);
        }
        let found = self.get(kind);
        if found.is_some() {
            return Err(path);
        }
        proof {
            lemma_lookup_kind(self@, kind);
        }
        let ghost old_view = self@;
        let mut files: Vec<(FileKind, String)> = Vec::new();
        let n = self.files.len();
        let mut i: usize = 0;
        while i < n
            invariant
                n == self.files@.len(),
                old_view == self@,
                0 <= i <= n,
                files@.map_values(|e: (FileKind, String)| (e.0, e.1@)) =~= old_view.take(i as int),
            decreases n - i,
        {
            let e = &self.files[i];
            files.push((e.0, e.1.clone()));
            assert(old_view.take(i + 1) =~= old_view.take(i as int).push(old_view[i as int]));
            i += 1;
        }
        assert(old_view.take(n as int) =~= old_view);
        let ghost before_push = files@;
        files.push((kind, path));
        assert(files@ =~= before_push.push((kind, path)));
        assert(files@.map_values(|e: (FileKind, String)| (e.0, e.1@)) =~= old_view.push((kind, path@)));
        assert forall|a: int, b: int| 0 <= a < b < old_view.push((kind, path@)).len() implies
            old_view.push((kind, path@))[a].0 != old_view.push((kind, path@))[b].0 by {
            if b == old_view.len() {
                assert(old_view.push((kind, path@))[a] == old_view[a]);
            } else {
                assert(old_view.push((kind, path@))[a] == old_view[a]);
                assert(old_view.push((kind, path@))[b] == old_view[b]);
            }
        }
        self.files = files;
        Ok(())
    }

    /// The file of `kind`, if the asset has one.
    pub fn get(&self, kind: FileKind) -> (r: Option<&String>)
        ensures
            opt_path_view(r) == self.spec_get(kind),
    {
        let n = self.files.len();
        let mut i: usize = 0;
        assert(self@.skip(0) =~= self@);
        while i < n
            invariant
                n == self.files@.len(),
                0 <= i <= n,
                lookup_kind(self@, kind) == lookup_kind(self@.skip(i as int), kind),
            decreases n - i,
        {
            let e = &self.files[i];
            assert(self@.skip(i as int)[0] == (e.0, e.1@));
            if e.0 == kind {
                return Some(&e.1);
            }
            assert(self@.skip(i as int).drop_first() =~= self@.skip(i + 1));
            i += 1;
        }
        None
    }

    /// The file the asset is best represented by: its RAW, else its JPEG.
    pub fn get_prioritized(&self) -> (r: (FileKind, &String))
        ensures
            match self.spec_get(FileKind::Raw) {
                Some(p) => r.0 == FileKind::Raw && r.1@ == p,
                None => r.0 == FileKind::Jpeg && Some(r.1@) == self.spec_get(FileKind::Jpeg),
            },
    {
        proof {
            use_type_invariant(self);
        }
        if let Some(path) = self.get(FileKind::Raw) {
            return (FileKind::Raw, path);
        }
        proof {
            law_some_file_present(self@);
        }
        match self.get(FileKind::Jpeg) {
            Some(path) => (FileKind::Jpeg, path),
            None => {
                proof {
                    assert(false);
                }
                (FileKind::Jpeg, &self.files[0].1)
            },
        }
    }

    /// The file the metadata pass reads and the preview is taken from: the
    /// JPEG, else the RAW. A RAW-only asset is the one read from its RAW.
    pub fn get_jpeg_first(&self) -> (r: (FileKind, &String))
        ensures
            (r.0, r.1@) == spec_jpeg_first(self@),
    {
        proof {
            use_type_invariant(self);
            law_some_file_present(self@);
        }
        if let Some(path) = self.get(FileKind::Jpeg) {
            return (FileKind::Jpeg, path);
        }
        match self.get(FileKind::Raw) {
            Some(path) => (FileKind::Raw, path),
            None => {
                proof {
                    assert(false);
                }
                (FileKind::Raw, &self.files[0].1)
            },
        }
    }
}

/// The file an asset's metadata and preview come from: its JPEG, else its
/// RAW.
pub open spec fn spec_jpeg_first(files: Seq<(FileKind, Seq<char>)>) -> (FileKind, Seq<char>) {
    match lookup_kind(files, FileKind::Jpeg) {
        Some(p) => (FileKind::Jpeg, p),
        None => (FileKind::Raw, lookup_kind(files, FileKind::Raw)->0),
    }
}

/// A well-formed file list always has a RAW or a JPEG.
pub proof fn law_some_file_present(files: Seq<(FileKind, Seq<char>)>)
    requires
        files_wf(files),
    ensures
        lookup_kind(files, FileKind::Raw) is Some || lookup_kind(files, FileKind::Jpeg) is Some,
{
    lemma_lookup_kind(files, FileKind::Raw);
    lemma_lookup_kind(files, FileKind::Jpeg);
    assert(files[0].0 == FileKind::Raw || files[0].0 == FileKind::Jpeg);
}

/// Recording a file of a kind the asset lacks makes that file the one found
/// for its kind, and changes nothing found for the other kind.
pub proof fn law_insert_then_get(files: Seq<(FileKind, Seq<char>)>, kind: FileKind, path: Seq<char>, other: FileKind)
    requires
        lookup_kind(files, kind) is None,
    ensures
        lookup_kind(files.push((kind, path)), kind) == Some(path),
        other != kind ==> lookup_kind(files.push((kind, path)), other) == lookup_kind(files, other),
{
    lemma_lookup_kind_push(files, kind, path, other);
}

/// The triage decision of the user on an asset.
#[derive(Debug, Clone, Copy, PartialEq, Eq, Structural)]
pub enum TriageState {
    Pending,
    Accepted,
    Rejected,
}

/// Where the full-size embedded preview lives inside its file, as a byte range
/// (not the bytes themselves). The offset is relative to the start of the file
/// the EXIF container was read from.
#[derive(Debug, Clone, Copy, PartialEq, Eq, Structural)]
pub struct PreviewStrip {
    pub offset: u64,
    pub len: usize,
}

/// The images generated for an asset, and the errors met on the way.
#[derive(Debug)]
pub struct ImageData {
    pub preview: Option<Vec<u8>>,
    pub thumb: Option<Vec<u8>>,
    pub full: Option<Vec<u8>>,
    pub errors: Option<Vec<String>>,
}

/// Everything taken from one EXIF parse: cheap metadata only, with a
/// reference to the full-size preview rather than its bytes.
#[derive(Debug, Clone)]
pub struct ExifAssetData {
    pub captured_at: Option<CaptureTime>,
    pub thumbnail: Option<Vec<u8>>,
    pub embedded_preview_file_location: Option<PreviewStrip>,
}

impl View for ExifAssetData {
    type V = (Option<CaptureTime>, Option<Seq<u8>>, Option<PreviewStrip>);

    open spec fn view(&self) -> (Option<CaptureTime>, Option<Seq<u8>>, Option<PreviewStrip>) {
        (
            self.captured_at,
            match self.thumbnail {
                Some(t) => Some(t@),
                None => None,
            },
            self.embedded_preview_file_location,
        )
    }
}

impl ExifAssetData {
    /// The data of an asset no EXIF has been read for.
    pub open spec fn spec_empty(self) -> bool {
        &&& self.captured_at is None
        &&& self.thumbnail is None
        &&& self.embedded_preview_file_location is None
    }
}

impl ImageData {
    /// The image data of an asset nothing has been generated for.
    pub open spec fn spec_empty(self) -> bool {
        &&& self.preview is None
        &&& self.thumb is None
        &&& self.full is None
        &&& self.errors is None
    }
}

/// One photo: its files, its triage state and rating, and what was read and
/// generated for it.
#[derive(Debug)]
pub struct PhotoAsset {
    pub files: AssetFiles,
    pub state: TriageState,
    pub rating: u8,
    pub exif_data: ExifAssetData,
    pub image_data: ImageData,
}

impl PhotoAsset {
    /// The asset with nothing read yet: the files hold the one file given.
    pub open spec fn spec_fresh(self, kind: FileKind, path: Seq<char>) -> bool {
        &&& self.files@ == seq![(kind, path)]
        &&& self.state == TriageState::Pending
        &&& self.rating == 0
        &&& self.exif_data.spec_empty()
        &&& self.image_data.spec_empty()
    }

    /// A new pending, unrated asset made of one file.
    pub fn new(kind: FileKind, path: String) -> (r: PhotoAsset)
        ensures
            r.spec_fresh(kind, path@),
            r.files.wf(),
    {
        PhotoAsset {
            files: AssetFiles::new(kind, path),
            state: TriageState::Pending,
            rating: 0,
            exif_data: ExifAssetData { captured_at: None, thumbnail: None, embedded_preview_file_location: None },
            image_data: ImageData { preview: None, thumb: None, full: None, errors: None },
        }
    }
}

/// The law of the metadata file: an asset with a JPEG is read from its JPEG,
/// whether or not it has a RAW; an asset without one is read from its RAW.
pub proof fn law_jpeg_first(files: Seq<(FileKind, Seq<char>)>)
    requires
        files_wf(files),
    ensures
        lookup_kind(files, FileKind::Jpeg) matches Some(p) ==> spec_jpeg_first(files) == (FileKind::Jpeg, p),
        lookup_kind(files, FileKind::Jpeg) is None ==> (lookup_kind(files, FileKind::Raw) matches Some(p)
            && spec_jpeg_first(files) == (FileKind::Raw, p)),
{
    law_some_file_present(files);
}

} // verus!
