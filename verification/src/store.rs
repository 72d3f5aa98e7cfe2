//! The asset store: the assets of a scan, each under its key.
use vstd::prelude::*;

use crate::asset::{files_wf, spec_jpeg_first, AssetKey, ExifAssetData, FileKind, ImageData, PhotoAsset};
use crate::engine::{IngestMessage, WorkItem};

verus! {

/// The value of an asset key: directory text and stem text.
pub type KeyView = (Seq<char>, Seq<char>);

/// The value of a file list: each file's kind and path text.
pub type FilesView = Seq<(FileKind, Seq<char>)>;

/// The position of the asset with key `k`, if there is one.
pub open spec fn key_index<A>(s: Seq<(KeyView, A)>, k: KeyView) -> Option<int> {
    if exists|i: int| 0 <= i < s.len() && s[i].0 == k {
        Some(choose|i: int| 0 <= i < s.len() && s[i].0 == k)
    } else {
        None
    }
}

/// No key occurs twice.
pub open spec fn keys_distinct<A>(s: Seq<(KeyView, A)>) -> bool {
    forall|i: int, j: int| 0 <= i < j < s.len() ==> s[i].0 != s[j].0
}

/// The assets of a scan, each with its key.
#[derive(Debug)]
pub struct AssetMap {
    entries: Vec<(AssetKey, PhotoAsset)>,
}

/// The keyed assets held by a list of stored entries.
pub open spec fn entries_view(s: Seq<(AssetKey, PhotoAsset)>) -> Seq<(KeyView, PhotoAsset)> {
    s.map_values(|e: (AssetKey, PhotoAsset)| (e.0@, e.1))
}

impl View for AssetMap {
    type V = Seq<(KeyView, PhotoAsset)>;

    closed spec fn view(&self) -> Seq<(KeyView, PhotoAsset)> {
        entries_view(self.entries@)
    }
}

/// A well-formed asset map: no key twice, and every file list well-formed.
pub open spec fn map_wf(s: Seq<(KeyView, PhotoAsset)>) -> bool {
    &&& keys_distinct(s)
    &&& forall|i: int| 0 <= i < s.len() ==> files_wf(#[trigger] s[i].1.files@)
}

impl AssetMap {
    /// No key twice, and every file list well-formed.
    pub open spec fn wf(&self) -> bool {
        map_wf(self@)
    }
}

/// The keys and file lists of a sequence of assets.
pub open spec fn files_of(s: Seq<(KeyView, PhotoAsset)>) -> Seq<(KeyView, FilesView)> {
    s.map_values(|e: (KeyView, PhotoAsset)| (e.0, e.1.files@))
}

/// The first position of a key among stored entries, if any.
pub(crate) fn find_key(entries: &Vec<(AssetKey, PhotoAsset)>, key: &AssetKey) -> (r: Option<usize>)
    ensures
        match r {
            Some(i) => i < entries@.len() && entries@[i as int].0@ == key@ && forall|j: int|
                0 <= j < i ==> entries@[j].0@ != key@,
            None => forall|i: int| 0 <= i < entries@.len() ==> entries@[i].0@ != key@,
        },
{
    let n = entries.len();
    let mut i: usize = 0;
    while i < n
        invariant
            n == entries@.len(),
            0 <= i <= n,
            forall|j: int| 0 <= j < i ==> entries@[j].0@ != key@,
        decreases n - i,
    {
        if entries[i].0.same_as(key) {
            return Some(i);
        }
        i += 1;
    }
    None
}

impl AssetMap {
    /// The map holding the given entries.
    pub(crate) fn from_entries(entries: Vec<(AssetKey, PhotoAsset)>) -> (r: AssetMap)
        ensures
            r@ == entries_view(entries@),
    {
        AssetMap { entries }
    }

    /// The map without assets.
    pub fn new() -> (r: AssetMap)
        ensures
            r@ == Seq::<(KeyView, PhotoAsset)>::empty(),
    {
        let r = AssetMap { entries: Vec::new() };
        assert(r@ =~= Seq::<(KeyView, PhotoAsset)>::empty());
        r
    }

    /// The number of assets.
    pub fn len(&self) -> (n: usize)
        ensures
            n == self@.len(),
    {
        self.entries.len()
    }

    /// The key of the `i`-th asset.
    pub fn key_at(&self, i: usize) -> (r: &AssetKey)
        requires
            i < self@.len(),
        ensures
            r@ == self@[i as int].0,
    {
        &self.entries[i].0
    }

    /// The `i`-th asset.
    pub fn asset_at(&self, i: usize) -> (r: &PhotoAsset)
        requires
            i < self@.len(),
        ensures
            *r == self@[i as int].1,
    {
        &self.entries[i].1
    }

    /// The position of the asset with `key`, if any.
    pub fn position(&self, key: &AssetKey) -> (r: Option<usize>)
        ensures
            match r {
                Some(i) => i < self@.len() && self@[i as int].0 == key@,
                None => forall|i: int| 0 <= i < self@.len() ==> self@[i].0 != key@,
            },
    {
        find_key(&self.entries, key)
    }

    /// The assets, in order, without their keys.
    pub fn into_values(self) -> (r: Vec<PhotoAsset>)
        ensures
            r@ == self@.map_values(|e: (KeyView, PhotoAsset)| e.1),
    {
        let ghost view = self@;
        let mut entries = self.entries;
        let mut rev: Vec<PhotoAsset> = Vec::new();
        let n = entries.len();
        while entries.len() > 0
            invariant
                entries@.len() + rev@.len() == n,
                n == view.len(),
                forall|j: int| 0 <= j < entries@.len() ==> (entries@[j].0@, entries@[j].1) == view[j],
                forall|j: int| 0 <= j < rev@.len() ==> rev@[j] == view[n - 1 - j].1,
            decreases entries@.len(),
        {
            let (_, a) = entries.pop().unwrap();
            rev.push(a);
        }
        let mut out: Vec<PhotoAsset> = Vec::new();
        while rev.len() > 0
            invariant
                rev@.len() + out@.len() == n,
                n == view.len(),
                forall|j: int| 0 <= j < rev@.len() ==> rev@[j] == view[n - 1 - j].1,
                forall|j: int| 0 <= j < out@.len() ==> out@[j] == view[j].1,
            decreases rev@.len(),
        {
            let a = rev.pop().unwrap();
            out.push(a);
        }
        assert(out@ =~= view.map_values(|e: (KeyView, PhotoAsset)| e.1));
        out
    }

    /// Replaces the EXIF data of the `i`-th asset.
    pub fn set_exif_data(&mut self, i: usize, data: ExifAssetData)
        requires
            i < old(self)@.len(),
        ensures
            final(self)@ == old(self)@.update(
                i as int,
                (old(self)@[i as int].0, (PhotoAsset { exif_data: data, ..old(self)@[i as int].1 })),
            ),
    {
        let ghost before = self@;
        self.entries[i].1.exif_data = data;
        assert(self@ =~= before.update(i as int, (before[i as int].0, (PhotoAsset { exif_data: data, ..before[i as int].1 }))));
    }

    /// The asset with `key`, if any.
    pub fn get(&self, key: &AssetKey) -> (r: Option<&PhotoAsset>)
        ensures
            match r {
                Some(a) => exists|i: int| 0 <= i < self@.len() && self@[i].0 == key@ && self@[i].1 == *a,
                None => forall|i: int| 0 <= i < self@.len() ==> self@[i].0 != key@,
            },
    {
        match find_key(&self.entries, key) {
            Some(i) => {
                assert(self@[i as int].1 == self.entries@[i as int].1);
                Some(&self.entries[i].1)
            },
            None => None,
        }
    }
}


/// The texts of an optional error list; no list holds no text.
pub open spec fn error_texts(errors: Option<Vec<String>>) -> Seq<Seq<char>> {
    match errors {
        Some(v) => v@.map_values(|s: String| s@),
        None => Seq::empty(),
    }
}

/// Appends an error to an optional list, making the list when there is none.
fn push_error(errors: &mut Option<Vec<String>>, e: String)
    ensures
        *final(errors) is Some,
        error_texts(*final(errors)) == error_texts(*old(errors)).push(e@),
{
    let mut list = match errors.take() {
        Some(v) => v,
        None => Vec::new(),
    };
    let ghost before = list@;
    list.push(e);
    assert(list@.map_values(|s: String| s@) =~= before.map_values(|s: String| s@).push(e@));
    *errors = Some(list);
}

/// Records generated images in an asset's image data: each image that was
/// generated is kept, and each that was not adds an error. Returns whether
/// neither was generated.
fn record_images(img: &mut ImageData, thumb: Option<Vec<u8>>, preview: Option<Vec<u8>>) -> (error: bool)
    ensures
        error == (thumb is None && preview is None),
        final(img).full == old(img).full,
        final(img).thumb == spec_record_image(thumb, old(img).thumb),
        final(img).preview == spec_record_image(preview, old(img).preview),
        (thumb is Some && preview is Some) ==> final(img).errors == old(img).errors,
        (thumb is None || preview is None) ==> final(img).errors is Some,
        error_texts(final(img).errors) == error_texts(old(img).errors)
            + (if thumb is None { seq![thumbnail_error_text()] } else { Seq::empty() })
            + (if preview is None { seq![preview_error_text()] } else { Seq::empty() }),
{
    let error = thumb.is_none() && preview.is_none();
    let ghost errors0 = error_texts(img.errors);
    let thumb_missing = thumb.is_none();
    match thumb {
        Some(t) => {
            img.thumb = Some(t);
        },
        None => {
            push_error(&mut img.errors, thumbnail_error());
        },
    }
    let ghost errors1 = error_texts(img.errors);
    assert(errors1 =~= errors0 + (if thumb_missing { seq![thumbnail_error_text()] } else { Seq::empty() }));
    let preview_missing = preview.is_none();
    match preview {
        Some(p) => {
            img.preview = Some(p);
        },
        None => {
            push_error(&mut img.errors, preview_error());
        },
    }
    assert(error_texts(img.errors) =~= errors1 + (if preview_missing {
        seq![preview_error_text()]
    } else {
        Seq::empty()
    }));
    error
}

/// The image data after recording one generated image: the image when there
/// is one, else an error naming what failed.
pub open spec fn spec_record_image(image: Option<Vec<u8>>, before: Option<Vec<u8>>) -> Option<Vec<u8>> {
    match image {
        Some(_) => image,
        None => before,
    }
}

impl AssetMap {
    /// The file whose head the metadata pass reads, one per asset in order:
    /// its JPEG, else its RAW. It is the file `work_items` names, so a
    /// preview strip located in that head is an offset into the very file it
    /// is later read from.
    pub fn exif_head_paths(&self) -> (r: Vec<String>)
        ensures
            r@.len() == self@.len(),
            forall|i: int| 0 <= i < r@.len() ==> (#[trigger] r@[i])@ == spec_jpeg_first(self@[i].1.files@).1,
    {
        let mut paths: Vec<String> = Vec::new();
        let n = self.entries.len();
        let mut i: usize = 0;
        while i < n
            invariant
                n == self@.len(),
                0 <= i <= n,
                paths@.len() == i,
                forall|j: int| 0 <= j < i ==> (#[trigger] paths@[j])@ == spec_jpeg_first(self@[j].1.files@).1,
            decreases n - i,
        {
            let entry = &self.entries[i];
            assert(self@[i as int] == (entry.0@, entry.1));
            let (_, path) = entry.1.files.get_jpeg_first();
            paths.push(path.clone());
            i += 1;
        }
        paths
    }

    /// The work of the preview stage, one item per asset in order: its key,
    /// the file its metadata was read from (its JPEG, else its RAW), and the
    /// embedded preview strip located there. A RAW-only asset is read
    /// through its strip; an asset with a JPEG is read from the JPEG.
    pub fn work_items(&self) -> (r: Vec<WorkItem>)
        ensures
            r@.len() == self@.len(),
            forall|i: int| 0 <= i < r@.len() ==> {
                let (w, a) = (#[trigger] r@[i], self@[i]);
                &&& w.key@ == a.0
                &&& (w.kind, w.path@) == spec_jpeg_first(a.1.files@)
                &&& w.strip == a.1.exif_data.embedded_preview_file_location
            },
    {
        let mut items: Vec<WorkItem> = Vec::new();
        let n = self.entries.len();
        let mut i: usize = 0;
        while i < n
            invariant
                n == self@.len(),
                0 <= i <= n,
                items@.len() == i,
                forall|j: int| 0 <= j < i ==> {
                    let (w, a) = (#[trigger] items@[j], self@[j]);
                    &&& w.key@ == a.0
                    &&& (w.kind, w.path@) == spec_jpeg_first(a.1.files@)
                    &&& w.strip == a.1.exif_data.embedded_preview_file_location
                },
            decreases n - i,
        {
            let entry = &self.entries[i];
            assert(self@[i as int] == (entry.0@, entry.1));
            let (kind, path) = entry.1.files.get_jpeg_first();
            items.push(WorkItem {
                key: entry.0.duplicate(),
                kind,
                path: path.clone(),
                strip: entry.1.exif_data.embedded_preview_file_location,
            });
            i += 1;
        }
        items
    }

    /// Records that the source bytes of the asset with `key` could not be
    /// read: the error joins the asset's errors and the message reports an
    /// error. `None`, and nothing changed, when no asset has the key.
    pub fn record_read_failure(&mut self, key: &AssetKey, error: String) -> (r: Option<IngestMessage>)
        ensures
            match find_position(old(self)@, key@) {
                None => r is None && final(self)@ == old(self)@,
                Some(i) => {
                    let (b, a) = (old(self)@[i].1, final(self)@[i].1);
                    &&& r matches Some(m) && m.key@ == key@ && m.error
                    &&& final(self)@.len() == old(self)@.len()
                    &&& forall|j: int| 0 <= j < old(self)@.len() && j != i ==> final(self)@[j] == old(self)@[j]
                    &&& final(self)@[i].0 == old(self)@[i].0
                    &&& a.files == b.files && a.state == b.state && a.rating == b.rating && a.exif_data == b.exif_data
                    &&& a.image_data.preview == b.image_data.preview
                    &&& a.image_data.thumb == b.image_data.thumb
                    &&& a.image_data.full == b.image_data.full
                    &&& a.image_data.errors is Some
                    &&& error_texts(a.image_data.errors) == error_texts(b.image_data.errors).push(error@)
                },
            },
    {
        let i = match find_key(&self.entries, key) {
            Some(i) => i,
            None => return None,
        };
        proof {
            lemma_find_position(self@, key@, i as int);
        }
        let ghost before = self@;
        push_error(&mut self.entries[i].1.image_data.errors, error);
        assert forall|j: int| 0 <= j < before.len() && j != i implies self@[j] == before[j] by {}
        Some(IngestMessage { key: key.duplicate(), error: true })
    }

    /// Records the images generated for the asset with `key`: each image
    /// that was generated is kept, and each that was not adds an error. The
    /// message reports an error only when neither image was generated.
    /// `None`, and nothing changed, when no asset has the key.
    pub fn record_previews(&mut self, key: &AssetKey, thumb: Option<Vec<u8>>, preview: Option<Vec<u8>>) -> (r: Option<IngestMessage>)
        ensures
            match find_position(old(self)@, key@) {
                None => r is None && final(self)@ == old(self)@,
                Some(i) => {
                    let (b, a) = (old(self)@[i].1, final(self)@[i].1);
                    &&& r matches Some(m) && m.key@ == key@ && m.error == (thumb is None && preview is None)
                    &&& final(self)@.len() == old(self)@.len()
                    &&& forall|j: int| 0 <= j < old(self)@.len() && j != i ==> final(self)@[j] == old(self)@[j]
                    &&& final(self)@[i].0 == old(self)@[i].0
                    &&& a.files == b.files && a.state == b.state && a.rating == b.rating && a.exif_data == b.exif_data
                    &&& a.image_data.full == b.image_data.full
                    &&& a.image_data.thumb == spec_record_image(thumb, b.image_data.thumb)
                    &&& a.image_data.preview == spec_record_image(preview, b.image_data.preview)
                    &&& (thumb is Some && preview is Some) ==> a.image_data.errors == b.image_data.errors
                    &&& (thumb is None || preview is None) ==> a.image_data.errors is Some
                    &&& error_texts(a.image_data.errors) == error_texts(b.image_data.errors)
                        + (if thumb is None { seq![thumbnail_error_text()] } else { Seq::empty() })
                        + (if preview is None { seq![preview_error_text()] } else { Seq::empty() })
                },
            },
    {
        let i = match find_key(&self.entries, key) {
            Some(i) => i,
            None => return None,
        };
        proof {
            lemma_find_position(self@, key@, i as int);
        }
        let ghost before = self@;
        let error = record_images(&mut self.entries[i].1.image_data, thumb, preview);
        assert forall|j: int| 0 <= j < before.len() && j != i implies self@[j] == before[j] by {}
        Some(IngestMessage { key: key.duplicate(), error })
    }
}

/// The first position of a key among the assets, if any.
pub open spec fn find_position(s: Seq<(KeyView, PhotoAsset)>, k: KeyView) -> Option<int> {
    if exists|i: int| 0 <= i < s.len() && s[i].0 == k {
        Some(choose|i: int| 0 <= i < s.len() && s[i].0 == k && forall|j: int| 0 <= j < i ==> s[j].0 != k)
    } else {
        None
    }
}

/// The first position found by a scan from the front is the one named.
proof fn lemma_find_position(s: Seq<(KeyView, PhotoAsset)>, k: KeyView, i: int)
    requires
        0 <= i < s.len(),
        s[i].0 == k,
        forall|j: int| 0 <= j < i ==> s[j].0 != k,
    ensures
        find_position(s, k) == Some(i),
{
    let c = choose|c: int| 0 <= c < s.len() && s[c].0 == k && forall|j: int| 0 <= j < c ==> s[j].0 != k;
    assert(0 <= c < s.len() && s[c].0 == k && forall|j: int| 0 <= j < c ==> s[j].0 != k);
    if c < i {
        assert(s[c].0 != k);
    } else if c > i {
        assert(s[i].0 != k);
    }
}

/// The error text recorded when no thumbnail could be generated.
pub open spec fn thumbnail_error_text() -> Seq<char> {
    seq!['e', 'r', 'r', 'o', 'r', ' ', 'g', 'e', 'n', 'e', 'r', 'a', 't', 'i', 'n', 'g', ' ', 't', 'h', 'u', 'm', 'b', 'n', 'a', 'i', 'l']
}

/// The error text recorded when no preview could be generated.
pub open spec fn preview_error_text() -> Seq<char> {
    seq!['e', 'r', 'r', 'o', 'r', ' ', 'g', 'e', 'n', 'e', 'r', 'a', 't', 'i', 'n', 'g', ' ', 'p', 'r', 'e', 'v', 'i', 'e', 'w']
}

/// The error recorded when no thumbnail could be generated.
fn thumbnail_error() -> (r: String)
    ensures
        r@ == thumbnail_error_text(),
{
    proof {
        reveal_strlit("error generating thumbnail");
    }
    let r = "error generating thumbnail".to_string();
    assert(r@ =~= thumbnail_error_text());
    r
}

/// The error recorded when no preview could be generated.
fn preview_error() -> (r: String)
    ensures
        r@ == preview_error_text(),
{
    proof {
        reveal_strlit("error generating preview");
    }
    let r = "error generating preview".to_string();
    assert(r@ =~= preview_error_text());
    r
}

} // verus!
