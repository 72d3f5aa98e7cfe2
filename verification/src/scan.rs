//! Source-card enumeration: pair the files a directory walk found into
//! assets. Batch anomalies (duplicate-kind collisions, walk errors) are data
//! collected and returned, never errors that abort the scan.
use vstd::prelude::*;

use crate::asset::{files_wf, lookup_kind, AssetKey, FileKind, PhotoAsset};
use crate::store::{
    entries_view, files_of, find_key, key_index, keys_distinct, map_wf, AssetMap,
    FilesView, KeyView,
};
use crate::path::{
    lowercase, path_extension, path_file_stem, path_parent, same_text, spec_extension,
    spec_file_stem, spec_lowercase, spec_parent,
};

verus! {

/// An error the directory walk met.
#[verifier::external_type_specification]
#[verifier::external_body]
pub struct ExWalkError(walkdir::Error);

/// The value of a collision: key, kind, kept path, displaced path.
pub type CollisionView = (KeyView, FileKind, Seq<char>, Seq<char>);

/// The kind a lowercased extension stands for: `cr2` is a RAW, `jpg` and
/// `jpeg` are JPEGs, anything else is not a photo file.
pub open spec fn spec_classify(ext: Seq<char>) -> Option<FileKind> {
    if ext == seq!['c', 'r', '2'] {
        Some(FileKind::Raw)
    } else if ext == seq!['j', 'p', 'g'] || ext == seq!['j', 'p', 'e', 'g'] {
        Some(FileKind::Jpeg)
    } else {
        None
    }
}

/// The kind of file an extension stands for, in any letter case.
pub fn classify(extension: &str) -> (r: Option<FileKind>)
    ensures
        r == spec_classify(spec_lowercase(extension@)),
{
    let ext = lowercase(extension);
    proof {
        reveal_strlit("cr2");
        reveal_strlit("jpg");
        reveal_strlit("jpeg");
        assert("cr2"@ =~= seq!['c', 'r', '2']);
        assert("jpg"@ =~= seq!['j', 'p', 'g']);
        assert("jpeg"@ =~= seq!['j', 'p', 'e', 'g']);
    }
    if same_text(ext.as_str(), "cr2") {
        Some(FileKind::Raw)
    } else if same_text(ext.as_str(), "jpg") || same_text(ext.as_str(), "jpeg") {
        Some(FileKind::Jpeg)
    } else {
        None
    }
}

/// The asset key and file kind of a path found by the walk: its parent
/// directory and lowercased stem, and the kind its extension stands for.
/// `None` for a path that is not a photo file.
pub open spec fn spec_entry_key(path: Seq<char>) -> Option<(KeyView, FileKind)> {
    match spec_extension(path) {
        None => None,
        Some(ext) => match spec_classify(spec_lowercase(ext)) {
            None => None,
            Some(kind) => match spec_parent(path) {
                None => None,
                Some(dir) => match spec_file_stem(path) {
                    None => None,
                    Some(stem) => Some(((dir, spec_lowercase(stem)), kind)),
                },
            },
        },
    }
}

/// The asset key and kind of a path found by the walk, or `None` when the
/// path is not a photo file.
pub fn entry_key(path: &str) -> (r: Option<(AssetKey, FileKind)>)
    ensures
        match r {
            Some((key, kind)) => spec_entry_key(path@) == Some((key@, kind)),
            None => spec_entry_key(path@) is None,
        },
{
    let ext = path_extension(path)?;
    let kind = classify(ext.as_str())?;
    let dir = path_parent(path)?;
    let stem = path_file_stem(path)?;
    let stem = lowercase(stem.as_str());
    Some((AssetKey { dir, stem }, kind))
}

/// The state of a scan: the assets found so far, each with its files, and the
/// collisions met.
pub type ScanState = (Seq<(KeyView, FilesView)>, Seq<CollisionView>);

/// One path of the walk applied to the scan state. A path that is not a photo
/// file changes nothing. A path of a new key starts an asset. A path of a
/// kind the asset lacks joins it. A path of a kind the asset already has is
/// not stored: it is recorded as displaced by the file kept.
pub open spec fn scan_step(st: ScanState, path: Seq<char>) -> ScanState {
    match spec_entry_key(path) {
        None => st,
        Some((key, kind)) => match key_index(st.0, key) {
            None => (st.0.push((key, seq![(kind, path)])), st.1),
            Some(i) => match lookup_kind(st.0[i].1, kind) {
                None => (st.0.update(i, (key, st.0[i].1.push((kind, path)))), st.1),
                Some(kept) => (st.0, st.1.push((key, kind, kept, path))),
            },
        },
    }
}

/// The scan state after the paths, in walk order.
pub open spec fn scan_spec(paths: Seq<Seq<char>>) -> ScanState
    decreases paths.len(),
{
    if paths.len() == 0 {
        (Seq::empty(), Seq::empty())
    } else {
        scan_step(scan_spec(paths.drop_last()), paths.last())
    }
}

/// One entry the directory walk found: its path, and whether it is a file
/// (not a directory or anything else).
#[derive(Debug, Clone)]
pub struct WalkEntry {
    pub path: String,
    pub is_file: bool,
}

/// The paths of the walk entries that are files, in order. Errors and
/// entries that are not files (directories among them, whatever their name)
/// give no path.
pub open spec fn file_paths(entries: Seq<Result<WalkEntry, walkdir::Error>>) -> Seq<Seq<char>>
    decreases entries.len(),
{
    if entries.len() == 0 {
        Seq::empty()
    } else {
        match entries.last() {
            Ok(w) => if w.is_file {
                file_paths(entries.drop_last()).push(w.path@)
            } else {
                file_paths(entries.drop_last())
            },
            Err(_) => file_paths(entries.drop_last()),
        }
    }
}

/// The errors among the walk entries, in order.
pub open spec fn walk_errors(entries: Seq<Result<WalkEntry, walkdir::Error>>) -> Seq<walkdir::Error>
    decreases entries.len(),
{
    if entries.len() == 0 {
        Seq::empty()
    } else {
        match entries.last() {
            Ok(_) => walk_errors(entries.drop_last()),
            Err(e) => walk_errors(entries.drop_last()).push(e),
        }
    }
}

/// A file that could not be stored because its asset already had a file of
/// that kind.
#[derive(Debug)]
pub struct Collision {
    pub key: AssetKey,
    pub kind: FileKind,
    pub kept: String,
    pub displaced: String,
}

impl View for Collision {
    type V = CollisionView;

    open spec fn view(&self) -> CollisionView {
        (self.key@, self.kind, self.kept@, self.displaced@)
    }
}

/// The views of a list of collisions.
pub open spec fn collisions_of(s: Seq<Collision>) -> Seq<CollisionView> {
    s.map_values(|c: Collision| c@)
}

/// What a scan found: the assets, the collisions and the walk errors.
#[derive(Debug)]
pub struct ScanResponse {
    pub assets: AssetMap,
    pub collisions: Vec<Collision>,
    pub errors: Vec<walkdir::Error>,
}

impl ScanResponse {
    /// The response of a scan that found nothing.
    pub fn empty() -> (r: ScanResponse)
        ensures
            r.assets@.len() == 0,
            r.collisions@.len() == 0,
            r.errors@.len() == 0,
    {
        ScanResponse { assets: AssetMap::new(), collisions: Vec::new(), errors: Vec::new() }
    }
}

/// Every asset is pending, unrated, and has nothing read or generated yet.
pub open spec fn all_fresh(s: Seq<(KeyView, PhotoAsset)>) -> bool {
    forall|i: int| 0 <= i < s.len() ==> {
        let a = #[trigger] s[i].1;
        &&& a.state == crate::asset::TriageState::Pending
        &&& a.rating == 0
        &&& a.exif_data.spec_empty()
        &&& a.image_data.spec_empty()
    }
}

/// Adding a fresh asset of a new key keeps a map fresh and well-formed.
proof fn lemma_push_fresh(s: Seq<(KeyView, PhotoAsset)>, e: (KeyView, PhotoAsset))
    requires
        all_fresh(s),
        map_wf(s),
        forall|i: int| 0 <= i < s.len() ==> s[i].0 != e.0,
        e.1.state == crate::asset::TriageState::Pending,
        e.1.rating == 0,
        e.1.exif_data.spec_empty(),
        e.1.image_data.spec_empty(),
        files_wf(e.1.files@),
    ensures
        all_fresh(s.push(e)),
        map_wf(s.push(e)),
{
    assert forall|i: int| 0 <= i < s.push(e).len() implies files_wf(#[trigger] s.push(e)[i].1.files@) by {
        if i < s.len() {
            assert(s.push(e)[i] == s[i]);
        }
    }
    assert forall|i: int| 0 <= i < s.push(e).len() implies {
        let a = #[trigger] s.push(e)[i].1;
        &&& a.state == crate::asset::TriageState::Pending
        &&& a.rating == 0
        &&& a.exif_data.spec_empty()
        &&& a.image_data.spec_empty()
    } by {
        if i < s.len() {
            assert(s.push(e)[i] == s[i]);
        }
    }
}

/// Changing only the files of one asset, to a well-formed list, keeps a map
/// fresh and well-formed.
proof fn lemma_update_files(s: Seq<(KeyView, PhotoAsset)>, j: int, t: Seq<(KeyView, PhotoAsset)>)
    requires
        all_fresh(s),
        map_wf(s),
        0 <= j < s.len(),
        t.len() == s.len(),
        forall|i: int| 0 <= i < s.len() && i != j ==> t[i] == s[i],
        t[j].0 == s[j].0,
        t[j].1.state == s[j].1.state,
        t[j].1.rating == s[j].1.rating,
        t[j].1.exif_data == s[j].1.exif_data,
        t[j].1.image_data == s[j].1.image_data,
        files_wf(t[j].1.files@),
    ensures
        all_fresh(t),
        map_wf(t),
{
    assert forall|a: int, b: int| 0 <= a < b < t.len() implies t[a].0 != t[b].0 by {
        assert(t[a].0 == s[a].0 && t[b].0 == s[b].0);
    }
    assert forall|i: int| 0 <= i < t.len() implies files_wf(#[trigger] t[i].1.files@) by {
        if i != j {
            assert(t[i] == s[i]);
        }
    }
    assert forall|i: int| 0 <= i < t.len() implies {
        let a = #[trigger] t[i].1;
        &&& a.state == crate::asset::TriageState::Pending
        &&& a.rating == 0
        &&& a.exif_data.spec_empty()
        &&& a.image_data.spec_empty()
    } by {
        if i != j {
            assert(t[i] == s[i]);
        } else {
            assert(s[j].1.state == crate::asset::TriageState::Pending);
        }
    }
}

/// Pairs the entries of a directory walk into assets. Entries that are not
/// files are skipped. Each path of a photo file joins the asset of its
/// directory and lowercased stem; a second file of a kind the asset already
/// has is recorded as a collision, never stored over the first; walk errors
/// are kept in order.
pub fn scan_entries(entries: Vec<Result<WalkEntry, walkdir::Error>>) -> (r: ScanResponse)
    ensures
        (files_of(r.assets@), collisions_of(r.collisions@)) == scan_spec(file_paths(entries@)),
        r.errors@ == walk_errors(entries@),
        all_fresh(r.assets@),
        map_wf(r.assets@),
{
    let ghost orig = entries@;
    let mut entries = entries;
    let mut assets: Vec<(AssetKey, PhotoAsset)> = Vec::new();
    let mut collisions: Vec<Collision> = Vec::new();
    let mut errors: Vec<walkdir::Error> = Vec::new();
    let n = entries.len();
    let mut i: usize = 0;
    while i < n
        invariant
            n == orig.len(),
            entries@.len() == n,
            0 <= i <= n,
            forall|j: int| i <= j < n ==> entries@[j] == orig[j],
            (files_of(entries_view(assets@)), collisions_of(collisions@)) == scan_spec(file_paths(orig.take(i as int))),
            errors@ == walk_errors(orig.take(i as int)),
            all_fresh(entries_view(assets@)),
            map_wf(entries_view(assets@)),
        decreases n - i,
    {
        let mut entry: Result<WalkEntry, walkdir::Error> = Ok(WalkEntry { path: String::new(), is_file: false });
        entries.set_and_swap(i, &mut entry);
        assert(orig.take(i + 1).drop_last() =~= orig.take(i as int));
        assert(orig.take(i + 1).last() == entry);
        match entry {
            Err(e) => {
                errors.push(e);
            },
            Ok(walked) if !walked.is_file => {},
            Ok(walked) => {
                let path = walked.path;
                let ghost st = scan_spec(file_paths(orig.take(i as int)));
                assert(file_paths(orig.take(i + 1)) =~= file_paths(orig.take(i as int)).push(path@));
                assert(file_paths(orig.take(i + 1)).drop_last() =~= file_paths(orig.take(i as int)));
                match entry_key(path.as_str()) {
                    None => {},
                    Some((key, kind)) => {
                        assert(spec_entry_key(path@) == Some((key@, kind)));
                        match find_key(&assets, &key) {
                            None => {
                                let ghost before = assets@;
                                assert(key_index(st.0, key@) is None) by {
                                    if exists|k: int| 0 <= k < st.0.len() && st.0[k].0 == key@ {
                                        let k = choose|k: int| 0 <= k < st.0.len() && st.0[k].0 == key@;
                                        assert(before[k].0@ == key@);
                                    }
                                }
                                let asset = PhotoAsset::new(kind, path);
                                let ghost new_entry = (key@, asset);
                                assets.push((key, asset));
                                assert(entries_view(assets@) =~= entries_view(before).push(new_entry));
                                assert(files_of(entries_view(assets@)) =~= st.0.push((key@, seq![(kind, path@)])));
                                proof {
                                    lemma_push_fresh(entries_view(before), new_entry);
                                }
                            },
                            Some(j) => {
                                assert(key_index(st.0, key@) == Some(j as int)) by {
                                    assert(st.0[j as int].0 == key@);
                                    let k = choose|k: int| 0 <= k < st.0.len() && st.0[k].0 == key@;
                                    assert(k == j);
                                }
                                let ghost before = assets@;
                                let res = assets[j].1.files.insert(kind, path);
                                proof {
                                    lemma_update_files(entries_view(before), j as int, entries_view(assets@));
                                }
                                match res {
                                    Ok(()) => {
                                        assert(files_of(entries_view(assets@)) =~= st.0.update(
                                            j as int,
                                            (key@, st.0[j as int].1.push((kind, path@))),
                                        ));
                                    },
                                    Err(displaced) => {
                                        assert(files_of(entries_view(assets@)) =~= st.0);
                                        match assets[j].1.files.get(kind) {
                                            Some(kept) => {
                                                let c = Collision { key, kind, kept: kept.clone(), displaced };
                                                collisions.push(c);
                                                assert(collisions_of(collisions@) =~= st.1.push(c@));
                                            },
                                            None => {},
                                        }
                                    },
                                }
                            },
                        }
                    },
                }
            },
        }
        i += 1;
    }
    assert(orig.take(n as int) =~= orig);
    ScanResponse { assets: AssetMap::from_entries(assets), collisions, errors }
}

} // verus!

verus! {

/// The file a scan state records for a key and kind, if any.
pub open spec fn stored_file(st: ScanState, k: KeyView, kind: FileKind) -> Option<Seq<char>> {
    match key_index(st.0, k) {
        Some(j) => lookup_kind(st.0[j].1, kind),
        None => None,
    }
}

/// A well-formed scan state: no key twice and no file list malformed.
pub open spec fn state_wf(st: ScanState) -> bool {
    &&& keys_distinct(st.0)
    &&& forall|i: int| 0 <= i < st.0.len() ==> files_wf(#[trigger] st.0[i].1)
}

/// With no key twice, the position of a key is the one entry holding it.
pub proof fn lemma_key_index<A>(s: Seq<(KeyView, A)>, k: KeyView)
    requires
        keys_distinct(s),
    ensures
        key_index(s, k) is None <==> forall|i: int| 0 <= i < s.len() ==> s[i].0 != k,
        forall|i: int| 0 <= i < s.len() && s[i].0 == k ==> key_index(s, k) == Some(i),
{
    if exists|i: int| 0 <= i < s.len() && s[i].0 == k {
        let c = choose|i: int| 0 <= i < s.len() && s[i].0 == k;
        assert forall|i: int| 0 <= i < s.len() && s[i].0 == k implies key_index(s, k) == Some(i) by {
            if i < c {
                assert(s[i].0 != s[c].0);
            } else if i > c {
                assert(s[c].0 != s[i].0);
            }
        }
    }
}

/// One scan step, told by what it does to the recorded files and to the
/// collisions: a photo file is recorded for its key and kind unless a file is
/// recorded there already, in which case it is recorded as displaced by that
/// file. Every other record is left as it was.
pub proof fn lemma_scan_step(st: ScanState, p: Seq<char>)
    requires
        state_wf(st),
    ensures
        state_wf(scan_step(st, p)),
        forall|k: KeyView, kind: FileKind| #[trigger] stored_file(scan_step(st, p), k, kind) == if spec_entry_key(p) == Some((k, kind)) && stored_file(st, k, kind) is None {
            Some(p)
        } else {
            stored_file(st, k, kind)
        },
        scan_step(st, p).1 == match spec_entry_key(p) {
            Some((k, kind)) => match stored_file(st, k, kind) {
                Some(f) => st.1.push((k, kind, f, p)),
                None => st.1,
            },
            None => st.1,
        },
{
    let nst = scan_step(st, p);
    match spec_entry_key(p) {
        None => {},
        Some((key, kind)) => {
            lemma_key_index(st.0, key);
            match key_index(st.0, key) {
                None => {
                    let s2 = st.0.push((key, seq![(kind, p)]));
                    assert(nst.0 == s2);
                    assert forall|a: int, b: int| 0 <= a < b < s2.len() implies s2[a].0 != s2[b].0 by {
                        if b == st.0.len() {
                            assert(s2[a] == st.0[a]);
                        } else {
                            assert(s2[a] == st.0[a] && s2[b] == st.0[b]);
                        }
                    }
                    assert forall|i: int| 0 <= i < s2.len() implies files_wf(#[trigger] s2[i].1) by {
                        if i < st.0.len() {
                            assert(s2[i] == st.0[i]);
                        }
                    }
                    assert forall|k: KeyView, kd: FileKind| #[trigger] stored_file(nst, k, kd) == if spec_entry_key(p) == Some((k, kd)) && stored_file(st, k, kd) is None {
                        Some(p)
                    } else {
                        stored_file(st, k, kd)
                    } by {
                        lemma_key_index(st.0, k);
                        lemma_key_index(s2, k);
                        if k == key {
                            assert(s2[st.0.len() as int].0 == k);
                            assert(key_index(s2, k) == Some(st.0.len() as int));
                            let one: FilesView = seq![(kind, p)];
                            assert(one.drop_first() =~= Seq::<(FileKind, Seq<char>)>::empty());
                            assert(lookup_kind(one.drop_first(), kd) is None);
                        } else {
                            match key_index(st.0, k) {
                                Some(j) => {
                                    assert(s2[j] == st.0[j]);
                                    assert(key_index(s2, k) == Some(j));
                                },
                                None => {
                                    assert forall|i: int| 0 <= i < s2.len() implies s2[i].0 != k by {
                                        if i < st.0.len() {
                                            assert(s2[i] == st.0[i]);
                                        }
                                    }
                                },
                            }
                        }
                    }
                },
                Some(j) => {
                    crate::asset::lemma_lookup_kind(st.0[j].1, kind);
                    match lookup_kind(st.0[j].1, kind) {
                        None => {
                            let f2 = st.0[j].1.push((kind, p));
                            let s2 = st.0.update(j, (key, f2));
                            assert(nst.0 == s2);
                            assert forall|a: int, b: int| 0 <= a < b < f2.len() implies f2[a].0 != f2[b].0 by {
                                if b == st.0[j].1.len() {
                                    assert(f2[a] == st.0[j].1[a]);
                                } else {
                                    assert(f2[a] == st.0[j].1[a] && f2[b] == st.0[j].1[b]);
                                }
                            }
                            assert forall|a: int, b: int| 0 <= a < b < s2.len() implies s2[a].0 != s2[b].0 by {
                                assert(s2[a].0 == st.0[a].0 && s2[b].0 == st.0[b].0);
                            }
                            assert forall|i: int| 0 <= i < s2.len() implies files_wf(#[trigger] s2[i].1) by {
                                if i != j {
                                    assert(s2[i] == st.0[i]);
                                }
                            }
                            assert forall|k: KeyView, kd: FileKind| #[trigger] stored_file(nst, k, kd) == if spec_entry_key(p) == Some((k, kd)) && stored_file(st, k, kd) is None {
                                Some(p)
                            } else {
                                stored_file(st, k, kd)
                            } by {
                                lemma_key_index(st.0, k);
                                lemma_key_index(s2, k);
                                match key_index(st.0, k) {
                                    Some(m) => {
                                        assert(s2[m].0 == k);
                                        assert(key_index(s2, k) == Some(m));
                                        if m == j {
                                            crate::asset::lemma_lookup_kind_push(st.0[j].1, kind, p, kd);
                                        } else {
                                            assert(s2[m] == st.0[m]);
                                        }
                                    },
                                    None => {
                                        assert forall|i: int| 0 <= i < s2.len() implies s2[i].0 != k by {
                                            assert(s2[i].0 == st.0[i].0);
                                        }
                                    },
                                }
                            }
                        },
                        Some(kept) => {
                            assert(nst.0 == st.0);
                        },
                    }
                },
            }
        },
    }
}

/// A scan state is always well-formed.
pub proof fn law_scan_well_formed(paths: Seq<Seq<char>>)
    ensures
        state_wf(scan_spec(paths)),
    decreases paths.len(),
{
    if paths.len() > 0 {
        law_scan_well_formed(paths.drop_last());
        lemma_scan_step(scan_spec(paths.drop_last()), paths.last());
    }
}

/// Whether some path among the first `n` has key `k` and kind `kind`.
pub open spec fn seen_before(paths: Seq<Seq<char>>, n: int, k: KeyView, kind: FileKind) -> bool {
    exists|j: int| 0 <= j < n && #[trigger] spec_entry_key(paths[j]) == Some((k, kind))
}

/// A file is recorded for a key and kind exactly when some path of that key
/// and kind was walked.
pub proof fn lemma_stored_iff_seen(paths: Seq<Seq<char>>, k: KeyView, kind: FileKind)
    ensures
        stored_file(scan_spec(paths), k, kind) is Some <==> seen_before(paths, paths.len() as int, k, kind),
    decreases paths.len(),
{
    if paths.len() > 0 {
        let pre = paths.drop_last();
        lemma_stored_iff_seen(pre, k, kind);
        law_scan_well_formed(pre);
        lemma_scan_step(scan_spec(pre), paths.last());
        if seen_before(pre, pre.len() as int, k, kind) {
            let j = choose|j: int| 0 <= j < pre.len() && #[trigger] spec_entry_key(pre[j]) == Some((k, kind));
            assert(paths[j] == pre[j]);
        }
        if seen_before(paths, paths.len() as int, k, kind) {
            let j = choose|j: int| 0 <= j < paths.len() && #[trigger] spec_entry_key(paths[j]) == Some((k, kind));
            if j < pre.len() {
                assert(pre[j] == paths[j]);
            }
        }
    }
}

/// The law of pairing: the first photo file of a key and kind is the one
/// recorded for that asset and kind, and every later one is recorded as a
/// collision that names the kept file and itself. No photo file is dropped
/// silently and none is stored over another.
pub proof fn law_scan_keeps_first(paths: Seq<Seq<char>>, i: int, k: KeyView, kind: FileKind)
    requires
        0 <= i < paths.len(),
        spec_entry_key(paths[i]) == Some((k, kind)),
    ensures
        !seen_before(paths, i, k, kind) ==> stored_file(scan_spec(paths), k, kind) == Some(paths[i]),
        seen_before(paths, i, k, kind) ==> stored_file(scan_spec(paths), k, kind) is Some
            && scan_spec(paths).1.contains((k, kind, stored_file(scan_spec(paths), k, kind)->0, paths[i])),
    decreases paths.len(),
{
    let pre = paths.drop_last();
    law_scan_well_formed(pre);
    lemma_scan_step(scan_spec(pre), paths.last());
    let st = scan_spec(pre);
    if i == paths.len() - 1 {
        lemma_stored_iff_seen(pre, k, kind);
        if seen_before(paths, i, k, kind) {
            let j = choose|j: int| 0 <= j < i && #[trigger] spec_entry_key(paths[j]) == Some((k, kind));
            assert(pre[j] == paths[j]);
            assert(seen_before(pre, pre.len() as int, k, kind));
            let f = stored_file(st, k, kind)->0;
            assert(scan_spec(paths).1 == st.1.push((k, kind, f, paths[i])));
            assert(scan_spec(paths).1[st.1.len() as int] == (k, kind, f, paths[i]));
        } else {
            assert forall|j: int| 0 <= j < pre.len() implies #[trigger] spec_entry_key(pre[j]) != Some((k, kind)) by {
                assert(pre[j] == paths[j]);
            }
        }
    } else {
        assert(pre[i] == paths[i]);
        law_scan_keeps_first(pre, i, k, kind);
        assert(seen_before(paths, i, k, kind) == seen_before(pre, i, k, kind)) by {
            if seen_before(paths, i, k, kind) {
                let j = choose|j: int| 0 <= j < i && #[trigger] spec_entry_key(paths[j]) == Some((k, kind));
                assert(pre[j] == paths[j]);
            }
            if seen_before(pre, i, k, kind) {
                let j = choose|j: int| 0 <= j < i && #[trigger] spec_entry_key(pre[j]) == Some((k, kind));
                assert(pre[j] == paths[j]);
            }
        }
        if seen_before(paths, i, k, kind) {
            let c = (k, kind, stored_file(st, k, kind)->0, paths[i]);
            let m = choose|m: int| 0 <= m < st.1.len() && st.1[m] == c;
            assert(scan_spec(paths).1[m] == c);
        }
    }
}

/// The number of photo files among the paths.
pub open spec fn photo_count(paths: Seq<Seq<char>>) -> nat
    decreases paths.len(),
{
    if paths.len() == 0 {
        0
    } else {
        photo_count(paths.drop_last()) + if spec_entry_key(paths.last()) is Some { 1nat } else { 0nat }
    }
}

/// The number of files held by the assets.
pub open spec fn file_count(s: Seq<(KeyView, FilesView)>) -> nat
    decreases s.len(),
{
    if s.len() == 0 {
        0
    } else {
        file_count(s.drop_last()) + s.last().1.len()
    }
}

proof fn lemma_file_count_update(s: Seq<(KeyView, FilesView)>, j: int, x: (KeyView, FilesView))
    requires
        0 <= j < s.len(),
    ensures
        file_count(s.update(j, x)) + s[j].1.len() == file_count(s) + x.1.len(),
    decreases s.len(),
{
    if j < s.len() - 1 {
        assert(s.update(j, x).drop_last() =~= s.drop_last().update(j, x));
        lemma_file_count_update(s.drop_last(), j, x);
    } else {
        assert(s.update(j, x).drop_last() =~= s.drop_last());
    }
}

/// The law of conservation: every photo file the walk found is either held
/// by an asset or named as displaced by exactly one collision.
pub proof fn law_scan_conserves_files(paths: Seq<Seq<char>>)
    ensures
        file_count(scan_spec(paths).0) + scan_spec(paths).1.len() == photo_count(paths),
    decreases paths.len(),
{
    if paths.len() > 0 {
        let pre = paths.drop_last();
        law_scan_conserves_files(pre);
        let st = scan_spec(pre);
        let p = paths.last();
        match spec_entry_key(p) {
            None => {},
            Some((key, kind)) => match key_index(st.0, key) {
                None => {
                    assert(st.0.push((key, seq![(kind, p)])).drop_last() =~= st.0);
                },
                Some(j) => match lookup_kind(st.0[j].1, kind) {
                    None => {
                        lemma_file_count_update(st.0, j, (key, st.0[j].1.push((kind, p))));
                    },
                    Some(_) => {},
                },
            },
        }
    }
}

/// The law of pairing across kinds: the first RAW and the first JPEG of one
/// key are recorded in the same asset.
pub proof fn law_scan_pairs_kinds(paths: Seq<Seq<char>>, i: int, j: int, k: KeyView)
    requires
        0 <= i < paths.len(),
        0 <= j < paths.len(),
        spec_entry_key(paths[i]) == Some((k, FileKind::Raw)),
        spec_entry_key(paths[j]) == Some((k, FileKind::Jpeg)),
        !seen_before(paths, i, k, FileKind::Raw),
        !seen_before(paths, j, k, FileKind::Jpeg),
    ensures
        key_index(scan_spec(paths).0, k) matches Some(a) && lookup_kind(scan_spec(paths).0[a].1, FileKind::Raw)
            == Some(paths[i]) && lookup_kind(scan_spec(paths).0[a].1, FileKind::Jpeg) == Some(paths[j]),
{
    law_scan_keeps_first(paths, i, k, FileKind::Raw);
    law_scan_keeps_first(paths, j, k, FileKind::Jpeg);
}

/// Every recorded file comes from the walk, under the key and kind of its
/// own path.
pub open spec fn files_from_walk(st: ScanState, paths: Seq<Seq<char>>) -> bool {
    forall|a: int, m: int| 0 <= a < st.0.len() && 0 <= m < st.0[a].1.len() ==> {
        let f = #[trigger] st.0[a].1[m];
        &&& spec_entry_key(f.1) == Some((st.0[a].0, f.0))
        &&& paths.contains(f.1)
    }
}

/// Every collision comes from the walk: its displaced path has the key and
/// kind of the collision, and its kept file is the file recorded there.
pub open spec fn collisions_from_walk(st: ScanState, paths: Seq<Seq<char>>) -> bool {
    forall|c: int| 0 <= c < st.1.len() ==> {
        let x = #[trigger] st.1[c];
        &&& spec_entry_key(x.3) == Some((x.0, x.1))
        &&& paths.contains(x.3)
        &&& stored_file(st, x.0, x.1) == Some(x.2)
    }
}

/// The law of soundness: a scan records no file and no collision that the
/// walk did not give, and each collision names the file that stays kept.
pub proof fn law_scan_sound(paths: Seq<Seq<char>>)
    ensures
        files_from_walk(scan_spec(paths), paths),
        collisions_from_walk(scan_spec(paths), paths),
    decreases paths.len(),
{
    if paths.len() > 0 {
        let pre = paths.drop_last();
        let p = paths.last();
        law_scan_sound(pre);
        law_scan_well_formed(pre);
        let st = scan_spec(pre);
        lemma_scan_step(st, p);
        let nst = scan_spec(paths);
        assert forall|q: Seq<char>| pre.contains(q) implies paths.contains(q) by {
            let w = choose|w: int| 0 <= w < pre.len() && pre[w] == q;
            assert(paths[w] == q);
        }
        assert(paths.contains(p)) by {
            assert(paths[paths.len() - 1] == p);
        }
        assert forall|c: int| 0 <= c < nst.1.len() implies {
            let x = #[trigger] nst.1[c];
            &&& spec_entry_key(x.3) == Some((x.0, x.1))
            &&& paths.contains(x.3)
            &&& stored_file(nst, x.0, x.1) == Some(x.2)
        } by {
            let x = nst.1[c];
            if c < st.1.len() {
                assert(nst.1[c] == st.1[c]);
                assert(stored_file(nst, x.0, x.1) == stored_file(st, x.0, x.1));
            } else {
                crate::asset::lemma_lookup_kind(Seq::<(FileKind, Seq<char>)>::empty(), x.1);
            }
        }
        match spec_entry_key(p) {
            None => {},
            Some((key, kind)) => {
                lemma_key_index(st.0, key);
                match key_index(st.0, key) {
                    None => {
                        assert forall|a: int, m: int| 0 <= a < nst.0.len() && 0 <= m < nst.0[a].1.len() implies {
                            let f = #[trigger] nst.0[a].1[m];
                            &&& spec_entry_key(f.1) == Some((nst.0[a].0, f.0))
                            &&& paths.contains(f.1)
                        } by {
                            if a < st.0.len() {
                                assert(nst.0[a] == st.0[a]);
                                assert(st.0[a].1[m] == nst.0[a].1[m]);
                            }
                        }
                    },
                    Some(b) => {
                        match lookup_kind(st.0[b].1, kind) {
                            None => {
                                assert forall|a: int, m: int| 0 <= a < nst.0.len() && 0 <= m < nst.0[a].1.len() implies {
                                    let f = #[trigger] nst.0[a].1[m];
                                    &&& spec_entry_key(f.1) == Some((nst.0[a].0, f.0))
                                    &&& paths.contains(f.1)
                                } by {
                                    if a != b {
                                        assert(nst.0[a] == st.0[a]);
                                        assert(st.0[a].1[m] == nst.0[a].1[m]);
                                    } else if m < st.0[b].1.len() {
                                        assert(nst.0[b].1[m] == st.0[b].1[m]);
                                        assert(nst.0[b].0 == st.0[b].0);
                                    }
                                }
                            },
                            Some(_) => {},
                        }
                    },
                }
            },
        }
    }
}

/// The law of extensions: an extension, once lowercased, names a RAW exactly
/// when it is `cr2`, a JPEG exactly when it is `jpg` or `jpeg`, and no photo
/// file otherwise.
pub proof fn law_classify_extensions(ext: Seq<char>)
    ensures
        spec_classify(ext) == Some(FileKind::Raw) <==> ext == "cr2"@,
        spec_classify(ext) == Some(FileKind::Jpeg) <==> (ext == "jpg"@ || ext == "jpeg"@),
        spec_classify(ext) is None <==> !(ext == "cr2"@ || ext == "jpg"@ || ext == "jpeg"@),
{
    reveal_strlit("cr2");
    reveal_strlit("jpg");
    reveal_strlit("jpeg");
    assert("cr2"@ =~= seq!['c', 'r', '2']);
    assert("jpg"@ =~= seq!['j', 'p', 'g']);
    assert("jpeg"@ =~= seq!['j', 'p', 'e', 'g']);
}

/// The law of walk errors: the errors of a scan are the failed walk entries,
/// every one of them, in walk order.
pub proof fn law_walk_errors_in_order(entries: Seq<Result<WalkEntry, walkdir::Error>>)
    ensures
        walk_errors(entries) == entries.filter(|r: Result<WalkEntry, walkdir::Error>| r is Err).map_values(
            |r: Result<WalkEntry, walkdir::Error>| r->Err_0,
        ),
        walk_errors(entries).len() == entries.filter(|r: Result<WalkEntry, walkdir::Error>| r is Err).len(),
    decreases entries.len(),
{
    reveal(Seq::filter);
    let is_err = |r: Result<WalkEntry, walkdir::Error>| r is Err;
    let err_of = |r: Result<WalkEntry, walkdir::Error>| r->Err_0;
    if entries.len() > 0 {
        law_walk_errors_in_order(entries.drop_last());
        let rest = entries.drop_last().filter(is_err);
        if entries.last() is Err {
            assert(entries.filter(is_err) == rest.push(entries.last()));
            assert(rest.push(entries.last()).map_values(err_of) =~= rest.map_values(err_of).push(entries.last()->Err_0));
        } else {
            assert(!is_err(entries.last()));
            assert(entries.filter(is_err) == rest);
        }
    } else {
        assert(entries.filter(is_err).map_values(err_of) =~= Seq::<walkdir::Error>::empty());
    }
}

/// The law of walked files: the paths a scan pairs are those of the walk
/// entries that are files, every one of them, in walk order; errors and
/// directories give none.
pub proof fn law_file_paths_in_order(entries: Seq<Result<WalkEntry, walkdir::Error>>)
    ensures
        file_paths(entries) == entries.filter(|r: Result<WalkEntry, walkdir::Error>| r matches Ok(w) && w.is_file).map_values(
            |r: Result<WalkEntry, walkdir::Error>| r->Ok_0.path@,
        ),
    decreases entries.len(),
{
    reveal(Seq::filter);
    let is_f = |r: Result<WalkEntry, walkdir::Error>| r matches Ok(w) && w.is_file;
    let path_of = |r: Result<WalkEntry, walkdir::Error>| r->Ok_0.path@;
    if entries.len() > 0 {
        law_file_paths_in_order(entries.drop_last());
        let rest = entries.drop_last().filter(is_f);
        if is_f(entries.last()) {
            assert(entries.last() matches Ok(w) && w.is_file);
            assert(entries.filter(is_f) == rest.push(entries.last()));
            assert(rest.push(entries.last()).map_values(path_of) =~= rest.map_values(path_of).push(entries.last()->Ok_0.path@));
        } else {
            assert(!is_f(entries.last()));
            assert(entries.filter(is_f) == rest);
        }
    } else {
        assert(entries.filter(is_f).map_values(path_of) =~= Seq::<Seq<char>>::empty());
    }
}

/// The law of asset keys: a photo file is keyed by its parent directory and
/// its lowercased stem, and has the kind its lowercased extension names; so
/// two photo files of one directory whose stems differ only in letter case
/// share a key.
pub proof fn law_entry_key(path: Seq<char>, other: Seq<char>)
    ensures
        spec_entry_key(path) matches Some((k, kind)) ==> {
            &&& spec_extension(path) matches Some(ext) && spec_classify(spec_lowercase(ext)) == Some(kind)
            &&& spec_parent(path) == Some(k.0)
            &&& spec_file_stem(path) matches Some(stem) && k.1 == spec_lowercase(stem)
        },
        (spec_extension(path) matches Some(ext) && spec_classify(spec_lowercase(ext)) is Some
            && spec_parent(path) is Some && spec_file_stem(path) is Some) ==> spec_entry_key(path) is Some,
        (spec_entry_key(path) matches Some((k, _)) && spec_entry_key(other) matches Some((l, _))
            && spec_parent(path) == spec_parent(other)
            && spec_lowercase(spec_file_stem(path)->0) == spec_lowercase(spec_file_stem(other)->0)) ==> {
            (spec_entry_key(path)->0).0 == (spec_entry_key(other)->0).0
        },
{
}

} // verus!
