//! Path text: the library holds paths as their UTF-8 text and asks the
//! standard library's `Path` for their components.
use vstd::prelude::*;

verus! {

/// The text held by an optional string, as a value.
pub open spec fn opt_text(o: Option<String>) -> Option<Seq<char>> {
    match o {
        Some(s) => Some(s@),
        None => None,
    }
}

/// The extension of a path as `Path::extension` gives it.
pub uninterp spec fn spec_extension(path: Seq<char>) -> Option<Seq<char>>;

/// The parent of a path as `Path::parent` gives it.
pub uninterp spec fn spec_parent(path: Seq<char>) -> Option<Seq<char>>;

/// The file stem of a path as `Path::file_stem` gives it.
pub uninterp spec fn spec_file_stem(path: Seq<char>) -> Option<Seq<char>>;

/// The final component of a path as `Path::file_name` gives it.
pub uninterp spec fn spec_file_name(path: Seq<char>) -> Option<Seq<char>>;

/// The path `Path::join` builds from a base and a further part.
pub uninterp spec fn spec_join(base: Seq<char>, part: Seq<char>) -> Seq<char>;

/// The lowercase form of a text as `str::to_lowercase` gives it.
pub uninterp spec fn spec_lowercase(text: Seq<char>) -> Seq<char>;

/// Calls `std::path::Path::extension` on the path and hands back the
/// extension's text. The text of a component of a UTF-8 path is UTF-8, so the
/// conversion loses nothing. Claimed: the result is `spec_extension` of the
/// path.
#[verifier::external_body]
pub(crate) fn path_extension(path: &str) -> (r: Option<String>)
    ensures
        opt_text(r) == spec_extension(path@),
{
    std::path::Path::new(path).extension().map(|e| e.to_string_lossy().into_owned())
}

/// Calls `std::path::Path::parent` on the path and hands back the parent's
/// text. Claimed: the result is `spec_parent` of the path.
#[verifier::external_body]
pub(crate) fn path_parent(path: &str) -> (r: Option<String>)
    ensures
        opt_text(r) == spec_parent(path@),
{
    std::path::Path::new(path).parent().map(|p| p.to_string_lossy().into_owned())
}

/// Calls `std::path::Path::file_stem` on the path and hands back the stem's
/// text. Claimed: the result is `spec_file_stem` of the path.
#[verifier::external_body]
pub(crate) fn path_file_stem(path: &str) -> (r: Option<String>)
    ensures
        opt_text(r) == spec_file_stem(path@),
{
    std::path::Path::new(path).file_stem().map(|s| s.to_string_lossy().into_owned())
}

/// Calls `std::path::Path::file_name` on the path and hands back the name's
/// text. Claimed: the result is `spec_file_name` of the path.
#[verifier::external_body]
pub(crate) fn path_file_name(path: &str) -> (r: Option<String>)
    ensures
        opt_text(r) == spec_file_name(path@),
{
    std::path::Path::new(path).file_name().map(|s| s.to_string_lossy().into_owned())
}

/// Calls `std::path::Path::join` and hands back the joined path's text.
/// Claimed: the result is `spec_join` of the two arguments.
#[verifier::external_body]
pub(crate) fn path_join(base: &str, part: &str) -> (r: String)
    ensures
        r@ == spec_join(base@, part@),
{
    std::path::Path::new(base).join(part).to_string_lossy().into_owned()
}

/// Calls `str::to_lowercase`. Claimed: the result is `spec_lowercase` of the
/// text.
#[verifier::external_body]
pub(crate) fn lowercase(text: &str) -> (r: String)
    ensures
        r@ == spec_lowercase(text@),
{
    text.to_lowercase()
}

/// Whether two texts are the same sequence of characters.
pub fn same_text(a: &str, b: &str) -> (r: bool)
    ensures
        r == (a@ == b@),
{
    let n = a.unicode_len();
    if n != b.unicode_len() {
        return false;
    }
    let mut i: usize = 0;
    while i < n
        invariant
            n == a@.len(),
            n == b@.len(),
            0 <= i <= n,
            forall|j: int| 0 <= j < i ==> a@[j] == b@[j],
        decreases n - i,
    {
        if a.get_char(i) != b.get_char(i) {
            return false;
        }
        i += 1;
    }
    assert(a@ =~= b@);
    true
}

} // verus!
