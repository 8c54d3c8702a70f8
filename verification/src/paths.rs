//! Path arithmetic, done by `std::path`. Paths are held as strings; what the
//! standard library makes of them on the platform at hand is named here and
//! not spelled out.

use vstd::prelude::*;
use vstd::string::*;

verus! {

/// The path that `Path::join` gives for `base` and `relative`: `relative`
/// adjoined to `base`, or `relative` alone where it is absolute.
pub uninterp spec fn joined_path(base: Seq<char>, relative: Seq<char>) -> Seq<char>;

/// The path without its final component, as `Path::parent` gives it; `None`
/// for a root and for the empty path.
pub uninterp spec fn parent_path(path: Seq<char>) -> Option<Seq<char>>;

/// The extension of the file name of a path, as `Path::extension` gives it:
/// what follows the last dot of the file name, if the name has one that is
/// not its first character.
pub uninterp spec fn path_extension(path: Seq<char>) -> Option<Seq<char>>;

/// View of an optional string.
pub open spec fn optional_view(s: Option<String>) -> Option<Seq<char>> {
    match s {
        Some(s) => Some(s@),
        None => None,
    }
}

/// `Path::join` on paths given as strings. The result is named by
/// `joined_path`; nothing more is claimed of it.
#[verifier::external_body]
pub(crate) fn join(base: &str, relative: &str) -> (joined: String)
    ensures
        joined@ == joined_path(base@, relative@),
{
    std::path::Path::new(base).join(relative).to_string_lossy().into_owned()
}

/// `Path::parent` on a path given as a string. The result is named by
/// `parent_path`; nothing more is claimed of it.
#[verifier::external_body]
pub(crate) fn parent(path: &str) -> (dir: Option<String>)
    ensures
        optional_view(dir) == parent_path(path@),
{
    std::path::Path::new(path).parent().map(|dir| dir.to_string_lossy().into_owned())
}

/// `Path::extension` on a path given as a string. The result is named by
/// `path_extension`; nothing more is claimed of it.
#[verifier::external_body]
pub(crate) fn extension(path: &str) -> (ext: Option<String>)
    ensures
        optional_view(ext) == path_extension(path@),
{
    std::path::Path::new(path).extension().map(|ext| ext.to_string_lossy().into_owned())
}

/// Whether a path names a markdown document: its extension is exactly `md`.
pub open spec fn is_markdown(path: Seq<char>) -> bool {
    path_extension(path) == Some("md"@)
}

/// Decides from the extension of a path, already taken, whether the path
/// names a markdown document.
pub fn is_markdown_extension(ext: &Option<String>) -> (yes: bool)
    ensures
        yes == (optional_view(*ext) == Some("md"@)),
{
    match ext {
        Some(e) => {
            let md = String::from_str("md");
            *e == md
        },
        None => false,
    }
}

/// Whether `path` names a markdown document.
pub fn is_markdown_path(path: &str) -> (yes: bool)
    ensures
        yes == is_markdown(path@),
{
    is_markdown_extension(&extension(path))
}

} // verus!
