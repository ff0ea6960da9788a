//! Where the files made for a release go.

use crate::text::opt_view;
use vstd::prelude::*;

verus! {

/// The path without its last component, and `None` where it ends in a
/// root or is empty: the result of `Path::parent`, by the path rules of
/// the system that the library is built for.
pub uninterp spec fn path_parent(path: Seq<char>) -> Option<Seq<char>>;

/// A path adjoined to a directory: the result of `Path::join`, by the
/// path rules of the system that the library is built for.
pub uninterp spec fn path_join(directory: Seq<char>, path: Seq<char>) -> Seq<char>;

/// The directory that holds a path.
///
/// Trusted: calls `Path::parent`, which hands out the path without its
/// last component, if it has one. It reads the text of the path and
/// nothing else. The contract names the answer and claims nothing of it.
#[verifier::external_body]
fn parent_of(path: &str) -> (r: Option<String>)
    ensures
        opt_view(r) == path_parent(path@),
{
    match std::path::Path::new(path).parent() {
        Some(p) => Some(p.to_string_lossy().into_owned()),
        None => None,
    }
}

/// A path below a directory.
///
/// Trusted: calls `Path::join`, which adjoins a path to another. It reads
/// the texts of both and nothing else. The contract names the answer and
/// claims nothing of it.
#[verifier::external_body]
fn below(directory: &str, path: &str) -> (r: String)
    ensures
        r@ == path_join(directory@, path@),
{
    std::path::Path::new(directory).join(path).to_string_lossy().into_owned()
}

/// The output directory of a release for the directory of a manifest:
/// `target/dist` adjoined to the parent of that directory, where it has
/// one.
pub open spec fn dist_dir_of(manifest_dir: Seq<char>) -> Option<Seq<char>> {
    match path_parent(manifest_dir) {
        Some(root) => Some(path_join(root, "target/dist"@)),
        None => None,
    }
}

/// The output directory of a release: `target/dist` beside the directory
/// of the given manifest. `None` where that directory has no parent.
pub fn dist_dir(manifest_dir: &str) -> (r: Option<String>)
    ensures
        opt_view(r) == dist_dir_of(manifest_dir@),
{
    match parent_of(manifest_dir) {
        Some(root) => Some(below(root.as_str(), "target/dist")),
        None => None,
    }
}

} // verus!
