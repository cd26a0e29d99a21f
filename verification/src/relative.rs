//! The path that leads from the collection root to a file.

use vstd::prelude::*;

verus! {

/// The relative path that leads from `base` to `path`, where there is one:
/// what `pathdiff::diff_paths` returns for the two.
pub uninterp spec fn relative_path_from(path: Seq<char>, base: Seq<char>) -> Option<Seq<char>>;

/// Calls `pathdiff::diff_paths(path, base)`, which compares the components
/// of the two paths and reads nothing from disk. The contract only names
/// the result; the path that comes back is turned into text, which loses
/// nothing since both arguments are text.
#[verifier::external_body]
pub(crate) fn diff_paths(path: &str, base: &str) -> (r: Option<String>)
    ensures
        r.deep_view() == relative_path_from(path@, base@),
{
    match pathdiff::diff_paths(path, base) {
        Some(relative) => Some(relative.to_string_lossy().into_owned()),
        None => None,
    }
}

} // verus!
