//! Filesystem paths, held as text and joined with `std::path`.

use vstd::prelude::*;

verus! {

/// The path that `std::path::Path::join` makes of `base` and `part`.
pub uninterp spec fn path_join(base: Seq<char>, part: Seq<char>) -> Seq<char>;

/// `std::path::Path::join`: `base` extended by `part` (or `part` alone when it
/// is absolute). The contract names the result by `path_join` of the two
/// texts; nothing more is stated of the separator the platform uses.
#[verifier::external_body]
pub(crate) fn join_path(base: &str, part: &str) -> (r: String)
    ensures
        r@ == path_join(base@, part@),
{
    std::path::Path::new(base).join(part).to_string_lossy().into_owned()
}

} // verus!

verus! {

/// The last component of a path, as `std::path::Path::file_name` gives it
/// (`None` for a root, or a path ending in `..`).
pub uninterp spec fn path_file_name(path: Seq<char>) -> Option<Seq<char>>;

/// `std::path::Path::file_name`: the final component of `path`, if any. The
/// contract names the result by `path_file_name`.
#[verifier::external_body]
pub(crate) fn file_name_of(path: &str) -> (r: Option<String>)
    ensures
        match r {
            Some(n) => path_file_name(path@) == Some(n@),
            None => path_file_name(path@) is None,
        },
{
    std::path::Path::new(path).file_name().map(|n| n.to_string_lossy().into_owned())
}

} // verus!
