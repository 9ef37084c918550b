//! Path arithmetic on textual paths, done by `std::path`.
use vstd::prelude::*;

verus! {

/// The parent directory of a path, as `std::path::Path::parent` computes it,
/// rendered as text.
pub uninterp spec fn parent_path(p: Seq<char>) -> Option<Seq<char>>;

/// A path with one more component appended, as `std::path::Path::join`
/// computes it, rendered as text.
pub uninterp spec fn joined_path(base: Seq<char>, part: Seq<char>) -> Seq<char>;

/// Relies on `std::path::Path::parent`: `None` for a root, a prefix or the
/// empty path, else the path without its last component. Both depend on the
/// text alone.
#[verifier::external_body]
pub(crate) fn parent_of(p: &str) -> (r: Option<String>)
    ensures
        r.deep_view() == parent_path(p@),
{
    match std::path::Path::new(p).parent() {
        Some(q) => Some(q.to_string_lossy().into_owned()),
        None => None,
    }
}

/// Relies on `std::path::Path::join`: the result depends on the two texts
/// alone.
#[verifier::external_body]
pub(crate) fn join_path(base: &str, part: &str) -> (r: String)
    ensures
        r@ == joined_path(base@, part@),
{
    std::path::Path::new(base).join(part).to_string_lossy().into_owned()
}

} // verus!
