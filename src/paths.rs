//! UTF-8 path components, by way of `camino`.
use vstd::prelude::*;

verus! {

pub open spec fn opt_view(o: Option<String>) -> Option<Seq<char>> {
    match o {
        Some(s) => Some(s@),
        None => None,
    }
}

/// What `camino::Utf8Path::extension` returns for a path.
pub uninterp spec fn extension_of(p: Seq<char>) -> Option<Seq<char>>;

/// What `camino::Utf8Path::file_name` returns for a path.
pub uninterp spec fn file_name_of(p: Seq<char>) -> Option<Seq<char>>;

/// What `camino::Utf8Path::parent` returns for a path.
pub uninterp spec fn parent_of(p: Seq<char>) -> Option<Seq<char>>;

/// Relies on `camino::Utf8Path::extension`: the extension of the final
/// component, if there is one; it depends on the path text alone.
#[verifier::external_body]
pub(crate) fn path_extension(p: &str) -> (r: Option<String>)
    ensures
        opt_view(r) == extension_of(p@),
{
    camino::Utf8Path::new(p).extension().map(|e| e.to_owned())
}

/// Relies on `camino::Utf8Path::file_name`: the final component, if there
/// is one; it depends on the path text alone.
#[verifier::external_body]
pub(crate) fn path_file_name(p: &str) -> (r: Option<String>)
    ensures
        opt_view(r) == file_name_of(p@),
{
    camino::Utf8Path::new(p).file_name().map(|e| e.to_owned())
}

/// Relies on `camino::Utf8Path::parent`: the path without its final
/// component, if there is one; it depends on the path text alone.
#[verifier::external_body]
pub(crate) fn path_parent(p: &str) -> (r: Option<String>)
    ensures
        opt_view(r) == parent_of(p@),
{
    camino::Utf8Path::new(p).parent().map(|e| e.as_str().to_owned())
}

} // verus!
