//! Path arithmetic, done by the standard library.
//!
//! Paths are held as strings. What the last component of a path is, and
//! how a directory and a file name are put together, is decided by
//! `std::path` for the platform the crate is built for. Verus does not look
//! into those two functions: their results are named here, and the
//! contracts of the dispatcher speak of the names.

use vstd::prelude::*;

verus! {

/// The final component of `path`, as `std::path::Path::file_name` gives it;
/// `None` where the path has none, as for a path that ends in `..`.
pub uninterp spec fn path_file_name(path: Seq<char>) -> Option<Seq<char>>;

/// The path made of `base` extended by `component`, as
/// `std::path::Path::join` gives it.
pub uninterp spec fn path_join(base: Seq<char>, component: Seq<char>) -> Seq<char>;

/// Calls `std::path::Path::file_name` on `path`.
///
/// Trusted: the result is taken to be the named value
/// [`path_file_name`] of the path. The component is a piece of the path's
/// own text, so turning it back into a string loses nothing.
#[verifier::external_body]
pub(crate) fn file_name(path: &String) -> (name: Option<String>)
    ensures
        match name {
            Some(text) => path_file_name(path@) == Some(text@),
            None => path_file_name(path@) is None,
        },
{
    match std::path::Path::new(path).file_name() {
        Some(name) => Some(name.to_string_lossy().into_owned()),
        None => None,
    }
}

/// Calls `std::path::Path::join` on `base`, with `component` as its
/// argument.
///
/// Trusted: the result is taken to be the named value [`path_join`] of the
/// two strings. Both are valid text, and so is what `join` makes of them.
#[verifier::external_body]
pub(crate) fn join(base: &String, component: &String) -> (joined: String)
    ensures
        joined@ == path_join(base@, component@),
{
    std::path::Path::new(base).join(component).to_string_lossy().into_owned()
}

} // verus!
