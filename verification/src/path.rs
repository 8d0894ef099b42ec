//! Path arithmetic, done by `std::path` on paths held as text.

use vstd::prelude::*;

verus! {

/// The final component of `path`, or `None` where it has none (as for a path
/// that ends in `..`): the result of `std::path::Path::file_name` for the
/// platform the library is built for.
pub uninterp spec fn path_file_name(path: Seq<char>) -> Option<Seq<char>>;

/// `base` extended by `relative`: the result of `std::path::Path::join` for
/// the platform the library is built for.
pub uninterp spec fn path_join(base: Seq<char>, relative: Seq<char>) -> Seq<char>;

/// Calls `std::path::Path::file_name` on `path` and hands the component back
/// as text, which loses nothing, the component being a part of `path`. The
/// contract only gives the result its name, [`path_file_name`]: which
/// component std takes is not proved here.
#[verifier::external_body]
pub(crate) fn file_name(path: &str) -> (name: Option<String>)
    ensures
        match name {
            Some(text) => path_file_name(path@) == Some(text@),
            None => path_file_name(path@) is None,
        },
{
    std::path::Path::new(path).file_name().map(|name| name.to_string_lossy().into_owned())
}

/// Calls `std::path::Path::join` on `base` and `relative` and hands the path
/// back as text, which loses nothing, both being text. The contract only
/// gives the result its name, [`path_join`]: how std combines the two paths
/// is not proved here.
#[verifier::external_body]
pub(crate) fn join(base: &str, relative: &str) -> (joined: String)
    ensures
        joined@ == path_join(base@, relative@),
{
    std::path::Path::new(base).join(relative).to_string_lossy().into_owned()
}

} // verus!
