//! File-system paths, held as strings, and the user's home directory.

use vstd::prelude::*;

verus! {

/// Name for what `Path::join` gives (read back as a string).
pub uninterp spec fn path_join(base: Seq<char>, rel: Seq<char>) -> Seq<char>;

/// Name for what `Path::with_extension` gives (read back as a string).
pub uninterp spec fn path_with_extension(path: Seq<char>, ext: Seq<char>) -> Seq<char>;

/// Name for what `Path::with_file_name` gives (read back as a string).
pub uninterp spec fn path_with_file_name(path: Seq<char>, name: Seq<char>) -> Seq<char>;

/// Calls `Path::join`: `rel` appended to `base` as a path component
/// (or `rel` itself when it is absolute). The result is named `path_join`.
#[verifier::external_body]
pub(crate) fn join_path(base: &str, rel: &str) -> (r: String)
    ensures
        r@ == path_join(base@, rel@),
{
    std::path::Path::new(base).join(rel).to_string_lossy().into_owned()
}

/// Calls `Path::with_extension`; `ext` holds no path separator, on which the
/// standard library panics. The result is named `path_with_extension`.
#[verifier::external_body]
pub(crate) fn with_extension(path: &str, ext: &str) -> (r: String)
    requires
        !ext@.contains('/'),
        !ext@.contains('\\'),
    ensures
        r@ == path_with_extension(path@, ext@),
{
    std::path::Path::new(path).with_extension(ext).to_string_lossy().into_owned()
}

/// Calls `Path::with_file_name`; the result is named `path_with_file_name`.
#[verifier::external_body]
pub(crate) fn with_file_name(path: &str, name: &str) -> (r: String)
    ensures
        r@ == path_with_file_name(path@, name@),
{
    std::path::Path::new(path).with_file_name(name).to_string_lossy().into_owned()
}

/// Calls `dirs::home_dir`. The answer comes from the process environment
/// (`$HOME` and the user database), so nothing is stated of it.
#[verifier::external_body]
pub(crate) fn home_dir() -> (r: Option<String>) {
    dirs::home_dir().map(|h| h.to_string_lossy().into_owned())
}

/// Name for whether two paths are equal as `Path` compares them (component
/// by component).
pub uninterp spec fn path_eq(a: Seq<char>, b: Seq<char>) -> bool;

/// Calls `<Path as PartialEq>::eq`; the answer is named `path_eq`.
#[verifier::external_body]
pub(crate) fn paths_equal(a: &str, b: &str) -> (r: bool)
    ensures
        r == path_eq(a@, b@),
{
    std::path::Path::new(a) == std::path::Path::new(b)
}

/// Name for whether a path is absolute, as `Path::is_absolute` decides.
pub uninterp spec fn path_absolute(p: Seq<char>) -> bool;

/// Calls `Path::is_absolute`; the answer is named `path_absolute`.
#[verifier::external_body]
pub(crate) fn is_absolute_path(p: &str) -> (r: bool)
    ensures
        r == path_absolute(p@),
{
    std::path::Path::new(p).is_absolute()
}

/// Name for the last component of a path, as `Path::file_name` gives it.
pub uninterp spec fn path_file_name(p: Seq<char>) -> Option<Seq<char>>;

/// Calls `Path::file_name`; the answer is named `path_file_name`.
#[verifier::external_body]
pub(crate) fn file_name_of(p: &str) -> (r: Option<String>)
    ensures
        r.deep_view() == path_file_name(p@),
{
    std::path::Path::new(p).file_name().map(|n| n.to_string_lossy().into_owned())
}

} // verus!
