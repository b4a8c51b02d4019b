//! Filesystem paths, carried through the library as opaque values, and the
//! few path operations the library needs.

use vstd::prelude::*;
use std::path::PathBuf;

verus! {

/// An owned filesystem path, carried as an opaque value.
#[verifier::external_type_specification]
#[verifier::external_body]
pub struct ExPathBuf(PathBuf);

/// Trusted: `PathBuf`'s `Clone` copies the underlying path buffer, so the
/// clone is the same value as the original.
pub assume_specification[ <PathBuf as Clone>::clone ](p: &PathBuf) -> (r: PathBuf)
    ensures
        r == *p,
;

/// The path `base` extended by the path written `part` (`Path::join` with
/// a string). For a given build target it depends on its arguments alone.
pub uninterp spec fn path_joined_str(base: PathBuf, part: Seq<char>) -> PathBuf;

/// The path `base` extended by the path `part` (`Path::join` with a path).
/// For a given build target it depends on its arguments alone.
pub uninterp spec fn path_joined(base: PathBuf, part: PathBuf) -> PathBuf;

/// The last component of `p` as a path of its own, if `p` has one
/// (`Path::file_name`). For a given build target it depends on `p` alone.
pub uninterp spec fn path_file_name(p: PathBuf) -> Option<PathBuf>;

/// The text that `Path::display` shows for `p` (lossy where `p` is not
/// valid Unicode). For a given build target it depends on `p` alone.
pub uninterp spec fn path_display(p: PathBuf) -> Seq<char>;

/// `Path::join` with a string: the path `base` extended by `part`.
///
/// Trusted: the result is named `path_joined_str`; how paths are joined
/// (the separator, an absolute `part` replacing `base`) is left to that
/// name.
#[verifier::external_body]
pub fn join_str(base: &PathBuf, part: &str) -> (r: PathBuf)
    ensures
        r == path_joined_str(*base, part@),
{
    base.join(part)
}

/// `Path::join` with a path: the path `base` extended by `part`.
///
/// Trusted: the result is named `path_joined`, as for `join_str`.
#[verifier::external_body]
pub fn join_path(base: &PathBuf, part: &PathBuf) -> (r: PathBuf)
    ensures
        r == path_joined(*base, *part),
{
    base.join(part)
}

/// `Path::file_name`, the component taken as a path of its own.
///
/// Trusted: the result is named `path_file_name`.
#[verifier::external_body]
pub fn file_name_of(p: &PathBuf) -> (r: Option<PathBuf>)
    ensures
        r == path_file_name(*p),
{
    p.file_name().map(PathBuf::from)
}

/// The text `Path::display` shows for `p`.
///
/// Trusted: the result is named `path_display`.
#[verifier::external_body]
pub fn display_path(p: &PathBuf) -> (s: String)
    ensures
        s@ == path_display(*p),
{
    format!("{}", p.display())
}

} // verus!
