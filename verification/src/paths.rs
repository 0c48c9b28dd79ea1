//! Paths as std's `Path` reads them: by whole components.

use vstd::prelude::*;

verus! {

/// Whether path `base` is a prefix of path `path`, whole components only,
/// as std's paths compare them.
pub uninterp spec fn path_starts_with(path: Seq<char>, base: Seq<char>) -> bool;

/// `Path::starts_with`: whether `base` is a prefix of `path`, comparing
/// whole components.
#[verifier::external_body]
pub fn starts_with(path: &str, base: &str) -> (under: bool)
    ensures
        under == path_starts_with(path@, base@),
{
    std::path::Path::new(path).starts_with(base)
}

/// The final component of a path, by std's reading of it; none when the
/// path ends in `..` or has no components.
pub uninterp spec fn path_file_name(path: Seq<char>) -> Option<Seq<char>>;

/// `Path::file_name`: the final component of `path`, if it has one.
#[verifier::external_body]
pub fn file_name(path: &str) -> (name: Option<String>)
    ensures
        match name {
            Some(n) => path_file_name(path@) == Some(n@),
            None => path_file_name(path@) is None,
        },
{
    std::path::Path::new(path).file_name().map(|name| name.to_string_lossy().into_owned())
}

/// What follows `base` in `path`, by whole components, when `base` is a
/// prefix of it.
pub uninterp spec fn path_relative(path: Seq<char>, base: Seq<char>) -> Option<Seq<char>>;

/// `Path::strip_prefix`: `path` relative to `base`, when `base` is a
/// prefix of it by whole components.
#[verifier::external_body]
pub fn strip_base(path: &str, base: &str) -> (relative: Option<String>)
    ensures
        match relative {
            Some(r) => path_relative(path@, base@) == Some(r@),
            None => path_relative(path@, base@) is None,
        },
{
    std::path::Path::new(path).strip_prefix(base).ok().map(|rest| rest.to_string_lossy().into_owned())
}

/// The path without its final component, by std's reading of it; none
/// for a root or an empty path.
pub uninterp spec fn path_parent(path: Seq<char>) -> Option<Seq<char>>;

/// `Path::parent`: `path` without its final component, if it has one.
#[verifier::external_body]
pub fn parent(path: &str) -> (dir: Option<String>)
    ensures
        match dir {
            Some(d) => path_parent(path@) == Some(d@),
            None => path_parent(path@) is None,
        },
{
    std::path::Path::new(path).parent().map(|dir| dir.to_string_lossy().into_owned())
}

} // verus!
