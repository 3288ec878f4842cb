//! Paths, as the standard library reads them.
//!
//! The crate holds a path as a `String`. How a path falls into components,
//! what its file name and extension are, and when two paths are the same is
//! decided by `std::path::Path` for the platform the crate is built for. Each
//! of these answers has a name here, and one function asks `Path` for it; the
//! contracts of these functions are taken on trust.

use crate::text::views;
use vstd::prelude::*;

verus! {

/// What `Path::extension` gives for a path: the part of the file name after
/// its last dot, if the path has a file name with such a part.
pub uninterp spec fn path_extension(path: Seq<char>) -> Option<Seq<char>>;

/// What `Path::file_name` gives for a path: its last component, if that is
/// the name of a file or directory.
pub uninterp spec fn path_file_name(path: Seq<char>) -> Option<Seq<char>>;

/// What `Path::components` gives for a path: its components in order, each
/// as text.
pub uninterp spec fn path_components(path: Seq<char>) -> Seq<Seq<char>>;

/// What `Path::ends_with` gives: whether the last components of `path` are
/// those of `child`.
pub uninterp spec fn path_ends_with(path: Seq<char>, child: Seq<char>) -> bool;

/// What `Path::join` gives: `path` adjoined to `base`.
pub uninterp spec fn path_join(base: Seq<char>, path: Seq<char>) -> Seq<char>;

/// What `Path::strip_prefix` gives: `path` without the leading components
/// that make up `base`, where `path` starts with them.
pub uninterp spec fn path_strip_prefix(path: Seq<char>, base: Seq<char>) -> Option<Seq<char>>;

/// What `Path`'s `==` gives: whether two texts are the same path.
pub uninterp spec fn path_eq(a: Seq<char>, b: Seq<char>) -> bool;

/// The characters of an optional string.
pub open spec fn option_view(text: Option<String>) -> Option<Seq<char>> {
    match text {
        Some(text) => Some(text@),
        None => None,
    }
}

/// Two texts name the same path when they are equal or `Path` holds them to
/// be equal.
pub open spec fn same_path(a: Seq<char>, b: Seq<char>) -> bool {
    a == b || path_eq(a, b)
}

/// `Path::extension`.
#[verifier::external_body]
pub(crate) fn extension(path: &str) -> (ext: Option<String>)
    ensures
        option_view(ext) == path_extension(path@),
{
    std::path::Path::new(path).extension().and_then(|ext| ext.to_str()).map(|ext| ext.to_owned())
}

/// `Path::file_name`.
#[verifier::external_body]
pub(crate) fn file_name(path: &str) -> (name: Option<String>)
    ensures
        option_view(name) == path_file_name(path@),
{
    std::path::Path::new(path).file_name().map(|name| name.to_string_lossy().into_owned())
}

/// `Path::components`.
#[verifier::external_body]
pub(crate) fn components(path: &str) -> (parts: Vec<String>)
    ensures
        views(parts@) == path_components(path@),
{
    std::path::Path::new(path)
        .components()
        .map(|part| part.as_os_str().to_string_lossy().into_owned())
        .collect()
}

/// `Path::ends_with`.
#[verifier::external_body]
pub(crate) fn ends_with(path: &str, child: &str) -> (ends: bool)
    ensures
        ends == path_ends_with(path@, child@),
{
    std::path::Path::new(path).ends_with(child)
}

/// `Path::join`.
#[verifier::external_body]
pub(crate) fn join(base: &str, path: &str) -> (joined: String)
    ensures
        joined@ == path_join(base@, path@),
{
    std::path::Path::new(base).join(path).to_string_lossy().into_owned()
}

/// `Path::strip_prefix`.
#[verifier::external_body]
pub(crate) fn strip_prefix(path: &str, base: &str) -> (rest: Option<String>)
    ensures
        option_view(rest) == path_strip_prefix(path@, base@),
{
    std::path::Path::new(path).strip_prefix(base).ok().map(|rest| rest.to_string_lossy().into_owned())
}

/// `Path`'s `==`.
#[verifier::external_body]
pub(crate) fn paths_equal(a: &str, b: &str) -> (equal: bool)
    ensures
        equal == path_eq(a@, b@),
{
    std::path::Path::new(a) == std::path::Path::new(b)
}

/// Whether two texts name the same path.
pub fn is_same_path(a: &str, b: &str) -> (same: bool)
    ensures
        same == same_path(a@, b@),
{
    a.eq(b) || paths_equal(a, b)
}

} // verus!
