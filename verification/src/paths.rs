//! The boundary to `std::path`. Paths are held as strings; the functions
//! here split and join them as `std::path::Path` does, by the text alone
//! and without looking at the file system. Their contracts are not proved.

use vstd::prelude::*;
use std::path::Path;

verus! {

/// What `Path::extension` yields for a path.
pub uninterp spec fn path_extension(path: Seq<char>) -> Option<Seq<char>>;

/// What `Path::parent` yields for a path.
pub uninterp spec fn path_parent(path: Seq<char>) -> Option<Seq<char>>;

/// What `Path::file_name` yields for a path.
pub uninterp spec fn path_file_name(path: Seq<char>) -> Option<Seq<char>>;

/// What `Path::join` makes of a path and a second one adjoined to it.
pub uninterp spec fn path_join(path: Seq<char>, tail: Seq<char>) -> Seq<char>;

/// What `Path::strip_prefix` leaves of a path below `base`, or `None`
/// where `base` is no prefix of it.
pub uninterp spec fn path_strip_prefix(path: Seq<char>, base: Seq<char>) -> Option<Seq<char>>;

/// `Path::extension`: the part of the file name after its last dot.
#[verifier::external_body]
pub(crate) fn extension_of(path: &str) -> (extension: Option<String>)
    ensures
        match extension {
            Some(text) => path_extension(path@) == Some(text@),
            None => path_extension(path@) is None,
        },
{
    match Path::new(path).extension() {
        Some(text) => Some(text.to_string_lossy().into_owned()),
        None => None,
    }
}

/// `Path::parent`: the path without its last component.
#[verifier::external_body]
pub(crate) fn parent_of(path: &str) -> (parent: Option<String>)
    ensures
        match parent {
            Some(text) => path_parent(path@) == Some(text@),
            None => path_parent(path@) is None,
        },
{
    match Path::new(path).parent() {
        Some(text) => Some(text.to_string_lossy().into_owned()),
        None => None,
    }
}

/// `Path::file_name`: the last component of the path, if it is a name.
#[verifier::external_body]
pub(crate) fn file_name_of(path: &str) -> (name: Option<String>)
    ensures
        match name {
            Some(text) => path_file_name(path@) == Some(text@),
            None => path_file_name(path@) is None,
        },
{
    match Path::new(path).file_name() {
        Some(text) => Some(text.to_string_lossy().into_owned()),
        None => None,
    }
}

/// `Path::join`: `tail` adjoined to `path`.
#[verifier::external_body]
pub(crate) fn join(path: &str, tail: &str) -> (joined: String)
    ensures
        joined@ == path_join(path@, tail@),
{
    Path::new(path).join(tail).to_string_lossy().into_owned()
}

/// `Path::strip_prefix`: the path relative to `base`.
#[verifier::external_body]
pub(crate) fn strip_prefix(path: &str, base: &str) -> (rest: Option<String>)
    ensures
        match rest {
            Some(text) => path_strip_prefix(path@, base@) == Some(text@),
            None => path_strip_prefix(path@, base@) is None,
        },
{
    match Path::new(path).strip_prefix(base) {
        Ok(text) => Some(text.to_string_lossy().into_owned()),
        Err(_) => None,
    }
}

} // verus!
