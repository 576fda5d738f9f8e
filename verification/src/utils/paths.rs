//! What `std::path` reads out of a path held as text.
use vstd::prelude::*;

verus! {

/// The raw bytes of the extension of the path's file name (`Path::extension`), if any.
pub uninterp spec fn file_extension(path: Seq<char>) -> Option<Seq<u8>>;

/// The file name of the path (`Path::file_name`), read leniently as text, if any.
pub uninterp spec fn file_name(path: Seq<char>) -> Option<Seq<char>>;

/// The path `base` joined with `rest` (`Path::join`), read leniently as text.
pub uninterp spec fn joined_path(base: Seq<char>, rest: Seq<char>) -> Seq<char>;

/// The rest of `path` after the leading components that make up `base`
/// (`Path::strip_prefix`), as text, if `base` is a prefix of it.
pub uninterp spec fn stripped_path(path: Seq<char>, base: Seq<char>) -> Option<Seq<char>>;

/// The parent of the path (`Path::parent`), read leniently as text, if any.
pub uninterp spec fn parent_path(path: Seq<char>) -> Option<Seq<char>>;

/// The number of components of the path (`Path::components`).
pub uninterp spec fn component_count(path: Seq<char>) -> nat;

/// Calls `Path::extension` and takes the raw bytes of the extension.
/// Trusted: the result is a function of the path's text alone.
#[verifier::external_body]
pub(crate) fn path_extension(path: &str) -> (res: Option<Vec<u8>>)
    ensures
        match res {
            Some(b) => file_extension(path@) == Some(b@),
            None => file_extension(path@) is None,
        },
{
    match std::path::Path::new(path).extension() {
        Some(e) => Some(e.as_encoded_bytes().to_vec()),
        None => None,
    }
}

/// Calls `Path::file_name` and reads the name leniently as text.
/// Trusted: the result is a function of the path's text alone.
#[verifier::external_body]
pub(crate) fn path_file_name(path: &str) -> (res: Option<String>)
    ensures
        match res {
            Some(n) => file_name(path@) == Some(n@),
            None => file_name(path@) is None,
        },
{
    match std::path::Path::new(path).file_name() {
        Some(n) => Some(n.to_string_lossy().into_owned()),
        None => None,
    }
}

/// Calls `Path::join` and reads the result leniently as text.
/// Trusted: the result is a function of the two texts alone.
#[verifier::external_body]
pub(crate) fn path_join(base: &str, rest: &str) -> (res: String)
    ensures
        res@ == joined_path(base@, rest@),
{
    std::path::Path::new(base).join(rest).to_string_lossy().into_owned()
}

/// Calls `Path::strip_prefix` and writes the rest as `Path::display` does.
/// Trusted: the result is a function of the two texts alone.
#[verifier::external_body]
pub(crate) fn path_strip_prefix(path: &str, base: &str) -> (res: Option<String>)
    ensures
        match res {
            Some(r) => stripped_path(path@, base@) == Some(r@),
            None => stripped_path(path@, base@) is None,
        },
{
    match std::path::Path::new(path).strip_prefix(base) {
        Ok(r) => Some(r.display().to_string()),
        Err(_) => None,
    }
}

/// Calls `Path::parent` and reads the parent leniently as text.
/// Trusted: the result is a function of the path's text alone.
#[verifier::external_body]
pub(crate) fn path_parent(path: &str) -> (res: Option<String>)
    ensures
        match res {
            Some(p) => parent_path(path@) == Some(p@),
            None => parent_path(path@) is None,
        },
{
    match std::path::Path::new(path).parent() {
        Some(p) => Some(p.to_string_lossy().into_owned()),
        None => None,
    }
}

/// Calls `Path::components` and counts them.
/// Trusted: the count is a function of the path's text alone.
#[verifier::external_body]
pub(crate) fn path_component_count(path: &str) -> (res: usize)
    ensures
        res as nat == component_count(path@),
{
    std::path::Path::new(path).components().count()
}

} // verus!
