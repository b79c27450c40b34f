//! File-name parts of a path, as `std::path::Path` splits them.
use vstd::prelude::*;

verus! {

/// The extension that `Path::extension` finds in a path.
pub uninterp spec fn extension_of(path: Seq<char>) -> Option<Seq<char>>;

/// The file stem that `Path::file_stem` finds in a path.
pub uninterp spec fn stem_of(path: Seq<char>) -> Option<Seq<char>>;

/// Relies on std::path::Path::extension: the text after the last `.` of the
/// file name, if any.
#[verifier::external_body]
fn path_extension(path: &str) -> (r: Option<String>)
    ensures
        match r {
            Some(e) => extension_of(path@) == Some(e@),
            None => extension_of(path@) is None,
        },
{
    match std::path::Path::new(path).extension() {
        Some(e) => e.to_str().map(String::from),
        None => None,
    }
}

/// Relies on std::path::Path::file_stem: the file name without its extension.
#[verifier::external_body]
fn path_stem(path: &str) -> (r: Option<String>)
    ensures
        match r {
            Some(e) => stem_of(path@) == Some(e@),
            None => stem_of(path@) is None,
        },
{
    match std::path::Path::new(path).file_stem() {
        Some(e) => e.to_str().map(String::from),
        None => None,
    }
}

/// The extension of the file that `path` names.
pub fn get_file_extension(path: &str) -> (r: Option<String>)
    ensures
        match r {
            Some(e) => extension_of(path@) == Some(e@),
            None => extension_of(path@) is None,
        },
{
    path_extension(path)
}

/// The name of the file that `path` names, without its extension.
pub fn get_file_stem(path: &str) -> (r: Option<String>)
    ensures
        match r {
            Some(e) => stem_of(path@) == Some(e@),
            None => stem_of(path@) is None,
        },
{
    path_stem(path)
}

} // verus!
