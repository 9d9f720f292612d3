//! Path handling, done by `std::path` and the `dirs` crate on plain strings.
use vstd::prelude::*;

use crate::text::{is_ascii_alphanumeric, starts_with};

verus! {

/// What `Path::file_name` returns for a path.
pub uninterp spec fn file_name_of(p: Seq<char>) -> Option<Seq<char>>;

/// What `Path::file_stem` returns for a path.
pub uninterp spec fn std_file_stem(p: Seq<char>) -> Option<Seq<char>>;

/// A path that is one plain file name: non-empty, of ASCII letters, digits, `_` and
/// `-` only (so with no separator and no dot).
pub open spec fn is_plain_name(p: Seq<char>) -> bool {
    &&& p.len() > 0
    &&& forall|i: int|
        0 <= i < p.len() ==> is_ascii_alphanumeric(#[trigger] p[i]) || p[i] == '_' || p[i] == '-'
}

/// A single path component as a file name can be: non-empty, without `/`, and neither
/// `.` nor `..`.
pub open spec fn is_component(x: Seq<char>) -> bool {
    &&& x.len() > 0
    &&& !x.contains('/')
    &&& x != "."@
    &&& x != ".."@
}

/// The file stem of a path: the path itself when it is a plain file name, what std
/// gives otherwise.
pub open spec fn file_stem_of(p: Seq<char>) -> Option<Seq<char>> {
    if is_plain_name(p) {
        Some(p)
    } else {
        std_file_stem(p)
    }
}

/// What `Path::extension` returns for a path.
pub uninterp spec fn extension_of(p: Seq<char>) -> Option<Seq<char>>;

/// What `Path::parent` returns for a path.
pub uninterp spec fn parent_of(p: Seq<char>) -> Option<Seq<char>>;

/// What `Path::join` returns for two paths.
pub uninterp spec fn joined(base: Seq<char>, rest: Seq<char>) -> Seq<char>;

pub open spec fn opt_view(o: Option<String>) -> Option<Seq<char>> {
    match o {
        Some(s) => Some(s@),
        None => None,
    }
}

/// The borrowed contents of an optional string.
pub fn opt_as_str(o: &Option<String>) -> (r: Option<&str>)
    ensures
        match r {
            Some(s) => opt_view(*o) == Some(s@),
            None => opt_view(*o) is None,
        },
{
    match o {
        Some(s) => Some(s.as_str()),
        None => None,
    }
}

/// `Path::file_name`: claimed to return `file_name_of` of the path, which std documents
/// as the path's final component when it is a normal one, so a component.
#[verifier::external_body]
pub(crate) fn file_name(p: &str) -> (r: Option<String>)
    ensures
        opt_view(r) == file_name_of(p@),
        r matches Some(n) ==> is_component(n@),
{
    std::path::Path::new(p).file_name().and_then(|s| s.to_str()).map(String::from)
}

/// `Path::file_stem`: claimed to return `std_file_stem` of the path. By std's
/// documentation a path that is a single name without a dot has that name as its file
/// name and as its stem, and a stem is never empty (it is the whole file name, or the
/// part before its last dot when that dot is not the leading one).
#[verifier::external_body]
pub(crate) fn file_stem(p: &str) -> (r: Option<String>)
    ensures
        opt_view(r) == std_file_stem(p@),
        is_plain_name(p@) ==> opt_view(r) == Some(p@),
        r matches Some(st) ==> st@.len() > 0,
{
    std::path::Path::new(p).file_stem().and_then(|s| s.to_str()).map(String::from)
}

/// `Path::extension`: claimed to return `extension_of` of the path.
#[verifier::external_body]
pub(crate) fn extension(p: &str) -> (r: Option<String>)
    ensures
        opt_view(r) == extension_of(p@),
{
    std::path::Path::new(p).extension().and_then(|s| s.to_str()).map(String::from)
}

/// `Path::parent`: claimed to return `parent_of` of the path.
#[verifier::external_body]
pub(crate) fn parent(p: &str) -> (r: Option<String>)
    ensures
        opt_view(r) == parent_of(p@),
{
    std::path::Path::new(p).parent().and_then(|s| s.to_str()).map(String::from)
}

/// `Path::join`: claimed to return `joined` of the two paths, which is `rest` itself when
/// `rest` is absolute (std documents that an absolute path replaces the base), and
/// whose file name is `rest` when `rest` is a single component (a relative path is
/// adjoined as the new final component). How the two are written together is left
/// unsaid: std compares paths by components and does not document the text.
#[verifier::external_body]
pub(crate) fn join(base: &str, rest: &str) -> (r: String)
    ensures
        r@ == joined(base@, rest@),
        is_component(rest@) ==> file_name_of(r@) == Some(rest@),
        starts_with(rest@, seq!['/']) ==> r@ == rest@,
{
    std::path::Path::new(base).join(rest).to_string_lossy().into_owned()
}

/// `dirs::home_dir`: the user's home directory, which depends on the environment; nothing
/// is claimed of it.
#[verifier::external_body]
pub(crate) fn home_dir() -> (r: Option<String>) {
    dirs::home_dir().map(|p| p.to_string_lossy().into_owned())
}

/// `dirs::video_dir`: the user's video directory, which depends on the environment;
/// nothing is claimed of it.
#[verifier::external_body]
pub(crate) fn video_dir() -> (r: Option<String>) {
    dirs::video_dir().map(|p| p.to_string_lossy().into_owned())
}

/// `dirs::config_dir`: the user's configuration directory, which depends on the
/// environment; nothing is claimed of it.
#[verifier::external_body]
pub(crate) fn config_dir() -> (r: Option<String>) {
    dirs::config_dir().map(|p| p.to_string_lossy().into_owned())
}

} // verus!
