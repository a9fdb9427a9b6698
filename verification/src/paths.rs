//! File system paths, held as strings, and the three operations on them
//! that the library takes from `std::path`.

use vstd::prelude::*;

verus! {

/// What `Path::join` gives for the path `base` adjoined with `part`, as text.
pub uninterp spec fn joined_path(base: Seq<char>, part: Seq<char>) -> Seq<char>;

/// What `Path::parent` gives for the path `path`, as text: `None` for a
/// path that ends in a root or a prefix, or that is empty.
pub uninterp spec fn parent_path(path: Seq<char>) -> Option<Seq<char>>;

/// Whether `Path`'s `==` holds between the paths `a` and `b`; it compares
/// them component by component, so `a/b` and `a//b/` are the same path.
pub uninterp spec fn same_path(a: Seq<char>, b: Seq<char>) -> bool;

/// The name of the manifest file of a Cargo package or workspace.
pub open spec fn manifest_file_name() -> Seq<char> {
    seq!['C', 'a', 'r', 'g', 'o', '.', 't', 'o', 'm', 'l']
}

/// The path of the manifest file in the directory `dir`.
pub open spec fn manifest_in(dir: Seq<char>) -> Seq<char> {
    joined_path(dir, manifest_file_name())
}

/// Calls `std::path::Path::join`; the result is named `joined_path` of the
/// two arguments. Both arguments are UTF-8, so the joined path is too and the
/// text conversion loses nothing.
#[verifier::external_body]
pub(crate) fn join_path(base: &str, part: &str) -> (joined: String)
    ensures
        joined@ == joined_path(base@, part@),
{
    std::path::Path::new(base).join(part).to_string_lossy().into_owned()
}

/// Calls `std::path::Path::parent`; the result is named `parent_path` of the
/// argument. The parent of a UTF-8 path is a prefix of it, so UTF-8 as well.
#[verifier::external_body]
pub(crate) fn path_parent(path: &str) -> (parent: Option<String>)
    ensures
        match parent {
            Some(p) => parent_path(path@) == Some(p@),
            None => parent_path(path@) is None,
        },
{
    match std::path::Path::new(path).parent() {
        Some(p) => Some(p.to_string_lossy().into_owned()),
        None => None,
    }
}

/// Calls `==` on two `std::path::Path` values; the result is named
/// `same_path` of the two arguments.
#[verifier::external_body]
pub(crate) fn paths_equal(a: &str, b: &str) -> (same: bool)
    ensures
        same == same_path(a@, b@),
{
    std::path::Path::new(a) == std::path::Path::new(b)
}

/// The manifest path in the directory `dir`.
pub(crate) fn manifest_path_in(dir: &str) -> (path: String)
    ensures
        path@ == manifest_in(dir@),
{
    let name = "Cargo.toml";
    proof {
        reveal_strlit("Cargo.toml");
        assert(name@ =~= manifest_file_name());
    }
    join_path(dir, name)
}

} // verus!
