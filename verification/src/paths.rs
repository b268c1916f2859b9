use std::path::Path;
use vstd::prelude::*;

verus! {

/// The position of the last `.` in `name`, or -1 where there is none.
pub open spec fn last_dot(name: Seq<char>) -> int
    decreases name.len(),
{
    if name.len() == 0 {
        -1
    } else if name.last() == '.' {
        name.len() - 1
    } else {
        last_dot(name.drop_last())
    }
}

/// The extension of a file name, as std's documentation of `Path::extension`
/// defines it: `None` where the name has no `.`, or only one at its start;
/// otherwise the text after the last `.`.
pub open spec fn extension_of_file_name(name: Seq<char>) -> Option<Seq<char>> {
    let k = last_dot(name);
    if k <= 0 {
        None
    } else {
        Some(name.skip(k + 1))
    }
}

/// The extension of a path: that of its file name, and `None` where it has
/// no file name.
pub open spec fn path_extension(path: Seq<char>) -> Option<Seq<char>> {
    match path_file_name(path) {
        Some(name) => extension_of_file_name(name),
        None => None,
    }
}

/// The last component of a path, as std's `Path::file_name` finds it, as
/// text; `None` where the path ends in `..` or is a root or empty.
pub uninterp spec fn path_file_name(path: Seq<char>) -> Option<Seq<char>>;

/// The path `name` appended to `base`, as std's `Path::join` builds it, as text.
pub uninterp spec fn path_join(base: Seq<char>, name: Seq<char>) -> Seq<char>;

/// Whether two paths have the same components, as std's `Path` equality decides.
pub uninterp spec fn path_eq(a: Seq<char>, b: Seq<char>) -> bool;

/// Calls std's `Path::extension`. Trusted, as std documents it: `None` where
/// the path has no file name, where the file name holds no `.`, or where its
/// only `.` is its first character; otherwise the text after the file name's
/// last `.` (`path_extension`).
#[verifier::external_body]
pub(crate) fn extension_of(path: &str) -> (res: Option<String>)
    ensures
        res is Some <==> path_extension(path@) is Some,
        res matches Some(e) ==> path_extension(path@) == Some(e@),
{
    match Path::new(path).extension() {
        Some(e) => Some(e.to_string_lossy().into_owned()),
        None => None,
    }
}

/// Calls std's `Path::file_name`. Trusted: the result is the named result
/// `path_file_name` of the path.
#[verifier::external_body]
pub(crate) fn file_name_of(path: &str) -> (res: Option<String>)
    ensures
        res is Some <==> path_file_name(path@) is Some,
        res matches Some(e) ==> path_file_name(path@) == Some(e@),
{
    match Path::new(path).file_name() {
        Some(e) => Some(e.to_string_lossy().into_owned()),
        None => None,
    }
}

/// Calls std's `Path::join`. Trusted: the result is the named result
/// `path_join` of the two paths.
#[verifier::external_body]
pub(crate) fn join(base: &str, name: &str) -> (res: String)
    ensures
        res@ == path_join(base@, name@),
{
    Path::new(base).join(name).to_string_lossy().into_owned()
}

/// Calls std's `==` on two `Path`s. Trusted: the result is the named result
/// `path_eq` of the two paths.
#[verifier::external_body]
pub(crate) fn same_path(a: &str, b: &str) -> (res: bool)
    ensures
        res == path_eq(a@, b@),
{
    Path::new(a) == Path::new(b)
}

} // verus!
