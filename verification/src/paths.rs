//! File-system paths, handled as text.
//!
//! How a path splits into components depends on the platform the crate is built for, so each
//! question asked of a path goes to `std::path::Path` and its answer is named here; the
//! library's contracts are stated over these names. A name stands for `std`'s answer on that
//! build's platform, where the same text always gets the same answer.
use vstd::prelude::*;
use crate::text::is_unicode_space;

verus! {

/// An optional string taken by its view.
pub open spec fn opt_view(o: Option<String>) -> Option<Seq<char>> {
    match o {
        Some(s) => Some(s@),
        None => None,
    }
}

/// What `Path::extension` gives for `path`.
pub uninterp spec fn path_extension(path: Seq<char>) -> Option<Seq<char>>;

/// What `Path::file_name` gives for `path`.
pub uninterp spec fn path_file_name(path: Seq<char>) -> Option<Seq<char>>;

/// What `Path::file_stem` gives for `path`.
pub uninterp spec fn path_file_stem(path: Seq<char>) -> Option<Seq<char>>;

/// What `Path::parent` gives for `path`.
pub uninterp spec fn path_parent(path: Seq<char>) -> Option<Seq<char>>;

/// What `Path::strip_prefix` gives for `path` with prefix `base`, when it succeeds.
pub uninterp spec fn path_strip_prefix(path: Seq<char>, base: Seq<char>) -> Option<Seq<char>>;

/// What `Path::is_absolute` gives for `path`.
pub uninterp spec fn path_is_absolute(path: Seq<char>) -> bool;

/// Whether `path` has the shape of a Windows drive prefix: `:` as its second char.
pub open spec fn drive_relative_form(path: Seq<char>) -> bool {
    path.len() >= 2 && path[1] == ':'
}

/// What `Path::join` gives for `base` joined with `path`.
pub uninterp spec fn path_join(base: Seq<char>, path: Seq<char>) -> Seq<char>;

/// What `==` on two `Path`s gives (it compares their components).
pub uninterp spec fn path_eq(a: Seq<char>, b: Seq<char>) -> bool;

/// The path rebuilt from `Path::components` (drops `.` and repeated separators).
pub uninterp spec fn path_components_rebuilt(path: Seq<char>) -> Seq<char>;

/// `Path::extension`, as text: the part of the file name after its last `.`, if any.
#[verifier::external_body]
pub(crate) fn extension_of(path: &str) -> (r: Option<String>)
    ensures
        opt_view(r) == path_extension(path@),
{
    std::path::Path::new(path).extension().and_then(|v| v.to_str()).map(|v| v.to_string())
}

/// `Path::file_name`, as text: the last component, unless it is `..`.
#[verifier::external_body]
pub(crate) fn file_name_of(path: &str) -> (r: Option<String>)
    ensures
        opt_view(r) == path_file_name(path@),
{
    std::path::Path::new(path).file_name().and_then(|v| v.to_str()).map(|v| v.to_string())
}

/// `Path::file_stem`, as text: the file name without its extension.
#[verifier::external_body]
pub(crate) fn file_stem_of(path: &str) -> (r: Option<String>)
    ensures
        opt_view(r) == path_file_stem(path@),
{
    std::path::Path::new(path).file_stem().and_then(|v| v.to_str()).map(|v| v.to_string())
}

/// `Path::parent`, as text.
#[verifier::external_body]
pub(crate) fn parent_of(path: &str) -> (r: Option<String>)
    ensures
        opt_view(r) == path_parent(path@),
{
    std::path::Path::new(path).parent().and_then(|v| v.to_str()).map(|v| v.to_string())
}

/// `Path::strip_prefix`, as text: `None` where `base` is not a prefix of `path`.
#[verifier::external_body]
pub(crate) fn strip_prefix_of(path: &str, base: &str) -> (r: Option<String>)
    ensures
        opt_view(r) == path_strip_prefix(path@, base@),
{
    std::path::Path::new(path).strip_prefix(base).ok().and_then(|v| v.to_str()).map(
        |v| v.to_string(),
    )
}

/// `Path::is_absolute`.
#[verifier::external_body]
pub(crate) fn is_absolute_path(path: &str) -> (r: bool)
    ensures
        r == path_is_absolute(path@),
{
    std::path::Path::new(path).is_absolute()
}

/// `Path::join`, as text. Joining onto an absolute base gives an absolute path: a relative
/// `path` is appended under the base's root, and an absolute one replaces it. The one
/// exception is a Windows drive-relative `path` such as `D:x`, which replaces the base
/// whole; such a path has `:` as its second char, and that case is left out.
#[verifier::external_body]
pub(crate) fn join_path(base: &str, path: &str) -> (r: String)
    ensures
        r@ == path_join(base@, path@),
        path_is_absolute(base@) && !drive_relative_form(path@) ==> path_is_absolute(r@),
{
    std::path::Path::new(base).join(path).to_string_lossy().into_owned()
}

/// `==` on `Path`s: equal component by component. Two equal texts name equal paths.
#[verifier::external_body]
pub(crate) fn same_path(a: &str, b: &str) -> (r: bool)
    ensures
        r == path_eq(a@, b@),
        a@ == b@ ==> r,
{
    std::path::Path::new(a) == std::path::Path::new(b)
}

/// `Path::components` collected back into a path, as text. `components` drops `.` (but a
/// leading one), repeated separators and a trailing separator and keeps the prefix and the
/// root, so the path it rebuilds has nothing left to drop: rebuilding it again gives it back,
/// and it is absolute where `path` was. An absolute path begins with its root or its prefix
/// (a separator, or a drive letter), never with white space.
#[verifier::external_body]
pub(crate) fn rebuilt_from_components(path: &str) -> (r: String)
    ensures
        r@ == path_components_rebuilt(path@),
        path_components_rebuilt(r@) == r@,
        path_is_absolute(path@) ==> path_is_absolute(r@),
        path_is_absolute(r@) ==> r@.len() > 0 && !is_unicode_space(r@[0]),
{
    std::path::Path::new(path).components().collect::<std::path::PathBuf>().to_string_lossy().into_owned()
}

} // verus!
