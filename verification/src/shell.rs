//! The synced folder: how the explorer reaches it, and where it is when the user chose one.
use vstd::prelude::*;
use crate::paths::{
    drive_relative_form, is_absolute_path, join_path, opt_view, path_components_rebuilt,
    path_is_absolute, path_join, rebuilt_from_components,
};
use crate::scan::opt_str_view;
use crate::text::{chars_of, is_unicode_space, trim, trim_chars, trim_end};
use vstd::string::StringExecFns;

verus! {

/// The class id under which the synced folder is registered with the Windows shell.
pub open spec fn shell_clsid() -> Seq<char> {
    "{E7B3A1D4-5F2C-4E89-9B6A-3D8F1C2E5A0B}"@
}

/// The shell URI that opens the synced folder in the explorer.
pub fn shell_uri() -> (r: String)
    ensures
        r@ == "shell:::"@ + shell_clsid(),
{
    let mut r = "shell:::".to_owned();
    r.append("{E7B3A1D4-5F2C-4E89-9B6A-3D8F1C2E5A0B}");
    r
}

/// A chosen folder made absolute against `base` (the working directory) and rebuilt from its
/// components.
pub open spec fn normalized_target(path: Seq<char>, base: Seq<char>) -> Seq<char> {
    path_components_rebuilt(
        if path_is_absolute(path) {
            path
        } else {
            path_join(base, path)
        },
    )
}

/// What is read back from a saved folder choice: nothing where none is saved or it is blank,
/// else the choice normalised against `base`.
pub open spec fn saved_target_spec(saved: Option<Seq<char>>, base: Seq<char>) -> Option<Seq<char>> {
    match saved {
        None => None,
        Some(s) => if trim(s).len() == 0 {
            None
        } else {
            Some(normalized_target(s, base))
        },
    }
}

proof fn lemma_trim_keeps_leading_text(s: Seq<char>)
    requires
        s.len() > 0,
        !is_unicode_space(s[0]),
    ensures
        trim(s).len() > 0,
{
    lemma_trim_end_keeps_first(s);
}

proof fn lemma_trim_end_keeps_first(s: Seq<char>)
    requires
        s.len() > 0,
        !is_unicode_space(s[0]),
    ensures
        trim_end(s).len() > 0,
    decreases s.len(),
{
    if s.len() > 1 && is_unicode_space(s.last()) {
        lemma_trim_end_keeps_first(s.drop_last());
    }
}

/// Makes a chosen folder absolute against `base` and normalises its components.
///
/// The folder it returns reads back unchanged: saved and read back, under any working
/// directory, an absolute result gives itself again. The result is absolute when the chosen
/// folder is, and when a relative choice is joined onto an absolute `base` (all but a Windows
/// drive-relative choice such as `D:x`), so such a choice always reads back as itself.
pub fn normalize_target_folder(path: &str, base: &str) -> (r: String)
    ensures
        r@ == normalized_target(path@, base@),
        path_is_absolute(path@) ==> path_is_absolute(r@),
        path_is_absolute(base@) && !drive_relative_form(path@) ==> path_is_absolute(r@),
        path_is_absolute(r@) ==> forall|later_base: Seq<char>|
            #[trigger] saved_target_spec(Some(r@), later_base) == Some(r@),
        path_is_absolute(path@) || (path_is_absolute(base@) && !drive_relative_form(path@))
            ==> forall|later_base: Seq<char>|
            #[trigger] saved_target_spec(Some(r@), later_base) == Some(r@),
{
    let r = if is_absolute_path(path) {
        rebuilt_from_components(path)
    } else {
        let joined = join_path(base, path);
        rebuilt_from_components(joined.as_str())
    };
    proof {
        if path_is_absolute(r@) {
            lemma_trim_keeps_leading_text(r@);
        }
    }
    r
}

/// The saved folder choice, normalised, unless none is saved or it is blank.
pub fn saved_target_folder(saved: Option<&str>, base: &str) -> (r: Option<String>)
    ensures
        opt_view(r) == saved_target_spec(opt_str_view(saved), base@),
{
    match saved {
        None => None,
        Some(s) => {
            if trim_chars(&chars_of(s)).len() == 0 {
                None
            } else {
                Some(normalize_target_folder(s, base))
            }
        },
    }
}

} // verus!
