use vstd::prelude::*;

use crate::text::{chars_of, slice_chars, starts_with, starts_with_exec, string_of};

verus! {

// ---------------------------------------------------------------------------
// std's paths, on text
// ---------------------------------------------------------------------------

/// What `Path::parent` returns for a path.
pub uninterp spec fn parent_of(path: Seq<char>) -> Option<Seq<char>>;

/// What `Path::file_name` returns for a path.
pub uninterp spec fn file_name_of(path: Seq<char>) -> Option<Seq<char>>;

/// What `Path::strip_prefix` returns for a path and a base.
pub uninterp spec fn strip_prefix_of(path: Seq<char>, base: Seq<char>) -> Option<Seq<char>>;

/// What `Path::join` returns for a base and a path.
pub uninterp spec fn joined(base: Seq<char>, path: Seq<char>) -> Seq<char>;

/// What `Path::extension` returns for a path.
pub uninterp spec fn extension_of(path: Seq<char>) -> Option<Seq<char>>;

/// What `Path::is_absolute` returns for a path.
pub uninterp spec fn is_absolute_of(path: Seq<char>) -> bool;

/// Whether `Path`'s `==` holds between two paths (it compares their
/// components).
pub uninterp spec fn paths_equal(a: Seq<char>, b: Seq<char>) -> bool;

pub open spec fn opt_seq(o: Option<String>) -> Option<Seq<char>> {
    match o {
        Some(s) => Some(s@),
        None => None,
    }
}

/// `Path::parent`: the path without its final component, or `None` when it
/// ends in a root or is empty.
#[verifier::external_body]
pub(crate) fn path_parent(path: &str) -> (res: Option<String>)
    ensures
        opt_seq(res) == parent_of(path@),
{
    std::path::Path::new(path).parent().map(|p| p.to_string_lossy().into_owned())
}

/// `Path::file_name`: the final component of the path when it is a normal
/// name, else `None`.
#[verifier::external_body]
pub(crate) fn path_file_name(path: &str) -> (res: Option<String>)
    ensures
        opt_seq(res) == file_name_of(path@),
{
    std::path::Path::new(path).file_name().map(|n| n.to_string_lossy().into_owned())
}

/// `Path::strip_prefix`: the rest of `path` after the components of `base`,
/// or `None` when `base` is not a prefix of it.
#[verifier::external_body]
pub(crate) fn path_strip_prefix(path: &str, base: &str) -> (res: Option<String>)
    ensures
        opt_seq(res) == strip_prefix_of(path@, base@),
{
    std::path::Path::new(path).strip_prefix(base).ok().map(|p| p.to_string_lossy().into_owned())
}

/// `Path::join`: `path` adjoined to `base`.  As documented, an absolute
/// `path` replaces `base`.
#[verifier::external_body]
pub(crate) fn path_join(base: &str, path: &str) -> (res: String)
    ensures
        res@ == joined(base@, path@),
        is_absolute_of(path@) ==> res@ == path@,
{
    std::path::Path::new(base).join(path).to_string_lossy().into_owned()
}

/// `Path::extension`: the part of the file name after its last dot, if
/// the file name has one that is not its first character.
#[verifier::external_body]
pub(crate) fn path_extension(path: &str) -> (res: Option<String>)
    ensures
        opt_seq(res) == extension_of(path@),
{
    std::path::Path::new(path).extension().map(|e| e.to_string_lossy().into_owned())
}

/// `Path::is_absolute`.
#[verifier::external_body]
pub(crate) fn path_is_absolute(path: &str) -> (res: bool)
    ensures
        res == is_absolute_of(path@),
{
    std::path::Path::new(path).is_absolute()
}

/// `Path`'s `==`: the two paths have the same components.
#[verifier::external_body]
pub(crate) fn same_path(a: &str, b: &str) -> (res: bool)
    ensures
        res == paths_equal(a@, b@),
{
    std::path::Path::new(a) == std::path::Path::new(b)
}

// ---------------------------------------------------------------------------
// Project and configuration paths
// ---------------------------------------------------------------------------

pub open spec fn project_root_spec(manifest_dir: Seq<char>) -> Seq<char> {
    match parent_of(manifest_dir) {
        Some(p) => p,
        None => manifest_dir,
    }
}

/// The project root: the parent of the application crate's directory, or
/// that directory itself when it has no parent.
pub fn project_root(manifest_dir: &str) -> (root: String)
    ensures
        root@ == project_root_spec(manifest_dir@),
{
    match path_parent(manifest_dir) {
        Some(p) => p,
        None => string_of(&chars_of(manifest_dir)),
    }
}

pub open spec fn local_dir_spec(manifest_dir: Seq<char>) -> Seq<char> {
    joined(project_root_spec(manifest_dir), "local"@)
}

/// The `local` directory under the project root.
pub fn local_dir(manifest_dir: &str) -> (dir: String)
    ensures
        dir@ == local_dir_spec(manifest_dir@),
{
    let root = project_root(manifest_dir);
    path_join(root.as_str(), "local")
}

/// A configured path with a leading `~` standing for the home directory:
/// `~` alone is the home directory, `~/rest` is `rest` under it; without a
/// home directory, or for any other text, the text itself.
pub open spec fn expand_home_spec(value: Seq<char>, home: Option<Seq<char>>) -> Seq<char> {
    match home {
        Some(h) => if value == "~"@ {
            h
        } else if starts_with(value, "~/"@) {
            joined(h, value.skip(2))
        } else {
            value
        },
        None => value,
    }
}

pub open spec fn opt_str(o: Option<&str>) -> Option<Seq<char>> {
    match o {
        Some(s) => Some(s@),
        None => None,
    }
}

/// Expands a leading `~` in a configured path (see `expand_home_spec`).
pub fn expand_home_path(value: &str, home: Option<&str>) -> (path: String)
    ensures
        path@ == expand_home_spec(value@, opt_str(home)),
{
    let v = chars_of(value);
    match home {
        Some(h) => {
            let tilde = chars_of("~");
            let tilde_slash = chars_of("~/");
            proof {
                reveal_strlit("~/");
            }
            if crate::text::chars_equal(&v, &tilde) {
                string_of(&chars_of(h))
            } else if starts_with_exec(&v, &tilde_slash) {
                let rest = string_of(&slice_chars(&v, 2, v.len()));
                assert(rest@ =~= value@.skip(2));
                path_join(h, rest.as_str())
            } else {
                string_of(&v)
            }
        },
        None => string_of(&v),
    }
}

pub open spec fn resolve_config_spec(value: Seq<char>, home: Option<Seq<char>>, manifest_dir: Seq<char>) -> Seq<char> {
    let path = expand_home_spec(value, home);
    if is_absolute_of(path) {
        path
    } else {
        joined(project_root_spec(manifest_dir), path)
    }
}

/// A configured path, with `~` expanded, taken relative to the project
/// root unless it is absolute.
pub fn resolve_config_path(value: &str, home: Option<&str>, manifest_dir: &str) -> (path: String)
    ensures
        path@ == resolve_config_spec(value@, opt_str(home), manifest_dir@),
{
    let path = expand_home_path(value, home);
    if path_is_absolute(path.as_str()) {
        path
    } else {
        let root = project_root(manifest_dir);
        path_join(root.as_str(), path.as_str())
    }
}

} // verus!
