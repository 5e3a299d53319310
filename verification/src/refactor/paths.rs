//! Target-file checks for `act refactor` (Unix paths).
//!
//! The target must be relative to the workspace root and must not climb out
//! of it with `..`; once resolved on disk it must still lie inside the root.

use vstd::prelude::*;

use crate::errors::DispatchError;
use crate::structured_event::{join_path, path_join};
use crate::path_text::{named_components, normal_pieces, path_pieces, split_pieces};
use crate::text::{join_strings, joined, str_eq, string_views};

verus! {

/// A path that starts at the root.
pub open spec fn is_absolute_path(p: Seq<char>) -> bool {
    p.len() > 0 && p[0] == '/'
}

/// Whether a path has a `..` component.
pub open spec fn has_parent_component(p: Seq<char>) -> bool {
    split_pieces(p).contains(".."@)
}

/// The outcome of checking a target file against the workspace root: the
/// joined path, or the refusal.
pub open spec fn resolve_file_spec(workspace_root: Seq<char>, file: Seq<char>) -> Result<
    Seq<char>,
    Seq<char>,
> {
    if is_absolute_path(file) {
        Err("absolute file paths are not allowed; use a path relative to the workspace root"@)
    } else if has_parent_component(file) {
        Err("path traversal is not allowed"@)
    } else {
        Ok(path_join(workspace_root, file))
    }
}

/// The path of a resolved file relative to the root: the components after
/// the root's, joined with `/`; refused when the root's components are not a
/// prefix of the file's.
pub open spec fn relative_path_spec(workspace_root: Seq<char>, resolved: Seq<char>) -> Result<
    Seq<char>,
    Seq<char>,
> {
    let root = normal_pieces(split_pieces(workspace_root));
    let path = normal_pieces(split_pieces(resolved));
    if is_absolute_path(workspace_root) == is_absolute_path(resolved) && root.len() <= path.len()
        && path.subrange(0, root.len() as int) == root {
        Ok(joined(path.subrange(root.len() as int, path.len() as int), "/"@))
    } else {
        Err("path traversal is not allowed"@)
    }
}

/// Returns `true` if any component of `path` is a parent-directory reference.
pub fn contains_parent_traversal(path: &str) -> (r: bool)
    ensures
        r == has_parent_component(path@),
{
    let pieces = path_pieces(path);
    let mut i: usize = 0;
    while i < pieces.len()
        invariant
            i <= pieces@.len(),
            string_views(pieces@) == split_pieces(path@),
            forall|k: int| 0 <= k < i ==> split_pieces(path@)[k] != ".."@,
        decreases pieces@.len() - i,
    {
        if str_eq(pieces[i].as_str(), "..") {
            assert(split_pieces(path@)[i as int] == ".."@);
            return true;
        }
        i = i + 1;
    }
    false
}

/// Resolves a target file relative to the workspace root: refuses absolute
/// paths and `..` components, and joins the rest onto the root.
pub fn resolve_file(workspace_root: &str, file: &str) -> (r: Result<String, DispatchError>)
    ensures
        match resolve_file_spec(workspace_root@, file@) {
            Ok(p) => r matches Ok(s) && s@ == p,
            Err(m) => r matches Err(DispatchError::InvalidArguments { message }) && message@ == m,
        },
{
    if file.unicode_len() > 0 && file.get_char(0) == '/' {
        return Err(
            DispatchError::invalid_arguments(
                "absolute file paths are not allowed; use a path relative to the workspace root",
            ),
        );
    }
    if contains_parent_traversal(file) {
        return Err(DispatchError::invalid_arguments("path traversal is not allowed"));
    }
    Ok(join_path(workspace_root, file))
}

/// The path of a resolved file relative to the workspace root, or a refusal
/// when it lies outside the root.
pub fn relative_to_workspace(workspace_root: &str, resolved: &str) -> (r: Result<String, DispatchError>)
    ensures
        match relative_path_spec(workspace_root@, resolved@) {
            Ok(p) => r matches Ok(s) && s@ == p,
            Err(m) => r matches Err(DispatchError::InvalidArguments { message }) && message@ == m,
        },
{
    let root_abs = workspace_root.unicode_len() > 0 && workspace_root.get_char(0) == '/';
    let path_abs = resolved.unicode_len() > 0 && resolved.get_char(0) == '/';
    let root = named_components(workspace_root);
    let path = named_components(resolved);
    let ghost rv = string_views(root@);
    let ghost pv = string_views(path@);
    if root_abs != path_abs || root.len() > path.len() {
        return Err(DispatchError::invalid_arguments("path traversal is not allowed"));
    }
    let mut i: usize = 0;
    while i < root.len()
        invariant
            i <= root@.len() <= path@.len(),
            rv == string_views(root@),
            pv == string_views(path@),
            rv == normal_pieces(split_pieces(workspace_root@)),
            pv == normal_pieces(split_pieces(resolved@)),
            forall|k: int| 0 <= k < i ==> rv[k] == pv[k],
        decreases root@.len() - i,
    {
        if !str_eq(root[i].as_str(), path[i].as_str()) {
            assert(rv[i as int] == root@[i as int]@);
            assert(pv[i as int] == path@[i as int]@);
            assert(pv.subrange(0, rv.len() as int)[i as int] != rv[i as int]);
            assert(pv.subrange(0, rv.len() as int) != rv);
            return Err(DispatchError::invalid_arguments("path traversal is not allowed"));
        }
        i = i + 1;
    }
    assert(pv.subrange(0, rv.len() as int) =~= rv);
    let mut rest: Vec<String> = Vec::new();
    let mut k = root.len();
    while k < path.len()
        invariant
            root@.len() <= k <= path@.len(),
            pv == string_views(path@),
            string_views(rest@) == pv.subrange(root@.len() as int, k as int),
        decreases path@.len() - k,
    {
        let ghost before = string_views(rest@);
        let item = path[k].clone();
        assert(item@ == pv[k as int]);
        rest.push(item);
        assert(string_views(rest@) =~= before.push(item@));
        assert(string_views(rest@) =~= pv.subrange(root@.len() as int, k + 1));
        k = k + 1;
    }
    Ok(join_strings(&rest, "/"))
}

/// The plugin executable path: the override if given, else the default; a
/// relative path is taken from the working directory when that is known.
pub open spec fn plugin_path_spec(
    raw_override: Option<Seq<char>>,
    default_path: Seq<char>,
    cwd: Option<Seq<char>>,
) -> Seq<char> {
    let candidate = match raw_override {
        Some(p) => p,
        None => default_path,
    };
    if is_absolute_path(candidate) {
        candidate
    } else {
        match cwd {
            Some(dir) => path_join(dir, candidate),
            None => candidate,
        }
    }
}

/// Converts an optional executable override into an absolute path, given the
/// working directory (`None` when it cannot be read).
pub fn resolve_plugin_path(raw_override: Option<String>, default_path: &str, cwd: Option<String>) -> (r:
    String)
    ensures
        r@ == plugin_path_spec(
            crate::structured_event::opt_view(raw_override),
            default_path@,
            crate::structured_event::opt_view(cwd),
        ),
{
    let candidate = match raw_override {
        Some(p) => p,
        None => default_path.to_owned(),
    };
    if candidate.as_str().unicode_len() > 0 && candidate.as_str().get_char(0) == '/' {
        return candidate;
    }
    match cwd {
        Some(dir) => join_path(dir.as_str(), candidate.as_str()),
        None => candidate,
    }
}

/// The rope plugin executable path.
pub fn resolve_rope_plugin_path(raw_override: Option<String>, cwd: Option<String>) -> (r: String)
    ensures
        r@ == plugin_path_spec(
            crate::structured_event::opt_view(raw_override),
            super::manifests::DEFAULT_ROPE_PLUGIN_PATH@,
            crate::structured_event::opt_view(cwd),
        ),
{
    resolve_plugin_path(raw_override, super::manifests::DEFAULT_ROPE_PLUGIN_PATH, cwd)
}

/// The rust-analyzer plugin executable path.
pub fn resolve_rust_analyzer_plugin_path(raw_override: Option<String>, cwd: Option<String>) -> (r:
    String)
    ensures
        r@ == plugin_path_spec(
            crate::structured_event::opt_view(raw_override),
            super::manifests::DEFAULT_RUST_ANALYZER_PLUGIN_PATH@,
            crate::structured_event::opt_view(cwd),
        ),
{
    resolve_plugin_path(raw_override, super::manifests::DEFAULT_RUST_ANALYZER_PLUGIN_PATH, cwd)
}

} // verus!
