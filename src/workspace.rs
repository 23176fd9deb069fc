//! Where the cache lives inside a repository, and what kind of workspace a
//! repository root is.
use vstd::prelude::*;
use vstd::string::*;

verus! {

/// Directory, under the repository root, that holds cache markers.
pub const CACHE_DIR: &'static str = ".canopy";

/// File, under the cache directory, that marks a saved graph.
pub const GRAPH_CACHE: &'static str = "cache.json";

/// `base` joined with the relative path `rel`: a '/' between them unless `base`
/// is empty or already ends with one.
pub open spec fn join_path(base: Seq<char>, rel: Seq<char>) -> Seq<char> {
    if base.len() == 0 {
        rel
    } else if base.last() == '/' {
        base + rel
    } else {
        base + "/"@ + rel
    }
}

fn join(base: &str, rel: &str) -> (r: String)
    ensures
        r@ == join_path(base@, rel@),
{
    let mut r = base.to_owned();
    let n = base.unicode_len();
    if n == 0 {
        let r = rel.to_owned();
        return r;
    }
    if base.get_char(n - 1) != '/' {
        r.append("/");
    }
    r.append(rel);
    r
}

/// The cache directory of a repository: `{root}/.canopy`.
pub fn cache_dir(root: &str) -> (r: String)
    ensures
        r@ == join_path(root@, ".canopy"@),
{
    join(root, ".canopy")
}

/// The graph cache marker of a repository: `{root}/.canopy/cache.json`.
pub fn graph_cache_path(root: &str) -> (r: String)
    ensures
        r@ == join_path(join_path(root@, ".canopy"@), "cache.json"@),
{
    let d = cache_dir(root);
    join(d.as_str(), "cache.json")
}

/// Kinds of multi-package workspaces.
#[derive(Clone, Copy, Debug, PartialEq, Eq, Structural)]
pub enum WorkspaceType {
    Cargo,
    Npm,
    GoModules,
    Maven,
    Gradle,
}

/// The workspace kind a root is, given which marker files it holds
/// (`Cargo.toml`, `package.json`, `go.mod`), in that order of precedence.
pub fn detect_workspace(has_cargo_toml: bool, has_package_json: bool, has_go_mod: bool) -> (r: Option<
    WorkspaceType,
>)
    ensures
        r == if has_cargo_toml {
            Some(WorkspaceType::Cargo)
        } else if has_package_json {
            Some(WorkspaceType::Npm)
        } else if has_go_mod {
            Some(WorkspaceType::GoModules)
        } else {
            None
        },
{
    if has_cargo_toml {
        Some(WorkspaceType::Cargo)
    } else if has_package_json {
        Some(WorkspaceType::Npm)
    } else if has_go_mod {
        Some(WorkspaceType::GoModules)
    } else {
        None
    }
}

} // verus!
