//! The fixed layout of the cache: the canonical subdirectories under
//! one already-resolved cache root.

use vstd::prelude::*;
use vstd::string::StringExecFns;

verus! {

/// `base`, one separator, `name`.
pub open spec fn joined(base: Seq<char>, name: Seq<char>) -> Seq<char> {
    base + "/"@ + name
}

/// Joins one path component onto `base`, exactly as `joined` describes.
pub fn join_path(base: &str, name: &str) -> (r: String)
    ensures
        r@ == joined(base@, name@),
{
    let mut s = base.to_owned();
    s.append("/");
    s.append(name);
    s
}

/// The canonical subdirectories under the cache root, constructed once
/// per run and read-only thereafter.  Every path is derived from the
/// root the external configuration lookup supplied.
pub struct CargoCachePaths {
    pub cargo_home: String,
    pub bin: String,
    pub registry: String,
    pub registry_index: String,
    pub registry_sources: String,
    pub registry_pkg_cache: String,
    pub git_repos_bare: String,
    pub git_checkouts: String,
}

impl CargoCachePaths {
    /// Lays the canonical subpaths out under `cargo_home`.
    pub fn new(cargo_home: &str) -> (r: Self)
        ensures
            r.cargo_home@ == cargo_home@,
            r.bin@ == joined(cargo_home@, "bin"@),
            r.registry@ == joined(cargo_home@, "registry"@),
            r.registry_index@ == joined(cargo_home@, "registry/index"@),
            r.registry_sources@ == joined(cargo_home@, "registry/src"@),
            r.registry_pkg_cache@ == joined(cargo_home@, "registry/cache"@),
            r.git_repos_bare@ == joined(cargo_home@, "git/db"@),
            r.git_checkouts@ == joined(cargo_home@, "git/checkouts"@),
    {
        CargoCachePaths {
            cargo_home: cargo_home.to_owned(),
            bin: join_path(cargo_home, "bin"),
            registry: join_path(cargo_home, "registry"),
            registry_index: join_path(cargo_home, "registry/index"),
            registry_sources: join_path(cargo_home, "registry/src"),
            registry_pkg_cache: join_path(cargo_home, "registry/cache"),
            git_repos_bare: join_path(cargo_home, "git/db"),
            git_checkouts: join_path(cargo_home, "git/checkouts"),
        }
    }
}

} // verus!
