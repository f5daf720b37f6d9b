//! Where the snapshot check looks for its scenes, snapshots and assets.

use vstd::prelude::*;

verus! {

/// The four directories of a snapshot check.
#[derive(Debug, Clone, PartialEq, Eq)]
pub struct E2eCliOptions {
    pub scenes_dir: String,
    pub snapshots_dir: String,
    pub assets_dir: String,
    pub output_dir: String,
}

/// A relative path below a directory: the two with one slash between
/// them, unless the directory ends in a slash already or has no name.
pub open spec fn joined_path(root: Seq<char>, relative: Seq<char>) -> Seq<char> {
    if root.len() == 0 || root.last() == '/' {
        root + relative
    } else {
        root + "/"@ + relative
    }
}

/// Joins a relative path to a directory.
pub fn join_path(root: &str, relative: &str) -> (out: String)
    ensures
        out@ == joined_path(root@, relative@),
{
    let v = crate::text::chars_of(root);
    let mut out = root.to_owned();
    if v.len() > 0 && v[v.len() - 1] != '/' {
        out.append("/");
    }
    out.append(relative);
    out
}

/// The directories that a snapshot check uses when it is told no others:
/// those below `e2e` in the repository.
pub fn default_e2e_options(repo_root: &str) -> (out: E2eCliOptions)
    ensures
        out.scenes_dir@ == joined_path(repo_root@, "e2e/scenes"@),
        out.snapshots_dir@ == joined_path(repo_root@, "e2e/snapshots"@),
        out.assets_dir@ == joined_path(repo_root@, "e2e/assets"@),
        out.output_dir@ == joined_path(repo_root@, "e2e/rust-output"@),
{
    E2eCliOptions {
        scenes_dir: join_path(repo_root, "e2e/scenes"),
        snapshots_dir: join_path(repo_root, "e2e/snapshots"),
        assets_dir: join_path(repo_root, "e2e/assets"),
        output_dir: join_path(repo_root, "e2e/rust-output"),
    }
}

} // verus!
