//! The safety rule for removing a temporary workspace.
use crate::error::join4;
use crate::path::{path_starts_with, same, same_path, starts_with};
use vstd::prelude::*;

verus! {

/// Errors of the safe removal of a temporary workspace. The causes that
/// come from the file system are held as the text they print.
#[derive(Debug)]
pub enum CleanupError {
    CanonicalizeRoot { path: String, source: String },
    CanonicalizeWorkspace { path: String, source: String },
    UnsafePath { root: String, workspace: String },
    Remove { path: String, source: String },
}

pub open spec fn cleanup_error_text(e: CleanupError) -> Seq<char> {
    match e {
        CleanupError::CanonicalizeRoot { path, source } => "nepodarilo sa overiť cleanup root `"@
            + path@ + "`: "@ + source@,
        CleanupError::CanonicalizeWorkspace { path, source } => "nepodarilo sa overiť workspace `"@
            + path@ + "`: "@ + source@,
        CleanupError::UnsafePath { root, workspace } =>
            "odmietnuté nebezpečné cleanup cesty: workspace `"@ + workspace@
            + "` nie je potomkom root `"@ + root@ + "`"@,
        CleanupError::Remove { path, source } => "nepodarilo sa odstrániť dočasný workspace `"@ + path@
            + "`: "@ + source@,
    }
}

impl CleanupError {
    pub fn message(&self) -> (s: String)
        ensures
            s@ == cleanup_error_text(*self),
    {
        proof {
            reveal_strlit("");
        }
        match self {
            CleanupError::CanonicalizeRoot { path, source } => join4(
                "nepodarilo sa overiť cleanup root `",
                path.as_str(),
                "`: ",
                source.as_str(),
            ),
            CleanupError::CanonicalizeWorkspace { path, source } => join4(
                "nepodarilo sa overiť workspace `",
                path.as_str(),
                "`: ",
                source.as_str(),
            ),
            CleanupError::UnsafePath { root, workspace } => {
                let head = join4(
                    "odmietnuté nebezpečné cleanup cesty: workspace `",
                    workspace.as_str(),
                    "` nie je potomkom root `",
                    root.as_str(),
                );
                join4(head.as_str(), "`", "", "")
            },
            CleanupError::Remove { path, source } => join4(
                "nepodarilo sa odstrániť dočasný workspace `",
                path.as_str(),
                "`: ",
                source.as_str(),
            ),
        }
    }
}

/// A workspace may be removed only when it lies strictly below the
/// allowed root: below it by whole components, and not the root itself.
pub open spec fn removable(root: Seq<char>, workspace: Seq<char>) -> bool {
    path_starts_with(workspace, root) && !same_path(workspace, root)
}

/// Checks the canonical forms of the allowed root and the workspace before
/// the workspace is removed.
pub fn verify_cleanup_target(canonical_root: &str, canonical_workspace: &str) -> (r: Result<
    (),
    CleanupError,
>)
    ensures
        r is Ok <==> removable(canonical_root@, canonical_workspace@),
        r is Err ==> (r matches Err(CleanupError::UnsafePath { root, workspace }) && root@
            == canonical_root@ && workspace@ == canonical_workspace@),
{
    if same(canonical_workspace, canonical_root) || !starts_with(canonical_workspace, canonical_root) {
        return Err(
            CleanupError::UnsafePath {
                root: String::from_str(canonical_root),
                workspace: String::from_str(canonical_workspace),
            },
        );
    }
    Ok(())
}

} // verus!
