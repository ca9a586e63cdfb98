//! Repository metadata reported beside the board.

use vstd::prelude::*;

verus! {

/// What the metadata endpoint reports.
pub struct GitInfo {
    pub commit_hash: String,
    pub repo_url: String,
}

/// Chooses which repository URL the metadata endpoint reports.
pub struct GitService {
    repo_url: String,
}

impl GitService {
    /// The configured URL; empty when none was configured.
    pub closed spec fn repo_url_spec(&self) -> Seq<char> {
        self.repo_url@
    }

    pub fn new(repo_url: String) -> (r: Self)
        ensures
            r.repo_url_spec() == repo_url@,
    {
        GitService { repo_url }
    }

    /// Builds the report: the configured URL wins; the URL derived from the
    /// working copy is the fallback when none is configured.
    pub fn make_info(&self, commit_hash: String, derived_url: String) -> (r: GitInfo)
        ensures
            r.commit_hash@ == commit_hash@,
            r.repo_url@ == if self.repo_url_spec().len() == 0 {
                derived_url@
            } else {
                self.repo_url_spec()
            },
    {
        if self.repo_url.as_str().is_empty() {
            GitInfo { commit_hash, repo_url: derived_url }
        } else {
            GitInfo { commit_hash, repo_url: self.repo_url.clone() }
        }
    }
}

} // verus!
