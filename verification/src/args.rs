//! Runtime configuration.

use vstd::prelude::*;

verus! {

/// What the process starts with; reading it from the environment is the
/// embedding program's business.
#[derive(Debug)]
pub struct Args {
    pub port: u16,
    pub repo_url: String,
}

} // verus!
