//! Reading the system clock.

use vstd::prelude::*;

verus! {

/// Relies on std::time::SystemTime::now and duration_since(UNIX_EPOCH): the
/// whole seconds of the system clock at the call, or 0 when the clock reads
/// before the epoch. Nothing is assumed about the value: the clock may move
/// backward between calls.
#[verifier::external_body]
pub(crate) fn now_unix_secs() -> u64 {
    std::time::SystemTime::now()
        .duration_since(std::time::UNIX_EPOCH)
        .map(|d| d.as_secs())
        .unwrap_or(0)
}

} // verus!
