//! The user's home directory, as the operating system reports it.

use vstd::prelude::*;

verus! {

/// Calls `dirs::home_dir` and hands back the path it found as text, or `None`
/// where it found no home directory. What is not valid Unicode in the path
/// comes out as the replacement character. Nothing is claimed of the answer:
/// it depends on the environment and on the user database, and may differ
/// from one call to the next.
#[verifier::external_body]
pub(crate) fn home_directory() -> (home: Option<String>) {
    match dirs::home_dir() {
        Some(path) => Some(path.to_string_lossy().into_owned()),
        None => None,
    }
}

} // verus!
