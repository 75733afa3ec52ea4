use vstd::prelude::*;

verus! {

/// Hands the raw log text over, as one string. An external collaborator:
/// whether it reads a local file or fetches from a remote store is of no
/// concern to the correlator.
pub trait LogsProvider {
    fn get_logs(&self) -> String;
}

} // verus!
