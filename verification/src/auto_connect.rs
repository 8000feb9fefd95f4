use vstd::prelude::*;

verus! {

/// Registers the application to start with the user's session.
/// The registration itself is platform I/O and happens outside this library.
pub struct AutoConnectManager;

impl AutoConnectManager {
    pub fn new() -> (r: Self)
        ensures
            r == AutoConnectManager,
    {
        AutoConnectManager
    }
}

} // verus!
