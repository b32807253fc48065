use vstd::prelude::*;
use crate::state::PlatformState;

verus! {

/// One-time creation of the singleton platform record: the caller becomes
/// the admin and the project counter starts at zero. The host runtime, not
/// this handler, refuses the call when the record already exists.
pub fn handler(admin: Vec<u8>) -> (r: PlatformState)
    ensures
        r.admin == admin,
        r.project_count == 0,
{
    PlatformState { admin, project_count: 0 }
}

} // verus!
