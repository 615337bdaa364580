//! The guard at the top of every privileged operation. Who holds which
//! capability is kept by the host; the operations are told whether the
//! caller holds the one they need.

use vstd::prelude::*;
use crate::error::AccessControlError;

verus! {

/// Identifier of the capability that allows withdrawing a contract's funds.
pub const WHITELISTED_ADDRESS: u32 = 754910830;

/// Fails with `MissingRole` unless the capability is granted.
pub fn only_role(granted: bool) -> (result: Result<(), AccessControlError>)
    ensures
        granted ==> result is Ok,
        !granted ==> result == Err::<(), AccessControlError>(AccessControlError::MissingRole),
{
    if granted {
        Ok(())
    } else {
        Err(AccessControlError::MissingRole)
    }
}

} // verus!
