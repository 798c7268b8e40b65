//! The reload entry point of production builds, where nothing is ever reloaded.
use vstd::prelude::*;

verus! {

/// In production builds there is no library to reload: the call reports success.
pub fn reload_lib() -> (r: Result<bool, ()>)
    ensures r == Ok::<bool, ()>(true),
{
    Ok(true)
}

} // verus!
