//! A deliberately broken primary with an unused "correct" `_v2` twin: the
//! negative control that DEAD-ALT-001 must flag when it scans this file.
use vstd::prelude::*;

use crate::text::owned;

verus! {

/// The broken primary: always times out.
pub fn run_with_timeout(cmd: &str) -> (r: Result<(), String>)
    ensures
        r matches Err(e) && e@ == "timeout"@,
{
    Err(owned("timeout"))
}

/// The unused alternative: always succeeds.
pub fn run_with_timeout_v2(cmd: &str) -> (r: Result<(), String>)
    ensures
        r is Ok,
{
    Ok(())
}

} // verus!
