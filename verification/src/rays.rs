//! How long a ray of light goes on.

use vstd::prelude::*;

verus! {

/// How often a ray bounces at most.
pub const MAX_BOUNCES: usize = 64;

/// Whether a ray that has bounced `done` times goes on, where `hit` says whether it hits anything.
pub fn bounces_on(done: usize, hit: bool) -> (r: bool)
    ensures
        r == (hit && done < MAX_BOUNCES),
{
    hit && done < MAX_BOUNCES
}

} // verus!
