//! What the terminal's set-up decides.

use vstd::prelude::*;

verus! {

/// Claims the installation of the panic hook: `true` for the first claim of a flag and for no later
/// one, so that repeated sessions do not stack hooks.
pub fn claim_panic_hook_install(installed: &mut bool) -> (r: bool)
    ensures
        r == !*old(installed),
        *final(installed),
{
    let first = !*installed;
    *installed = true;
    first
}

} // verus!
