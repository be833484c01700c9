//! The liveness signal.

use vstd::prelude::*;
use vstd::string::*;

verus! {

/// The constant answer to a health check.
pub fn health() -> (r: String)
    ensures
        r@ == "OK"@,
{
    String::from_str("OK")
}

} // verus!
