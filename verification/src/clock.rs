//! The wall clock.

use vstd::prelude::*;

verus! {

/// The number of seconds since the Unix epoch, as the machine's clock has it.
///
/// `cdk_common::util::unix_time` reads the clock, so nothing is claimed of its
/// result: every caller hands it to a function that is proved for all moments.
#[verifier::external_body]
pub(crate) fn unix_time() -> (now: u64) {
    cdk_common::util::unix_time()
}

} // verus!
