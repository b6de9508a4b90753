use vstd::prelude::*;
use rand::RngExt;

verus! {

/// Relies on rand's `RngExt::random_range` over an inclusive range: it
/// returns a value of that range. It panics when the range is empty, which
/// `low <= high` rules out, or when the thread-local generator cannot draw
/// its first seed from the operating system — an environmental failure no
/// precondition can exclude.
#[verifier::external_body]
pub fn generate(low: u32, high: u32) -> (r: u32)
    requires
        low <= high,
    ensures
        low <= r <= high,
{
    rand::rng().random_range(low..=high)
}

} // verus!
