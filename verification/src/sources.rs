//! Values that come from outside the program: the wall clock and the random
//! source. Nothing here is proved; each contract states what the called crate
//! documents of every outcome.

use rand::Rng;
use vstd::prelude::*;

verus! {

/// The current instant, read with `chrono::Utc::now` and split by
/// `DateTime::timestamp` and `DateTime::timestamp_subsec_nanos` into whole
/// seconds since the epoch and the nanoseconds past that second.
///
/// `Utc::now` measures the time elapsed since the epoch, so the seconds are
/// never negative and the nanoseconds stay below one second.
#[verifier::external_body]
pub(crate) fn wall_clock() -> (now: (i64, u32))
    ensures
        now.0 >= 0,
        now.1 < 1_000_000_000,
{
    let now = chrono::Utc::now();
    (now.timestamp(), now.timestamp_subsec_nanos())
}

/// A random identifier: `uuid::Uuid::new_v4`, written out by its `Display`
/// impl in the hyphenated form, which is 36 characters long.
#[verifier::external_body]
pub(crate) fn random_id() -> (id: String)
    ensures
        id@.len() == 36,
{
    uuid::Uuid::new_v4().to_string()
}

/// A random number below `bound`: `Rng::gen_range` on the half-open range
/// from zero to `bound`, drawn from `rand::thread_rng`. The range must not
/// be empty: `gen_range` panics on an empty one.
#[verifier::external_body]
pub(crate) fn random_below(bound: u64) -> (n: u64)
    requires
        bound > 0,
    ensures
        n < bound,
{
    rand::thread_rng().gen_range(0..bound)
}

} // verus!
