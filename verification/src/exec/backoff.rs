//! The delay before a failed start is tried again: it doubles with every
//! failure, up to a ceiling.

use vstd::prelude::*;

verus! {

/// The delay after the first failed start, in seconds.
pub const BACKOFF_BASE_SECS: u32 = 1;

/// The longest delay between two starts, in seconds.
pub const BACKOFF_CEILING_SECS: u32 = 60;

/// The delay, in seconds, before the start that follows `failures` failed
/// ones in a row: the base delay after the first, twice the previous delay
/// after each further one, and never more than the ceiling.
pub open spec fn backoff_delay(failures: nat) -> nat
    decreases failures,
{
    if failures <= 1 {
        BACKOFF_BASE_SECS as nat
    } else if 2 * backoff_delay((failures - 1) as nat) >= BACKOFF_CEILING_SECS {
        BACKOFF_CEILING_SECS as nat
    } else {
        2 * backoff_delay((failures - 1) as nat)
    }
}

/// The delay lies between the base and the ceiling.
pub proof fn lemma_backoff_bounds(failures: nat)
    ensures
        BACKOFF_BASE_SECS <= backoff_delay(failures) <= BACKOFF_CEILING_SECS,
    decreases failures,
{
    if failures > 1 {
        lemma_backoff_bounds((failures - 1) as nat);
    }
}

/// One more failure doubles the delay, or brings it to the ceiling: below the
/// ceiling the delay grows strictly.
pub proof fn lemma_backoff_grows(failures: nat)
    requires
        failures >= 1,
    ensures
        backoff_delay(failures) <= backoff_delay(failures + 1),
        backoff_delay(failures) < BACKOFF_CEILING_SECS ==> backoff_delay(failures)
            < backoff_delay(failures + 1),
{
    lemma_backoff_bounds(failures);
}

/// Computes the delay before the start that follows `failures` failed ones.
pub fn delay_secs(failures: u8) -> (secs: u32)
    ensures
        secs == backoff_delay(failures as nat),
{
    let mut secs: u32 = BACKOFF_BASE_SECS;
    let mut done: u8 = 1;
    while done < failures
        invariant
            1 <= done,
            done <= failures || (failures == 0 && done == 1),
            secs == backoff_delay(done as nat),
            secs <= BACKOFF_CEILING_SECS,
        decreases failures - done,
    {
        if 2 * secs >= BACKOFF_CEILING_SECS {
            secs = BACKOFF_CEILING_SECS;
        } else {
            secs = 2 * secs;
        }
        done += 1;
    }
    proof {
        if failures == 0 {
            assert(backoff_delay(0) == BACKOFF_BASE_SECS);
            assert(backoff_delay(1) == BACKOFF_BASE_SECS);
        }
    }
    secs
}

} // verus!
