//! How a blocking-call timeout is stored: as a count of nanoseconds where zero means "wait
//! without a limit".

use vstd::prelude::*;

verus! {

/// The stored form of a timeout given as a total number of nanoseconds: no timeout is zero,
/// and a timeout is clamped into `1..=u64::MAX` so that it never reads back as "no timeout".
pub open spec fn stored_nanos(total_nanos: Option<u128>) -> u64 {
    match total_nanos {
        None => 0,
        Some(n) => if n == 0 {
            1
        } else if n > u64::MAX {
            u64::MAX
        } else {
            n as u64
        },
    }
}

/// Store a timeout given as a total number of nanoseconds.
pub fn timeout_to_nanos(total_nanos: Option<u128>) -> (stored: u64)
    ensures
        stored == stored_nanos(total_nanos),
{
    match total_nanos {
        None => 0,
        Some(n) => {
            if n == 0 {
                1
            } else if n > (u64::MAX as u128) {
                u64::MAX
            } else {
                n as u64
            }
        },
    }
}

/// Read a stored timeout back: zero is no timeout, anything else that many nanoseconds.
pub fn timeout_from_nanos(stored: u64) -> (timeout: Option<u64>)
    ensures
        stored == 0 ==> timeout is None,
        stored != 0 ==> timeout == Some(stored),
{
    if stored == 0 {
        None
    } else {
        Some(stored)
    }
}

/// Reading back a stored timeout gives no timeout for none, and otherwise the timeout clamped
/// into `1..=u64::MAX` nanoseconds: a zero timeout reads back as one nanosecond and a timeout
/// too long for `u64` as `u64::MAX` nanoseconds.
pub proof fn lemma_timeout_round_trip(total_nanos: Option<u128>)
    ensures
        stored_nanos(total_nanos) == 0 <==> total_nanos is None,
        total_nanos matches Some(n) ==> 1 <= stored_nanos(total_nanos) && (1 <= n <= u64::MAX
            ==> stored_nanos(total_nanos) == n),
{
}

} // verus!
