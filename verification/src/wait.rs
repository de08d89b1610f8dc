//! Decision logic of the multiplexed OS wait.
//!
//! The OS binding blocks on the whole wait-signal table with a native
//! wait-for-any primitive and hands the raw outcome back; the functions
//! here make every decision around that call — the empty-table check, the
//! timeout encoding, and the classification of the raw result into a slot
//! index, a timeout, or a failure.

use vstd::prelude::*;

use crate::error::WaitError;

verus! {

/// Raw OS wait outcome: the wait primitive itself failed.
pub const WAIT_FAILED_CODE: u32 = 0xFFFFFFFF;

/// Raw OS wait outcome: the timeout elapsed with no signal set.
pub const WAIT_TIMEOUT_CODE: u32 = 0x102;

/// Raw OS wait outcome base: a signaled handle's index is reported at
/// this offset.
pub const WAIT_OBJECT_0: u32 = 0;

/// Timeout encoding for an unbounded wait.
pub const INFINITE: u32 = 0xFFFFFFFF;

/// Encode a caller's timeout for the OS wait primitive: a bounded wait
/// passes its milliseconds, an unbounded wait the distinguished infinite
/// encoding.
pub fn wait_timeout_millis(timeout: Option<u32>) -> (r: u32)
    ensures
        timeout matches Some(ms) ==> r == ms,
        timeout is None ==> r == INFINITE,
{
    match timeout {
        Some(ms) => ms,
        None => INFINITE,
    }
}

/// Classify the raw outcome of the OS wait-for-any call over
/// `handle_count` wait signals, given the OS status `last_error` fetched
/// after a failure: a failure and a timeout map to their errors, a
/// reported index within the table is the ready slot, and a reported
/// index beyond the table is rejected rather than trusted.
pub fn classify_wait_result(result: u32, handle_count: u32, last_error: u32) -> (r: Result<
    usize,
    WaitError,
>)
    ensures
        result == WAIT_FAILED_CODE ==> r == Err::<usize, WaitError>(
            WaitError::WaitFailed(last_error),
        ),
        result == WAIT_TIMEOUT_CODE ==> r == Err::<usize, WaitError>(WaitError::WaitTimeout),
        result != WAIT_FAILED_CODE && result != WAIT_TIMEOUT_CODE && result - WAIT_OBJECT_0
            < handle_count ==> r == Ok::<usize, WaitError>((result - WAIT_OBJECT_0) as usize),
        result != WAIT_FAILED_CODE && result != WAIT_TIMEOUT_CODE && result - WAIT_OBJECT_0
            >= handle_count ==> r == Err::<usize, WaitError>(
            WaitError::OutOfBounds((result - WAIT_OBJECT_0) as u32),
        ),
{
    if result == WAIT_FAILED_CODE {
        Err(WaitError::WaitFailed(last_error))
    } else if result == WAIT_TIMEOUT_CODE {
        Err(WaitError::WaitTimeout)
    } else {
        let index = result - WAIT_OBJECT_0;
        if index < handle_count {
            Ok(index as usize)
        } else {
            Err(WaitError::OutOfBounds(index))
        }
    }
}

/// Validate the wait-signal table before the OS call: an empty table is
/// rejected with `EmptyHandles`, a non-empty one is accepted.
pub fn check_wait_handles(handle_count: usize) -> (r: Result<(), WaitError>)
    ensures
        handle_count == 0 ==> r == Err::<(), WaitError>(WaitError::EmptyHandles),
        handle_count > 0 ==> r is Ok,
{
    if handle_count == 0 {
        Err(WaitError::EmptyHandles)
    } else {
        Ok(())
    }
}

} // verus!
