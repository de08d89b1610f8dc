//! Error taxonomy of the device-communication engine.

use vstd::prelude::*;

verus! {

/// Outcome of a multiplexed wait over many device wait-signals.
///
/// `WaitTimeout` is the distinguished non-error outcome of a bounded wait;
/// the other variants carry the opaque OS status for diagnostics.
#[derive(Debug, Clone, PartialEq, Eq, Structural)]
pub enum WaitError {
    /// No wait handles were provided to wait on.
    EmptyHandles,
    /// The OS wait primitive itself failed, with its status code.
    WaitFailed(u32),
    /// The timeout elapsed before any device became ready.
    WaitTimeout,
    /// The OS wait primitive reported an index outside the handle table.
    OutOfBounds(u32),
}

/// Error returned by device control operations.
#[derive(Debug, Clone, PartialEq, Eq, Structural)]
pub enum InterceptionError {
    /// Opening a device slot's control endpoint failed, with the OS status.
    CreateFile(u32),
    /// Creating a wait-signal object failed, with the OS status.
    CreateEvent(u32),
    /// A device control call failed, with the OS status.
    DeviceIoControl(u32),
    /// The requested slot index is outside the per-kind range.
    InvalidDevice,
    /// A multiplexed wait ended in an error or a timeout.
    Wait(WaitError),
}

impl InterceptionError {
    /// Wraps a wait outcome as a control-operation error.
    pub fn from_wait(value: WaitError) -> (r: InterceptionError)
        ensures
            r == InterceptionError::Wait(value),
    {
        InterceptionError::Wait(value)
    }
}

/// Classify the outcome of one device control transaction: success
/// passes the transferred byte count through, and failure carries the OS
/// status fetched after it.
pub fn ioctl_result(succeeded: bool, bytes_returned: u32, last_error: u32) -> (r: Result<
    u32,
    InterceptionError,
>)
    ensures
        succeeded ==> r == Ok::<u32, InterceptionError>(bytes_returned),
        !succeeded ==> r == Err::<u32, InterceptionError>(
            InterceptionError::DeviceIoControl(last_error),
        ),
{
    if succeeded {
        Ok(bytes_returned)
    } else {
        Err(InterceptionError::DeviceIoControl(last_error))
    }
}

/// Classify the outcome of opening a device slot's control endpoint:
/// an open that failed carries the OS status fetched after it.
pub fn create_file_result(opened: bool, last_error: u32) -> (r: Result<(), InterceptionError>)
    ensures
        opened ==> r is Ok,
        !opened ==> r == Err::<(), InterceptionError>(InterceptionError::CreateFile(last_error)),
{
    if opened {
        Ok(())
    } else {
        Err(InterceptionError::CreateFile(last_error))
    }
}

/// Classify the outcome of creating a wait-signal object: a creation
/// that failed carries the OS status fetched after it.
pub fn create_event_result(created: bool, last_error: u32) -> (r: Result<(), InterceptionError>)
    ensures
        created ==> r is Ok,
        !created ==> r == Err::<(), InterceptionError>(InterceptionError::CreateEvent(last_error)),
{
    if created {
        Ok(())
    } else {
        Err(InterceptionError::CreateEvent(last_error))
    }
}

} // verus!
