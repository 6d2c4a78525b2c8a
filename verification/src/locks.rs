//! What the attempt to lock a file across processes came to.

use crate::path::Platform;
use vstd::prelude::*;

verus! {

/// An error of the operating system, as far as decisions look at it.
pub struct IoFault {
    /// Its kind is that the operation would block.
    pub would_block: bool,
    /// Its kind is that the file was not found.
    pub not_found: bool,
    /// Its kind is that the address is in use.
    pub address_in_use: bool,
    /// The code that the operating system gave.
    pub os_code: Option<i32>,
    /// The text of the error.
    pub message: String,
}

/// What came of opening a lock file and locking it without waiting.
pub enum LockAttempt {
    Acquired,
    OpenFailed(IoFault),
    LockFailed(IoFault),
}

/// The error says that another process holds the lock. Windows also reports a
/// sharing violation (32) or a lock violation (33).
pub open spec fn busy(platform: Platform, fault: IoFault) -> bool {
    ||| fault.would_block
    ||| platform == Platform::Windows && (fault.os_code == Some(32i32) || fault.os_code == Some(
        33i32,
    ))
}

/// Whether the error says that another process holds the lock.
pub fn lock_is_busy(error: &IoFault, platform: Platform) -> (r: bool)
    ensures
        r == busy(platform, *error),
{
    error.would_block || (platform == Platform::Windows && match error.os_code {
        Some(code) => code == 32 || code == 33,
        None => false,
    })
}

/// Whether another process holds the update lock, judged by an attempt to take
/// it.
pub fn update_is_in_progress(attempt: LockAttempt, platform: Platform) -> (r: Result<bool, IoFault>)
    ensures
        match attempt {
            LockAttempt::Acquired => r == Ok::<bool, IoFault>(false),
            LockAttempt::OpenFailed(fault) => r == Err::<bool, IoFault>(fault),
            LockAttempt::LockFailed(fault) => if busy(platform, fault) {
                r == Ok::<bool, IoFault>(true)
            } else {
                r == Err::<bool, IoFault>(fault)
            },
        },
{
    match attempt {
        LockAttempt::Acquired => Ok(false),
        LockAttempt::OpenFailed(fault) => Err(fault),
        LockAttempt::LockFailed(fault) => {
            if lock_is_busy(&fault, platform) {
                Ok(true)
            } else {
                Err(fault)
            }
        },
    }
}

/// A lock is busy where the attempt would block, and on Windows also where the file
/// or the region is locked by another process; no other error says so.
pub proof fn law_busy_locks_are_told_apart(platform: Platform, fault: IoFault)
    ensures
        fault.would_block ==> busy(platform, fault),
        !fault.would_block && platform != Platform::Windows ==> !busy(platform, fault),
        !fault.would_block && platform == Platform::Windows ==> (busy(platform, fault)
            <==> fault.os_code == Some(32i32) || fault.os_code == Some(33i32)),
{
}

/// An update is in progress exactly where its lock is busy; a lock that was taken
/// tells that none is, and any other error is handed on.
pub proof fn law_busy_lock_tells_an_update(
    attempt: LockAttempt,
    fault: IoFault,
    platform: Platform,
    r: Result<bool, IoFault>,
)
    requires
        call_ensures(update_is_in_progress, (attempt, platform), r),
    ensures
        r == Ok::<bool, IoFault>(true) <==> (attempt matches LockAttempt::LockFailed(f) && busy(
            platform,
            f,
        )),
        r == Ok::<bool, IoFault>(false) <==> attempt is Acquired,
        attempt == LockAttempt::OpenFailed(fault) ==> r == Err::<bool, IoFault>(fault),
        attempt == LockAttempt::LockFailed(fault) && !busy(platform, fault) ==> r == Err::<
            bool,
            IoFault,
        >(fault),
{
}

} // verus!
