//! Single-instance guard backed by a named mutex of the operating system.
//!
//! The mutex is scoped to the session of the user, which is enough to prevent
//! a second instance per logged-in user.

use vstd::prelude::*;
use vstd::utf8::*;

verus! {

/// Name of the mutex. The prefix keeps it scoped to this user session.
pub const MUTEX_NAME: &'static str = "Local\\komorebi-tray-grid-singleton";

/// The error code that tells that the mutex existed already.
pub const ERROR_ALREADY_EXISTS: u32 = 183;

/// Holds the mutex. Whoever owns it closes the handle when the process ends.
#[derive(Debug, PartialEq, Eq)]
pub struct InstanceGuard {
    pub handle: usize,
}

/// Result of the single-instance check.
#[derive(Debug, PartialEq, Eq)]
pub enum Acquisition {
    /// This process holds the lock.
    Acquired(InstanceGuard),
    /// Another instance is already running; the caller closes the handle, if
    /// it got one, and exits silently.
    AlreadyRunning,
}

/// The mutex could not be created, for the reason with this code.
#[derive(Debug, Copy, Clone, PartialEq, Eq)]
pub struct AcquireError {
    pub code: u32,
}

/// What the creation of the mutex means. `created` is the handle, or the code of
/// the error, and `last_error` the error code that the system reports
/// afterwards: creating a mutex that exists already gives a handle too.
pub open spec fn acquisition_of(created: Result<usize, u32>, last_error: u32) -> Result<
    Acquisition,
    AcquireError,
> {
    match created {
        Err(code) => Err(AcquireError { code }),
        Ok(handle) => if last_error == ERROR_ALREADY_EXISTS {
            Ok(Acquisition::AlreadyRunning)
        } else {
            Ok(Acquisition::Acquired(InstanceGuard { handle }))
        },
    }
}

/// Computes [`acquisition_of`].
///
/// How long the mutex exists, and who sees it, is up to the system: it exists as
/// long as one of its handles is open in the session of the user.
pub fn acquire(created: Result<usize, u32>, last_error: u32) -> (acquisition: Result<
    Acquisition,
    AcquireError,
>)
    ensures
        acquisition == acquisition_of(created, last_error),
{
    match created {
        Err(code) => Err(AcquireError { code }),
        Ok(handle) => if last_error == ERROR_ALREADY_EXISTS {
            Ok(Acquisition::AlreadyRunning)
        } else {
            Ok(Acquisition::Acquired(InstanceGuard { handle }))
        },
    }
}

/// Where the system reports that the mutex exists exactly while an earlier guard
/// is alive, a second instance is noticed exactly then, and the lock is acquired
/// again once that guard is gone.
pub proof fn law_living_guard_keeps_others_out(handle: usize, last_error: u32, guard_alive: bool)
    requires
        guard_alive <==> last_error == ERROR_ALREADY_EXISTS,
    ensures
        guard_alive ==> acquisition_of(Ok(handle), last_error) == Ok::<Acquisition, AcquireError>(
            Acquisition::AlreadyRunning,
        ),
        !guard_alive ==> acquisition_of(Ok(handle), last_error) == Ok::<Acquisition, AcquireError>(
            Acquisition::Acquired(InstanceGuard { handle }),
        ),
{
}

/// The name of the mutex as the system takes it: its characters and a zero.
pub fn mutex_name_wide() -> (wide: Vec<u16>)
    ensures
        wide@.len() == MUTEX_NAME@.len() + 1,
        forall|i: int| 0 <= i < MUTEX_NAME@.len() ==> wide@[i] as int == MUTEX_NAME@[i] as int,
        wide@.last() == 0,
{
    let bytes: &[u8] = MUTEX_NAME.as_bytes();
    proof {
        reveal_strlit("Local\\komorebi-tray-grid-singleton");
        is_ascii_chars_encode_utf8(MUTEX_NAME@);
    }
    let mut wide: Vec<u16> = Vec::new();
    let mut i: usize = 0;
    while i < bytes.len()
        invariant
            i <= bytes@.len(),
            wide@.len() == i,
            forall|k: int| 0 <= k < i ==> wide@[k] == bytes@[k],
        decreases bytes@.len() - i,
    {
        wide.push(bytes[i] as u16);
        i += 1;
    }
    wide.push(0);
    proof {
        assert forall|k: int| 0 <= k < MUTEX_NAME@.len() implies wide@[k] as int
            == MUTEX_NAME@[k] as int by {
            assert(MUTEX_NAME@[k] as u8 == bytes@[k]);
        }
    }
    wide
}

} // verus!
