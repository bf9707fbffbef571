//! The count of running capture sessions, which decides when the system is
//! asked to stay awake for streaming: on with the first session, off after
//! the last.
use vstd::prelude::*;

verus! {

/// How many capture sessions are running (the counter wraps like an atomic
/// `fetch_add`/`fetch_sub`).
pub struct ActiveCaptureSessions {
    count: usize,
}

/// Held by a running capture session; releasing it ends the session.
pub struct ActiveCaptureGuard;

/// `ES_CONTINUOUS`.
pub const ES_CONTINUOUS: u32 = 0x8000_0000;

/// `ES_SYSTEM_REQUIRED`.
pub const ES_SYSTEM_REQUIRED: u32 = 0x0000_0001;

impl ActiveCaptureSessions {
    /// The number of running sessions.
    pub closed spec fn count(&self) -> usize {
        self.count
    }

    /// No session is running.
    pub fn new() -> (s: Self)
        ensures
            s.count() == 0,
    {
        ActiveCaptureSessions { count: 0 }
    }
}

/// The counter after one more session.
pub open spec fn count_after_acquire(c: usize) -> usize {
    if c == usize::MAX {
        0
    } else {
        (c + 1) as usize
    }
}

/// The counter after one session fewer.
pub open spec fn count_after_release(c: usize) -> usize {
    if c == 0 {
        usize::MAX
    } else {
        (c - 1) as usize
    }
}

impl ActiveCaptureGuard {
    /// Starts a session. Returns its guard and whether streaming must now be
    /// switched on (it was the first session).
    pub fn acquire(sessions: &mut ActiveCaptureSessions) -> (r: (ActiveCaptureGuard, bool))
        ensures
            final(sessions).count() == count_after_acquire(old(sessions).count()),
            r.1 == (old(sessions).count() == 0),
    {
        let previous = sessions.count;
        sessions.count = previous.wrapping_add(1);
        (ActiveCaptureGuard, previous == 0)
    }

    /// Ends the session. Returns whether streaming must now be switched off
    /// (it was the last session).
    pub fn release(self, sessions: &mut ActiveCaptureSessions) -> (off: bool)
        ensures
            final(sessions).count() == count_after_release(old(sessions).count()),
            off == (old(sessions).count() == 1),
    {
        let previous = sessions.count;
        sessions.count = previous.wrapping_sub(1);
        previous == 1
    }
}

/// The execution-state flags for `SetThreadExecutionState`: keep the system
/// awake while streaming, and only the continuous flag to let it sleep again.
pub fn streaming_execution_flags(active: bool) -> (flags: u32)
    ensures
        flags == (if active {
            ES_CONTINUOUS | ES_SYSTEM_REQUIRED
        } else {
            ES_CONTINUOUS
        }),
{
    if active {
        ES_CONTINUOUS | ES_SYSTEM_REQUIRED
    } else {
        ES_CONTINUOUS
    }
}

/// Releasing a session undoes acquiring it: the count comes back, and the
/// session that switched streaming on is the one whose release switches it
/// off when no other session ran in between.
pub proof fn lemma_release_undoes_acquire(c: usize)
    ensures
        count_after_release(count_after_acquire(c)) == c,
        (c == 0) == (count_after_acquire(c) == 1),
{
}

} // verus!
