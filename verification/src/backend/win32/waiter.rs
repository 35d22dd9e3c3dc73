//! Waiting for the event of an overlapped operation: the registration of
//! the wait with the thread pool of the system, and the future that is over
//! once the event was signalled.

use vstd::prelude::*;

use crate::backend::win32::{hid_error, hid_error_of, WinError};
use crate::error::{HidError, HidResult};
use crate::utils::Progress;

verus! {

/// The wait for one event handle, which is registered with the thread pool
/// while a future waits for it, and at no other time.
#[derive(Debug)]
pub struct HandleWaiter {
    registered: bool,
}

impl HandleWaiter {
    /// Whether the wait is registered.
    pub closed spec fn registered(self) -> bool {
        self.registered
    }

    /// A wait that is not registered.
    pub fn new() -> (waiter: Self)
        ensures
            !waiter.registered(),
    {
        HandleWaiter { registered: false }
    }

    /// Whether the wait is registered.
    pub fn is_registered(&self) -> (r: bool)
        ensures
            r == self.registered(),
    {
        self.registered
    }

    /// Takes note of how the registration went.
    pub fn register(&mut self, result: Result<(), WinError>) -> (r: HidResult<()>)
        requires
            !old(self).registered(),
        ensures
            match result {
                Ok(_) => r is Ok && final(self).registered(),
                Err(error) => r == Err::<(), HidError>(hid_error_of(error)) && !final(self).registered(),
            },
    {
        match result {
            Ok(_) => {
                self.registered = true;
                Ok(())
            },
            Err(error) => Err(hid_error(error)),
        }
    }

    /// Takes note of how it went to take the registration back, which
    /// returns only when no callback runs any more.
    pub fn unregister(&mut self, result: Result<(), WinError>) -> (r: HidResult<()>)
        requires
            old(self).registered(),
        ensures
            match result {
                Ok(_) => r is Ok && !final(self).registered(),
                Err(error) => r == Err::<(), HidError>(hid_error_of(error)) && final(self).registered(),
            },
    {
        match result {
            Ok(_) => {
                self.registered = false;
                Ok(())
            },
            Err(error) => Err(hid_error(error)),
        }
    }
}

/// How far a future has come.
#[derive(Debug, Clone, Copy, PartialEq, Eq, Structural)]
pub enum FutureState {
    /// It was not polled yet.
    Uninitialized,
    /// It was polled, and the wait is registered.
    Initialized,
    /// It is over.
    Completed,
}

/// What a poll has to do before it looks whether the event was signalled.
#[derive(Debug, Clone, Copy, PartialEq, Eq, Structural)]
pub struct PollStart {
    /// A registration is left over from a wait that was not finished: take
    /// it back first.
    pub unregister: bool,
    /// Forget the last signal, and register the wait.
    pub register: bool,
}

/// A future that is over once the event of a waiter was signalled.
#[derive(Debug)]
pub struct HandleFuture {
    state: FutureState,
}

impl HandleFuture {
    /// How far the future has come.
    pub closed spec fn state(self) -> FutureState {
        self.state
    }

    /// A future that was not polled yet.
    pub fn wait() -> (future: Self)
        ensures
            future.state() == FutureState::Uninitialized,
    {
        HandleFuture { state: FutureState::Uninitialized }
    }

    /// Whether the future is over.
    pub fn is_completed(&self) -> (r: bool)
        ensures
            r == (self.state() == FutureState::Completed),
    {
        match self.state {
            FutureState::Completed => true,
            _ => false,
        }
    }

    /// Whether the wait was registered for this future and the event was not
    /// seen yet.
    pub fn is_initialized(&self) -> (r: bool)
        ensures
            r == (self.state() == FutureState::Initialized),
    {
        match self.state {
            FutureState::Initialized => true,
            _ => false,
        }
    }

    /// What a poll has to do first. A future that is over is not polled
    /// again.
    pub fn poll_start(&self, waiter: &HandleWaiter) -> (start: PollStart)
        requires
            self.state() != FutureState::Completed,
        ensures
            start.register == (self.state() == FutureState::Uninitialized),
            start.unregister == (self.state() == FutureState::Uninitialized && waiter.registered()),
    {
        match self.state {
            FutureState::Uninitialized => PollStart {
                unregister: waiter.is_registered(),
                register: true,
            },
            _ => PollStart { unregister: false, register: false },
        }
    }

    /// Takes note that the wait was registered for this future.
    pub fn initialized(&mut self)
        requires
            old(self).state() == FutureState::Uninitialized,
        ensures
            final(self).state() == FutureState::Initialized,
    {
        self.state = FutureState::Initialized;
    }

    /// The outcome of a poll, from whether the event was signalled. A
    /// future that is ready is over: its registration is to be taken back
    /// before the caller is told.
    pub fn poll(&mut self, complete: bool) -> (r: Progress<()>)
        requires
            old(self).state() == FutureState::Initialized,
        ensures
            r == if complete {
                Progress::Ready(())
            } else {
                Progress::Pending
            },
            final(self).state() == if complete {
                FutureState::Completed
            } else {
                FutureState::Initialized
            },
    {
        if complete {
            self.state = FutureState::Completed;
            Progress::Ready(())
        } else {
            Progress::Pending
        }
    }

    /// Whether a registration has to be taken back when the future is
    /// dropped: that of a future that waits.
    pub fn must_unregister_on_drop(&self, waiter: &HandleWaiter) -> (r: bool)
        ensures
            r == (self.state() == FutureState::Initialized && waiter.registered()),
    {
        match self.state {
            FutureState::Initialized => waiter.is_registered(),
            _ => false,
        }
    }
}

} // verus!
