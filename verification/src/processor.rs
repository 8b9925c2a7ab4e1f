//! Decisions of the socket operations of the readiness-based backend.
//!
//! A socket operation is first tried without blocking. When it fails with
//! an error that means "not ready yet", the socket is registered for
//! readiness and the operation waits; once woken it either fetches the
//! socket's pending error, when the readiness report carries the error
//! event, or tries the operation once more and returns that outcome.
//! Errors are raw OS error numbers; the kernel constants they are tested
//! against are arguments, so that each platform passes its own.
use vstd::prelude::*;

verus! {

/// Processor of the proactor's socket operations.
pub struct Processor;

/// What to do after a non-blocking attempt.
#[derive(Debug, PartialEq, Eq, Structural)]
pub enum Attempt<T> {
    /// The operation is over, with this outcome.
    Done(Result<T, i32>),
    /// The socket is not ready: register for readiness and wait.
    AwaitReadiness,
}

/// What to do once a waiting operation was woken.
#[derive(Clone, Copy, Debug, PartialEq, Eq, Structural)]
pub enum Wakeup {
    /// The readiness report carries the error event: fetch the socket error.
    TakeError,
    /// Try the operation once more and return that outcome.
    TryAgain,
}

/// What to do after starting a non-blocking connect.
#[derive(Clone, Copy, Debug, PartialEq, Eq, Structural)]
pub enum ConnectStart {
    /// The connection is made.
    Connected,
    /// Wait until the socket is writable, then fetch its pending error.
    InProgress,
    /// The connect failed with this error number.
    Failed(i32),
}

/// Outcome of one attempt of a connection to a list of addresses.
#[derive(Debug, PartialEq, Eq, Structural)]
pub enum ConnectStep<T, E> {
    /// Connected: the connection is the result.
    Connected(T),
    /// Not connected: try the next address, remembering this error.
    Next(Option<E>),
}

/// Why a connection to a list of addresses failed.
#[derive(Debug, PartialEq, Eq, Structural)]
pub enum ConnectFailure<E> {
    /// Every address failed; this is the error of the last one.
    Attempt(E),
    /// The list held no address.
    NoAddress,
}

/// Outcome of the non-blocking attempt `res` when errors that meet
/// `retry_mask` mean the socket is not ready.
pub open spec fn spec_on_attempt<T>(res: Result<T, i32>, retry_mask: i32) -> Attempt<T> {
    match res {
        Ok(v) => Attempt::Done(Ok(v)),
        Err(e) => if e & retry_mask != 0 {
            Attempt::AwaitReadiness
        } else {
            Attempt::Done(Err(e))
        },
    }
}

/// Result of connecting to the addresses whose attempts, were they all
/// made, have the outcomes `outcomes`: the first connection, else the error
/// of the last attempt, else no address at all.
pub open spec fn connect_result<T, E>(outcomes: Seq<Result<T, E>>) -> Result<T, ConnectFailure<E>>
    decreases outcomes.len(),
{
    if outcomes.len() == 0 {
        Err(ConnectFailure::NoAddress)
    } else {
        match outcomes[0] {
            Ok(t) => Ok(t),
            Err(e) => match connect_result(outcomes.drop_first()) {
                Ok(t) => Ok(t),
                Err(ConnectFailure::NoAddress) => Err(ConnectFailure::Attempt(e)),
                Err(f) => Err(f),
            },
        }
    }
}

/// The connection loop run step by step from remembered error `tail` over
/// `outcomes`, stopping at the first connection.
pub open spec fn connect_fold<T, E>(tail: Option<E>, outcomes: Seq<Result<T, E>>) -> Result<T, ConnectFailure<E>>
    decreases outcomes.len(),
{
    if outcomes.len() == 0 {
        match tail {
            Some(e) => Err(ConnectFailure::Attempt(e)),
            None => Err(ConnectFailure::NoAddress),
        }
    } else {
        match outcomes[0] {
            Ok(t) => Ok(t),
            Err(e) => connect_fold(Some(e), outcomes.drop_first()),
        }
    }
}

impl Processor {
    /// Decides after a non-blocking attempt: a success, or an error that
    /// does not meet `retry_mask`, ends the operation; an error that meets
    /// it (`EAGAIN | EWOULDBLOCK` for transfers and accepts, `EAGAIN |
    /// EINPROGRESS` for connects) means waiting for readiness. The test is
    /// on the bits of the error number.
    pub fn on_attempt<T>(res: Result<T, i32>, retry_mask: i32) -> (r: Attempt<T>)
        ensures
            r == spec_on_attempt(res, retry_mask),
    {
        match res {
            Ok(v) => Attempt::Done(Ok(v)),
            Err(e) => if e & retry_mask != 0 {
                Attempt::AwaitReadiness
            } else {
                Attempt::Done(Err(e))
            },
        }
    }

    /// Decides after a waiting operation was woken with readiness `events`:
    /// when they carry `error_event` (`EPOLLERR`) the socket error is to be
    /// fetched, otherwise the operation is tried once more.
    pub fn on_readiness(events: i32, error_event: i32) -> (r: Wakeup)
        ensures
            r == (if events & error_event != 0 {
                Wakeup::TakeError
            } else {
                Wakeup::TryAgain
            }),
    {
        if events & error_event != 0 {
            Wakeup::TakeError
        } else {
            Wakeup::TryAgain
        }
    }

    /// Decides after starting a non-blocking TCP connect: a connection made
    /// at once is done; the "in progress" error (`EINPROGRESS`) means
    /// waiting until the socket is writable and then fetching its pending
    /// error, which tells whether the connection was refused; any other
    /// error fails the connect.
    pub fn connect_started(res: Result<(), i32>, in_progress: i32) -> (r: ConnectStart)
        ensures
            r == (match res {
                Ok(()) => ConnectStart::Connected,
                Err(e) => if e == in_progress {
                    ConnectStart::InProgress
                } else {
                    ConnectStart::Failed(e)
                },
            }),
    {
        match res {
            Ok(()) => ConnectStart::Connected,
            Err(e) => if e == in_progress {
                ConnectStart::InProgress
            } else {
                ConnectStart::Failed(e)
            },
        }
    }

    /// One step of connecting to a list of addresses: a connection ends
    /// the loop, a failure is remembered and the next address is tried.
    pub fn processor_connect<T, E>(tail_err: Option<E>, outcome: Result<T, E>) -> (r: ConnectStep<T, E>)
        ensures
            r == (match outcome {
                Ok(t) => ConnectStep::Connected(t),
                Err(e) => ConnectStep::<T, E>::Next(Some(e)),
            }),
    {
        match outcome {
            Ok(t) => ConnectStep::Connected(t),
            Err(e) => ConnectStep::Next(Some(e)),
        }
    }

    /// Ends a connection loop that ran out of addresses: the error of the
    /// last attempt, or no address when none was tried.
    pub fn connect_exhausted<E>(tail_err: Option<E>) -> (r: ConnectFailure<E>)
        ensures
            r == (match tail_err {
                Some(e) => ConnectFailure::Attempt(e),
                None => ConnectFailure::<E>::NoAddress,
            }),
    {
        match tail_err {
            Some(e) => ConnectFailure::Attempt(e),
            None => ConnectFailure::NoAddress,
        }
    }
}

proof fn lemma_connect_fold_tail<T, E>(e: E, outcomes: Seq<Result<T, E>>)
    ensures
        connect_fold(Some(e), outcomes) == match connect_result(outcomes) {
            Ok(t) => Ok(t),
            Err(ConnectFailure::NoAddress) => Err(ConnectFailure::Attempt(e)),
            Err(f) => Err(f),
        },
    decreases outcomes.len(),
{
    if outcomes.len() > 0 {
        match outcomes[0] {
            Ok(_) => {},
            Err(e2) => {
                lemma_connect_fold_tail::<T, E>(e2, outcomes.drop_first());
            },
        }
    }
}

/// Connecting step by step from no remembered error yields the first
/// connection among the attempts, else the error of the last attempt, else
/// the failure for an empty address list.
pub proof fn law_connect_loop_result<T, E>(outcomes: Seq<Result<T, E>>)
    ensures
        connect_fold(None, outcomes) == connect_result(outcomes),
{
    if outcomes.len() > 0 {
        match outcomes[0] {
            Ok(_) => {},
            Err(e) => {
                lemma_connect_fold_tail::<T, E>(e, outcomes.drop_first());
            },
        }
    }
}

} // verus!
