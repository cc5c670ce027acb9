//! The readiness-gated transfer primitive.
//!
//! A suspended read or write is advanced by polls. One poll asks the hardware
//! whether the transfer can proceed. If it can, the poll makes exactly one
//! transfer and the primitive is done, with what the transfer reported. If it
//! cannot, the poll makes no transfer and the primitive stays pending: the
//! caller asks to be polled again at once (a cooperative busy-poll, not a
//! wait for an interrupt). An error, from the readiness check or from the
//! transfer, ends the primitive at once; nothing is retried.
//!
//! The two primitives differ in granularity: a read transfers one byte per
//! poll, a write hands the whole buffer to one hardware operation and is done
//! with the number of bytes that the hardware accepted of it.

use vstd::prelude::*;
use nrf52833_hal::uarte::Error;

verus! {

/// Where a primitive stands. `Polling` is the initial state; the two others
/// are final.
#[derive(Clone, Copy, Debug, PartialEq, Eq, Structural)]
pub enum State {
    Polling,
    DoneSuccess,
    DoneError,
}

/// What one poll of a primitive yields.
pub enum Poll<T> {
    /// The hardware was not ready. No transfer was made; poll again.
    Pending,
    /// The primitive is done, with this outcome.
    Ready(Result<T, Error>),
}

/// What the hardware has to say in the course of one poll: the answer to the
/// readiness check, and what the transfer reports if it is made.
pub struct Answer<T> {
    pub ready: Result<bool, Error>,
    pub transfer: Result<T, Error>,
}

impl<T> Poll<T> {
    /// The poll that the hardware's answers lead to. The transfer's report
    /// counts only where the readiness check said `true`.
    pub open spec fn of(answer: Answer<T>) -> Poll<T> {
        match answer.ready {
            Ok(true) => Poll::Ready(answer.transfer),
            Ok(false) => Poll::Pending,
            Err(e) => Poll::Ready(Err(e)),
        }
    }

    /// The state in which this poll leaves a primitive that was polling.
    pub open spec fn spec_state(&self) -> State {
        match *self {
            Poll::Pending => State::Polling,
            Poll::Ready(Ok(_)) => State::DoneSuccess,
            Poll::Ready(Err(_)) => State::DoneError,
        }
    }

    /// The state in which this poll leaves a primitive that was polling.
    #[verifier::when_used_as_spec(spec_state)]
    pub fn state(&self) -> (state: State)
        ensures
            state == self.spec_state(),
    {
        match self {
            Poll::Pending => State::Polling,
            Poll::Ready(Ok(_)) => State::DoneSuccess,
            Poll::Ready(Err(_)) => State::DoneError,
        }
    }
}

impl State {
    /// The state after one more poll. A primitive that is done is not polled
    /// again: its state stands.
    pub open spec fn poll<T>(self, answer: Answer<T>) -> State {
        match self {
            State::Polling => Poll::of(answer).state(),
            _ => self,
        }
    }

    /// The state after a series of polls.
    pub open spec fn polls<T>(self, answers: Seq<Answer<T>>) -> State
        decreases answers.len(),
    {
        if answers.len() == 0 {
            self
        } else {
            self.polls(answers.drop_last()).poll(answers.last())
        }
    }
}

/// One poll of a read. `ready` is what the readiness check answered;
/// `transfer` receives one byte from the hardware and is called, once, only
/// if the hardware is ready.
pub fn poll_read<F: FnOnce() -> Result<u8, Error>>(ready: Result<bool, Error>, transfer: F) -> (poll:
    Poll<u8>)
    requires
        ready == Ok::<bool, Error>(true) ==> call_requires(transfer, ()),
    ensures
        match ready {
            Ok(true) => poll matches Poll::Ready(byte) && call_ensures(transfer, (), byte),
            Ok(false) => poll == Poll::<u8>::Pending,
            Err(e) => poll == Poll::<u8>::Ready(Err(e)),
        },
        exists|report: Result<u8, Error>| poll == #[trigger] Poll::of(Answer { ready, transfer: report }),
{
    match ready {
        Ok(true) => {
            let byte = transfer();
            assert(Poll::Ready(byte) == Poll::of(Answer { ready, transfer: byte }));
            Poll::Ready(byte)
        },
        Ok(false) => {
            assert(Poll::<u8>::Pending == Poll::of(Answer { ready, transfer: Ok(0u8) }));
            Poll::Pending
        },
        Err(e) => {
            assert(Poll::<u8>::Ready(Err(e)) == Poll::of(Answer { ready, transfer: Ok(0u8) }));
            Poll::Ready(Err(e))
        },
    }
}

/// One poll of a write. `ready` is what the readiness check answered;
/// `transfer` hands a buffer to the hardware and is called, once and with the
/// whole of `buffer`, only if the hardware is ready.
///
/// The poll reports what the transfer reported: the number of bytes that the
/// hardware accepted, which may be less than the buffer holds, or its error.
pub fn poll_write<F: FnOnce(&[u8]) -> Result<usize, Error>>(
    ready: Result<bool, Error>,
    buffer: &[u8],
    transfer: F,
) -> (poll: Poll<usize>)
    requires
        ready == Ok::<bool, Error>(true) ==> call_requires(transfer, (buffer,)),
    ensures
        match ready {
            Ok(true) => poll matches Poll::Ready(report) && call_ensures(
                transfer,
                (buffer,),
                report,
            ),
            Ok(false) => poll == Poll::<usize>::Pending,
            Err(e) => poll == Poll::<usize>::Ready(Err(e)),
        },
        exists|report: Result<usize, Error>|
            poll == #[trigger] Poll::of(Answer { ready, transfer: report }),
{
    match ready {
        Ok(true) => {
            let report = transfer(buffer);
            assert(Poll::Ready(report) == Poll::of(Answer { ready, transfer: report }));
            Poll::Ready(report)
        },
        Ok(false) => {
            assert(Poll::<usize>::Pending == Poll::of(Answer { ready, transfer: Ok(0usize) }));
            Poll::Pending
        },
        Err(e) => {
            assert(Poll::<usize>::Ready(Err(e)) == Poll::of(Answer { ready, transfer: Ok(0usize) }));
            Poll::Ready(Err(e))
        },
    }
}

/// A poll is pending exactly when the readiness check answered `false`, and
/// only then does the primitive stay in `Polling`.
pub proof fn pending_iff_not_ready<T>(answer: Answer<T>)
    ensures
        Poll::of(answer) is Pending <==> answer.ready == Ok::<bool, Error>(false),
        State::Polling.poll(answer) == State::Polling <==> answer.ready == Ok::<bool, Error>(false),
        State::Polling.poll(answer) == State::DoneSuccess <==> answer.ready == Ok::<bool, Error>(true)
            && answer.transfer is Ok,
        State::Polling.poll(answer) == State::DoneError <==> answer.ready is Err || (answer.ready
            == Ok::<bool, Error>(true) && answer.transfer is Err),
{
}

/// If the readiness check never answers `true`, the primitive never
/// completes: after any number of polls it is still polling, and each of
/// them was pending.
pub proof fn never_ready_never_completes<T>(answers: Seq<Answer<T>>)
    requires
        forall|i: int| 0 <= i < answers.len() ==> answers[i].ready == Ok::<bool, Error>(false),
    ensures
        State::Polling.polls(answers) == State::Polling,
        forall|i: int| 0 <= i < answers.len() ==> Poll::of(#[trigger] answers[i]) is Pending,
    decreases answers.len(),
{
    if answers.len() > 0 {
        never_ready_never_completes(answers.drop_last());
    }
}

/// A primitive that is done stays done, in the same state, whatever the
/// hardware would answer to further polls.
pub proof fn done_is_final<T>(state: State, answers: Seq<Answer<T>>)
    requires
        state != State::Polling,
    ensures
        state.polls(answers) == state,
    decreases answers.len(),
{
    if answers.len() > 0 {
        done_is_final(state, answers.drop_last());
    }
}

} // verus!
