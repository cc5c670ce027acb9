//! Multi-byte reads assembled from single-byte hardware transfers.
//!
//! A read fills the caller's buffer front to back, one received byte at a
//! time. It ends when the buffer is full, when a byte equal to the delimiter
//! has been stored (the delimiter is stored and counted), or at the first
//! error, whichever comes first.
//!
//! The read is a resumable state machine. [`ReadOp::whole`] and
//! [`ReadOp::until`] begin one; each [`Step::Read`] asks the caller for exactly
//! one byte, and the caller's answer goes to [`ReadOp::accept`]; a
//! [`Step::Done`] carries the result of the whole read. Between two steps the
//! caller is free to suspend, so the same machine serves blocking and
//! suspension-based reads.
//!
//! An answer is what the caller reports for one byte asked for: `Ok` with the
//! byte that a hardware transfer delivered, or `Err` with the error that kept
//! the byte from arriving. In a blocking read that is the error of the
//! transfer. In a suspension-based read it may also be the error of the
//! readiness check in front of the transfer, in which case no transfer was
//! made. The read cannot tell the two apart and treats them alike, so it
//! counts answers, not transfers.
//!
//! Known limitation: a read that fails keeps the bytes stored before the
//! failure in the buffer, but the error does not say how many there are.

use vstd::prelude::*;
use nrf52833_hal::uarte::Error;
use crate::laws::every_run_accounts_for_its_answers;

verus! {

/// Mathematical state of a multi-byte read.
pub enum Scan {
    /// `filled` bytes are stored; one more byte is wanted.
    Reading { delimiter: Option<u8>, filled: nat },
    /// The read is over, with this result. No further byte is wanted.
    Done(Result<usize, Error>),
}

impl Scan {
    /// The state in which a read into a buffer of `capacity` bytes begins.
    /// An empty buffer is complete at once; no byte is asked for.
    pub open spec fn start(delimiter: Option<u8>, capacity: nat) -> Scan {
        if capacity == 0 {
            Scan::Done(Ok(0))
        } else {
            Scan::Reading { delimiter, filled: 0 }
        }
    }

    /// The state after the answer `read` has been taken.
    pub open spec fn accept(self, capacity: nat, read: Result<u8, Error>) -> Scan {
        match self {
            Scan::Done(_) => self,
            Scan::Reading { delimiter, filled } => match read {
                Err(e) => Scan::Done(Err(e)),
                Ok(byte) => if delimiter == Some(byte) || filled + 1 >= capacity {
                    Scan::Done(Ok((filled + 1) as usize))
                } else {
                    Scan::Reading { delimiter, filled: filled + 1 }
                },
            },
        }
    }

    /// The buffer after the answer `read` has been taken: a received byte
    /// lands at the first free position, an error changes nothing.
    pub open spec fn store(self, buffer: Seq<u8>, read: Result<u8, Error>) -> Seq<u8> {
        match (self, read) {
            (Scan::Reading { filled, .. }, Ok(byte)) => if filled < buffer.len() {
                buffer.update(filled as int, byte)
            } else {
                buffer
            },
            _ => buffer,
        }
    }

    /// Number of bytes stored so far, for a read in progress.
    pub open spec fn filled(self) -> nat {
        match self {
            Scan::Reading { filled, .. } => filled,
            Scan::Done(_) => 0,
        }
    }
}

/// A whole multi-byte read as seen from outside: the state of the read, the
/// destination buffer, and how many answers the read has taken.
///
/// `taken` counts answers, of either kind. Each `Ok` among them stands for
/// one hardware transfer that delivered a byte. An `Err` stands for one
/// attempt at a byte that failed, in the transfer or in the readiness check
/// in front of it.
pub struct Run {
    pub scan: Scan,
    pub buffer: Seq<u8>,
    pub taken: nat,
}

impl Run {
    /// A read into `buffer` before its first answer.
    pub open spec fn begin(delimiter: Option<u8>, buffer: Seq<u8>) -> Run {
        Run { scan: Scan::start(delimiter, buffer.len()), buffer, taken: 0 }
    }

    /// The run after the hardware has been offered the chance to answer
    /// `read`. A read in progress asks for a byte and takes the answer; a
    /// read that is over asks for nothing, and the answer is never taken.
    pub open spec fn step(self, read: Result<u8, Error>) -> Run {
        match self.scan {
            Scan::Done(_) => self,
            Scan::Reading { .. } => Run {
                scan: self.scan.accept(self.buffer.len(), read),
                buffer: self.scan.store(self.buffer, read),
                taken: self.taken + 1,
            },
        }
    }

    /// The run driven against a peripheral that would give the answers
    /// `incoming`, in that order, to the bytes asked of it.
    pub open spec fn feed(self, incoming: Seq<Result<u8, Error>>) -> Run
        decreases incoming.len(),
    {
        if incoming.len() == 0 {
            self
        } else {
            self.feed(incoming.drop_last()).step(incoming.last())
        }
    }
}

/// A multi-byte read in progress: it wants one more byte.
pub struct ReadOp {
    delimiter: Option<u8>,
    filled: usize,
}

/// What the caller of a multi-byte read does next.
pub enum Step {
    /// Get one byte from the hardware and hand the answer, the byte or the
    /// error that kept it from arriving, to [`ReadOp::accept`].
    Read(ReadOp),
    /// Stop: the read is over, with this result.
    Done(Result<usize, Error>),
}

impl View for ReadOp {
    type V = Scan;

    closed spec fn view(&self) -> Scan {
        Scan::Reading { delimiter: self.delimiter, filled: self.filled as nat }
    }
}

impl View for Step {
    type V = Scan;

    open spec fn view(&self) -> Scan {
        match *self {
            Step::Read(op) => op@,
            Step::Done(result) => Scan::Done(result),
        }
    }
}

impl ReadOp {
    /// Begins a read that fills `buffer` completely.
    pub fn whole(buffer: &[u8]) -> (step: Step)
        ensures
            step@ == Scan::start(None, buffer@.len()),
    {
        if buffer.len() == 0 {
            Step::Done(Ok(0))
        } else {
            Step::Read(ReadOp { delimiter: None, filled: 0 })
        }
    }

    /// Begins a read that fills `buffer` up to and including the first byte
    /// equal to `delimiter`, or completely if no such byte arrives in time.
    pub fn until(delimiter: u8, buffer: &[u8]) -> (step: Step)
        ensures
            step@ == Scan::start(Some(delimiter), buffer@.len()),
    {
        if buffer.len() == 0 {
            Step::Done(Ok(0))
        } else {
            Step::Read(ReadOp { delimiter: Some(delimiter), filled: 0 })
        }
    }

    /// Number of bytes stored so far.
    pub fn filled(&self) -> (n: usize)
        ensures
            self@ is Reading,
            n == self@.filled(),
    {
        self.filled
    }

    /// Takes the answer to the one byte that this read asked for, stores the
    /// byte if there is one, and says what to do next.
    ///
    /// `read` is `Ok` with the byte that a hardware transfer delivered, or
    /// `Err` with the error that kept the byte from arriving: the error of the
    /// transfer, or that of a readiness check after which no transfer was
    /// made. Either error ends the read and is handed on as it came.
    ///
    /// `buffer` is the buffer that the read began with; the read must have a
    /// free position left in it.
    pub fn accept(self, buffer: &mut [u8], read: Result<u8, Error>) -> (step: Step)
        requires
            self@.filled() < old(buffer)@.len(),
        ensures
            step@ == self@.accept(old(buffer)@.len(), read),
            final(buffer)@ == self@.store(old(buffer)@, read),
    {
        match read {
            Err(e) => Step::Done(Err(e)),
            Ok(byte) => {
                buffer[self.filled] = byte;
                let count: usize = self.filled + 1;
                let stop = match self.delimiter {
                    Some(d) => d == byte,
                    None => false,
                };
                if stop || count >= buffer.len() {
                    Step::Done(Ok(count))
                } else {
                    Step::Read(ReadOp { delimiter: self.delimiter, filled: count })
                }
            },
        }
    }
}

/// Every answer in `incoming` is one that a call of `transfer` can return.
pub open spec fn answered<F: FnMut() -> Result<u8, Error>>(
    transfer: F,
    incoming: Seq<Result<u8, Error>>,
) -> bool {
    forall|i: int| 0 <= i < incoming.len() ==> call_ensures(transfer, (), #[trigger] incoming[i])
}

/// A read that turned a buffer holding `before` into one holding `after` and
/// returned `count` has ended where it should: `count` bytes are stored, the
/// last of them is the only one that may equal the delimiter, the read
/// stopped short of the end only behind a delimiter, and nothing behind the
/// stored bytes was touched.
pub open spec fn ended_at(delimiter: u8, before: Seq<u8>, after: Seq<u8>, count: nat) -> bool {
    &&& after.len() == before.len()
    &&& count <= before.len()
    &&& before.len() > 0 ==> count > 0
    &&& forall|i: int| 0 <= i < count - 1 ==> #[trigger] after[i] != delimiter
    &&& count == before.len() || (count > 0 && after[count - 1] == delimiter)
    &&& forall|i: int| count <= i < before.len() ==> #[trigger] after[i] == before[i]
}

/// Reads into `buffer` until it is full or a byte equal to `delimiter` has
/// been stored, whichever comes first, and returns the number of bytes
/// stored. The delimiter is stored and counted.
///
/// `transfer` receives one byte from the hardware, blocking until it is
/// there. The first error that it returns ends the read and is returned as
/// it came; the bytes stored before it stay in the buffer.
///
/// The contract speaks of the answers that the read took into its run, not
/// of every call of `transfer`. It says that there is a sequence of answers,
/// each of them one that `transfer` can return, against which the state
/// machine of this module runs to exactly this result and this buffer, taking
/// them all; so everything that [`crate::laws`] states of a run holds of the
/// read. It does not say how often `transfer` was called: that each call's
/// answer is taken into the run, and that no call is made once the read is
/// over, is how the loop below is written, one call for each [`Step::Read`],
/// and no clause states it. A caller that must know where each answer went
/// drives the read itself, with [`ReadOp::until`] and [`ReadOp::accept`],
/// whose contracts are exact.
pub fn read_until<F: FnMut() -> Result<u8, Error>>(
    delimiter: u8,
    buffer: &mut [u8],
    transfer: F,
) -> (result: Result<usize, Error>)
    requires
        old(buffer)@.len() > 0 ==> call_requires(transfer, ()),
    ensures
        exists|incoming: Seq<Result<u8, Error>>|
            {
                &&& #[trigger] answered(transfer, incoming)
                &&& Run::begin(Some(delimiter), old(buffer)@).feed(incoming) == (Run {
                    scan: Scan::Done(result),
                    buffer: final(buffer)@,
                    taken: incoming.len(),
                })
            },
        final(buffer)@.len() == old(buffer)@.len(),
        old(buffer)@.len() == 0 ==> result == Ok::<usize, Error>(0),
        match result {
            Ok(count) => ended_at(delimiter, old(buffer)@, final(buffer)@, count as nat),
            Err(error) => call_ensures(transfer, (), Err::<u8, Error>(error)),
        },
{
    let ghost mut incoming: Seq<Result<u8, Error>> = Seq::empty();
    let mut call = transfer;
    let mut step = ReadOp::until(delimiter, buffer);
    assert(buffer@.len() <= usize::MAX) by {
        vstd::slice::axiom_spec_len(buffer);
    }
    loop
        invariant
            call == transfer,
            buffer@.len() == old(buffer)@.len() <= usize::MAX,
            buffer@.len() > 0 ==> call_requires(transfer, ()),
            answered(transfer, incoming),
            Run::begin(Some(delimiter), old(buffer)@).feed(incoming) == (Run {
                scan: step@,
                buffer: buffer@,
                taken: incoming.len(),
            }),
            step@ is Reading ==> step@.filled() < buffer@.len(),
        decreases
            match step@ {
                Scan::Reading { filled, .. } => buffer@.len() - filled,
                Scan::Done(_) => 0,
            },
    {
        match step {
            Step::Done(result) => {
                proof {
                    every_run_accounts_for_its_answers(
                        Some(delimiter),
                        old(buffer)@,
                        incoming,
                    );
                }
                return result;
            },
            Step::Read(op) => {
                let read = call();
                proof {
                    assert(incoming.push(read).drop_last() =~= incoming);
                    incoming = incoming.push(read);
                }
                step = op.accept(buffer, read);
            },
        }
    }
}

} // verus!
