//! What holds of every multi-byte read, whatever the peripheral delivers.
//!
//! The statements are about [`Run`]: a read driven step by step, each step
//! being one call of [`ReadOp::accept`](crate::scan::ReadOp::accept) on one
//! answer. An answer that is a byte stands for one hardware transfer that
//! delivered it. An answer that is an error stands for one failed attempt at
//! a byte, and the laws do not ask where it failed: in the transfer, or in a
//! readiness check in front of it.

use vstd::prelude::*;
use nrf52833_hal::uarte::Error;
use crate::scan::{Run, Scan};

verus! {

/// The answers of a peripheral that delivers `bytes`, in order, without error.
pub open spec fn delivered(bytes: Seq<u8>) -> Seq<Result<u8, Error>> {
    Seq::new(bytes.len(), |i: int| Ok(bytes[i]))
}

/// Number of bytes in front of the first byte equal to `delimiter`; the
/// length of `bytes` if there is none.
pub open spec fn first_delimiter(bytes: Seq<u8>, delimiter: u8) -> nat
    decreases bytes.len(),
{
    if bytes.len() == 0 || bytes[0] == delimiter {
        0
    } else {
        1 + first_delimiter(bytes.drop_first(), delimiter)
    }
}

/// Number of bytes that a read stores when `bytes` arrive in order: it stops
/// behind the first delimiter or at the end of the buffer, whichever comes
/// first. A value above the length of `bytes` says that `bytes` do not
/// suffice to end the read.
pub open spec fn stop_count(delimiter: Option<u8>, capacity: nat, bytes: Seq<u8>) -> nat {
    let wanted = match delimiter {
        Some(d) => first_delimiter(bytes, d) + 1,
        None => bytes.len() + 1,
    };
    if capacity <= wanted {
        capacity
    } else {
        wanted
    }
}

/// `first_delimiter` is a position in `bytes` or its length, no byte in
/// front of it equals the delimiter, and the byte at it does.
pub proof fn first_delimiter_is_first(bytes: Seq<u8>, delimiter: u8)
    ensures
        first_delimiter(bytes, delimiter) <= bytes.len(),
        forall|i: int| 0 <= i < first_delimiter(bytes, delimiter) ==> bytes[i] != delimiter,
        first_delimiter(bytes, delimiter) < bytes.len() ==> bytes[
            first_delimiter(bytes, delimiter) as int
        ] == delimiter,
    decreases bytes.len(),
{
    if bytes.len() != 0 && bytes[0] != delimiter {
        let rest = bytes.drop_first();
        first_delimiter_is_first(rest, delimiter);
        assert forall|i: int| 0 <= i < first_delimiter(bytes, delimiter) implies bytes[i]
            != delimiter by {
            if i > 0 {
                assert(bytes[i] == rest[i - 1]);
            }
        }
    }
}

/// No byte in front of position `stop_count - 1` equals the delimiter, and a
/// read that stops short of the capacity stops behind a delimiter.
proof fn stop_count_is_first_stop(delimiter: Option<u8>, capacity: nat, bytes: Seq<u8>)
    ensures
        stop_count(delimiter, capacity, bytes) <= capacity,
        capacity > 0 ==> stop_count(delimiter, capacity, bytes) > 0,
        forall|i: int|
            0 <= i < stop_count(delimiter, capacity, bytes) - 1 && i < bytes.len() ==> Some(
                bytes[i],
            ) != delimiter,
        stop_count(delimiter, capacity, bytes) <= bytes.len() ==> stop_count(
            delimiter,
            capacity,
            bytes,
        ) == capacity || delimiter == Some(
            bytes[stop_count(delimiter, capacity, bytes) - 1],
        ),
{
    match delimiter {
        Some(d) => first_delimiter_is_first(bytes, d),
        None => {},
    }
}

/// While neither the delimiter nor the end of the buffer has been reached,
/// the read stays in progress, has stored what arrived, and has taken one
/// answer per byte.
proof fn run_in_progress(delimiter: Option<u8>, buffer: Seq<u8>, bytes: Seq<u8>)
    requires
        bytes.len() < buffer.len(),
        forall|i: int| 0 <= i < bytes.len() ==> Some(bytes[i]) != delimiter,
    ensures
        Run::begin(delimiter, buffer).feed(delivered(bytes)) == (Run {
            scan: Scan::Reading { delimiter, filled: bytes.len() },
            buffer: bytes + buffer.skip(bytes.len() as int),
            taken: bytes.len(),
        }),
    decreases bytes.len(),
{
    let run = Run::begin(delimiter, buffer).feed(delivered(bytes));
    if bytes.len() == 0 {
        assert(run.buffer =~= bytes + buffer.skip(0));
    } else {
        let front = bytes.drop_last();
        run_in_progress(delimiter, buffer, front);
        assert(delivered(bytes).drop_last() =~= delivered(front));
        assert(delivered(bytes).last() == Ok::<u8, Error>(bytes.last()));
        let before = Run::begin(delimiter, buffer).feed(delivered(front));
        assert(run == before.step(Ok(bytes.last())));
        assert(before.buffer.len() == buffer.len());
        assert(Some(bytes[bytes.len() - 1]) != delimiter);
        assert(run.buffer =~= bytes + buffer.skip(bytes.len() as int));
    }
}

/// A read that is over stays as it is: whatever the peripheral would answer
/// next, no answer is taken, the result stands and the buffer is left alone.
pub proof fn finished_run_takes_no_answer(run: Run, incoming: Seq<Result<u8, Error>>)
    requires
        run.scan is Done,
    ensures
        run.feed(incoming) == run,
    decreases incoming.len(),
{
    if incoming.len() > 0 {
        finished_run_takes_no_answer(run, incoming.drop_last());
    }
}

/// Feeding two stretches of answers one after the other is feeding their
/// concatenation.
pub proof fn feed_in_two_parts(
    run: Run,
    first: Seq<Result<u8, Error>>,
    second: Seq<Result<u8, Error>>,
)
    ensures
        run.feed(first + second) == run.feed(first).feed(second),
    decreases second.len(),
{
    if second.len() == 0 {
        assert(first + second =~= first);
    } else {
        feed_in_two_parts(run, first, second.drop_last());
        assert((first + second).drop_last() =~= first + second.drop_last());
        assert((first + second).last() == second.last());
    }
}

/// The course of every read against a peripheral that delivers `bytes`
/// without error: the read ends after exactly `stop_count` answers, each of
/// them a byte that one transfer delivered, returns that count, has stored
/// the bytes in arrival order, and has left the rest of the buffer alone.
/// Bytes behind the stop are never taken.
pub proof fn read_ends_at_stop_count(delimiter: Option<u8>, buffer: Seq<u8>, bytes: Seq<u8>)
    requires
        buffer.len() <= usize::MAX,
        stop_count(delimiter, buffer.len(), bytes) <= bytes.len(),
    ensures
        ({
            let n = stop_count(delimiter, buffer.len(), bytes);
            Run::begin(delimiter, buffer).feed(delivered(bytes)) == (Run {
                scan: Scan::Done(Ok(n as usize)),
                buffer: bytes.take(n as int) + buffer.skip(n as int),
                taken: n,
            })
        }),
{
    let n = stop_count(delimiter, buffer.len(), bytes);
    let start = Run::begin(delimiter, buffer);
    let used = bytes.take(n as int);
    let unused = bytes.skip(n as int);
    stop_count_is_first_stop(delimiter, buffer.len(), bytes);
    if n == 0 {
        assert(start.buffer =~= used + buffer.skip(0));
    } else {
        let front = bytes.take(n - 1);
        run_in_progress(delimiter, buffer, front);
        assert(delivered(used).drop_last() =~= delivered(front));
        assert(delivered(used).last() == Ok::<u8, Error>(bytes[n - 1]));
        let ended = start.feed(delivered(used));
        assert(ended == start.feed(delivered(front)).step(Ok(bytes[n - 1])));
        assert(ended.buffer =~= used + buffer.skip(n as int));
    }
    assert(delivered(bytes) =~= delivered(used) + delivered(unused));
    feed_in_two_parts(start, delivered(used), delivered(unused));
    finished_run_takes_no_answer(start.feed(delivered(used)), delivered(unused));
}

/// A read to which too few bytes have arrived is still in progress: it has
/// taken and stored them all, and wants another.
pub proof fn read_waits_for_more(delimiter: Option<u8>, buffer: Seq<u8>, bytes: Seq<u8>)
    requires
        stop_count(delimiter, buffer.len(), bytes) > bytes.len(),
    ensures
        Run::begin(delimiter, buffer).feed(delivered(bytes)) == (Run {
            scan: Scan::Reading { delimiter, filled: bytes.len() },
            buffer: bytes + buffer.skip(bytes.len() as int),
            taken: bytes.len(),
        }),
{
    stop_count_is_first_stop(delimiter, buffer.len(), bytes);
    run_in_progress(delimiter, buffer, bytes);
}

/// A read without delimiter into a buffer of `N` bytes, against a peripheral
/// that never reports an error, takes exactly `N` answers, each of them a
/// byte that one transfer delivered, and returns `N`; the buffer then holds
/// the `N` bytes received, in arrival order.
pub proof fn whole_read_fills_in_arrival_order(buffer: Seq<u8>, bytes: Seq<u8>)
    requires
        buffer.len() <= usize::MAX,
        buffer.len() <= bytes.len(),
    ensures
        Run::begin(None, buffer).feed(delivered(bytes)) == (Run {
            scan: Scan::Done(Ok(buffer.len() as usize)),
            buffer: bytes.take(buffer.len() as int),
            taken: buffer.len(),
        }),
{
    read_ends_at_stop_count(None, buffer, bytes);
    assert(bytes.take(buffer.len() as int) + buffer.skip(buffer.len() as int) =~= bytes.take(
        buffer.len() as int,
    ));
}

/// A read with a delimiter into a buffer of `N` bytes, against a peripheral
/// that never reports an error, writes `min(N, p + 1)` bytes, where `p` is
/// the position of the first delimiter among the bytes that arrive: the
/// delimiter is stored and counted. If no delimiter is among the first `N`
/// bytes, exactly `N` bytes are written.
pub proof fn delimited_read_stops_behind_first_delimiter(
    delimiter: u8,
    buffer: Seq<u8>,
    bytes: Seq<u8>,
)
    requires
        buffer.len() <= usize::MAX,
        buffer.len() <= bytes.len(),
    ensures
        ({
            let p = first_delimiter(bytes, delimiter);
            let n = if buffer.len() <= p + 1 {
                buffer.len()
            } else {
                p + 1
            };
            &&& Run::begin(Some(delimiter), buffer).feed(delivered(bytes)) == (Run {
                scan: Scan::Done(Ok(n as usize)),
                buffer: bytes.take(n as int) + buffer.skip(n as int),
                taken: n,
            })
            &&& (forall|i: int| 0 <= i < buffer.len() ==> bytes[i] != delimiter) ==> n
                == buffer.len()
            &&& n < buffer.len() ==> bytes[n - 1] == delimiter
        }),
{
    first_delimiter_is_first(bytes, delimiter);
    read_ends_at_stop_count(Some(delimiter), buffer, bytes);
}

/// If the `K`-th answer to a read is an error, the `K - 1` before it having
/// been the bytes `bytes`, the read returns that very error after exactly
/// `K` answers. The bytes delivered before the error stay in the buffer, and
/// whatever the peripheral would answer afterwards is never taken.
///
/// Where every answer comes from a hardware transfer, and a transfer is made
/// only for an answer that is taken, this is the failure of the `K`-th
/// transfer, after which no transfer `K + 1` is made.
pub proof fn first_error_ends_the_read(
    delimiter: Option<u8>,
    buffer: Seq<u8>,
    bytes: Seq<u8>,
    error: Error,
    afterwards: Seq<Result<u8, Error>>,
)
    requires
        stop_count(delimiter, buffer.len(), bytes) > bytes.len(),
    ensures
        Run::begin(delimiter, buffer).feed(delivered(bytes) + seq![Err(error)] + afterwards) == (
        Run {
            scan: Scan::Done(Err(error)),
            buffer: bytes + buffer.skip(bytes.len() as int),
            taken: bytes.len() + 1,
        }),
{
    let start = Run::begin(delimiter, buffer);
    let failing = delivered(bytes) + seq![Err::<u8, Error>(error)];
    read_waits_for_more(delimiter, buffer, bytes);
    assert(failing.drop_last() =~= delivered(bytes));
    assert(failing.last() == Err::<u8, Error>(error));
    assert(start.feed(failing) == start.feed(delivered(bytes)).step(Err(error)));
    feed_in_two_parts(start, failing, afterwards);
    finished_run_takes_no_answer(start.feed(failing), afterwards);
}

/// If the bytes that arrive are the bytes `sent`, and the first delimiter
/// among them fits into the buffer, a delimited read returns the length of
/// the leading stretch of `sent` up to and including that delimiter, and the
/// front of the buffer holds exactly that stretch.
pub proof fn delimited_read_returns_leading_stretch(
    delimiter: u8,
    buffer: Seq<u8>,
    sent: Seq<u8>,
)
    requires
        buffer.len() <= usize::MAX,
        first_delimiter(sent, delimiter) < sent.len(),
        first_delimiter(sent, delimiter) < buffer.len(),
    ensures
        ({
            let n = first_delimiter(sent, delimiter) + 1;
            let run = Run::begin(Some(delimiter), buffer).feed(delivered(sent));
            &&& run.scan == Scan::Done(Ok(n as usize))
            &&& run.taken == n
            &&& run.buffer.len() == buffer.len()
            &&& run.buffer.take(n as int) == sent.take(n as int)
            &&& sent[n - 1] == delimiter
        }),
{
    let n = first_delimiter(sent, delimiter) + 1;
    first_delimiter_is_first(sent, delimiter);
    read_ends_at_stop_count(Some(delimiter), buffer, sent);
    assert((sent.take(n as int) + buffer.skip(n as int)).take(n as int) =~= sent.take(n as int));
}

/// The first `count` answers of `incoming` were bytes, and `after` holds
/// them in arrival order, followed by what `before` held from there on.
pub open spec fn stored(
    before: Seq<u8>,
    after: Seq<u8>,
    incoming: Seq<Result<u8, Error>>,
    count: nat,
) -> bool {
    &&& after.len() == before.len()
    &&& count <= before.len()
    &&& count <= incoming.len()
    &&& forall|i: int| 0 <= i < count ==> incoming[i] == Ok::<u8, Error>(#[trigger] after[i])
    &&& forall|i: int| count <= i < before.len() ==> #[trigger] after[i] == before[i]
}

/// None of the first `count` bytes equals the delimiter.
pub open spec fn undelimited(delimiter: Option<u8>, bytes: Seq<u8>, count: int) -> bool {
    forall|i: int| 0 <= i < count && i < bytes.len() ==> Some(#[trigger] bytes[i]) != delimiter
}

/// What `run` must be to be the run of a read into `buffer` against
/// `incoming`: the answers were taken in order, from the first on, and the
/// read has gone exactly as far as the answers taken carry it.
pub open spec fn accounts_for(
    run: Run,
    delimiter: Option<u8>,
    buffer: Seq<u8>,
    incoming: Seq<Result<u8, Error>>,
) -> bool {
    let taken = run.taken;
    match run.scan {
        Scan::Reading { delimiter: wanted, filled } => {
            &&& wanted == delimiter
            &&& filled == taken
            &&& taken == incoming.len()
            &&& taken < buffer.len()
            &&& stored(buffer, run.buffer, incoming, taken)
            &&& undelimited(delimiter, run.buffer, taken as int)
        },
        Scan::Done(Ok(count)) => {
            &&& count == taken
            &&& buffer.len() > 0 ==> taken > 0
            &&& stored(buffer, run.buffer, incoming, taken)
            &&& undelimited(delimiter, run.buffer, taken - 1)
            &&& taken == buffer.len() || (taken > 0 && Some(run.buffer[taken - 1]) == delimiter)
        },
        Scan::Done(Err(error)) => {
            &&& 0 < taken <= incoming.len()
            &&& taken <= buffer.len()
            &&& incoming[taken - 1] == Err::<u8, Error>(error)
            &&& stored(buffer, run.buffer, incoming, (taken - 1) as nat)
            &&& undelimited(delimiter, run.buffer, taken - 1)
        },
    }
}

/// Whatever the peripheral answers, errors included, a read accounts for the
/// answers it took: it takes them in order, stores each byte at the next
/// position, stops behind the first delimiter or at the end of the buffer,
/// returns the count of bytes stored, and on the first error returns that
/// error and takes no further answer.
pub proof fn every_run_accounts_for_its_answers(
    delimiter: Option<u8>,
    buffer: Seq<u8>,
    incoming: Seq<Result<u8, Error>>,
)
    requires
        buffer.len() <= usize::MAX,
    ensures
        accounts_for(Run::begin(delimiter, buffer).feed(incoming), delimiter, buffer, incoming),
    decreases incoming.len(),
{
    let run = Run::begin(delimiter, buffer).feed(incoming);
    if incoming.len() > 0 {
        let earlier = incoming.drop_last();
        let before = Run::begin(delimiter, buffer).feed(earlier);
        every_run_accounts_for_its_answers(delimiter, buffer, earlier);
        assert(run == before.step(incoming.last()));
        assert(forall|i: int| 0 <= i < earlier.len() ==> earlier[i] == incoming[i]);
        match before.scan {
            Scan::Reading { delimiter: wanted, filled } => {
                assert(incoming[filled as int] == incoming.last());
            },
            Scan::Done(_) => {},
        }
    }
}

} // verus!
