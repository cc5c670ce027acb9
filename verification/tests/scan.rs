use nrf52833_hal::uarte::Error;
use uart_port::scan::{read_until, ReadOp, Step};

/// A peripheral that answers its transfers from a script and counts them.
struct Script {
    answers: Vec<Result<u8, Error>>,
    transfers: usize,
}

impl Script {
    fn new(answers: Vec<Result<u8, Error>>) -> Script {
        let mut answers = answers;
        answers.reverse();
        Script { answers, transfers: 0 }
    }

    fn bytes(bytes: &[u8]) -> Script {
        Script::new(bytes.iter().map(|b| Ok(*b)).collect())
    }

    fn transfer(&mut self) -> Result<u8, Error> {
        self.transfers += 1;
        match self.answers.pop() {
            Some(answer) => answer,
            None => panic!("a transfer was made that the script does not hold"),
        }
    }
}

/// Drives a read the way a suspension-based caller does: one transfer for
/// each `Step::Read`, nothing once the read is done.
fn drive(mut step: Step, buffer: &mut [u8], script: &mut Script) -> Result<usize, Error> {
    loop {
        match step {
            Step::Done(result) => return result,
            Step::Read(op) => {
                assert!(op.filled() < buffer.len());
                let read = script.transfer();
                step = op.accept(buffer, read);
            }
        }
    }
}

#[test]
fn read_until_stops_behind_the_delimiter() {
    let mut buffer = [0u8; 4];
    let mut script = Script::bytes(&[0x41, 0x0A, 0x58, 0x59]);
    let result = read_until(0x0A, &mut buffer, || script.transfer());
    assert!(matches!(result, Ok(2)));
    assert_eq!(&buffer[0..2], &[0x41, 0x0A]);
    assert_eq!(script.transfers, 2);
}

#[test]
fn read_until_leaves_the_rest_of_the_buffer_alone() {
    let mut buffer = [0xEE, 0xEE, 0xEE, 0xEE];
    let mut script = Script::bytes(&[0x41, 0x0A, 0x58, 0x59]);
    let result = read_until(0x0A, &mut buffer, || script.transfer());
    assert!(matches!(result, Ok(2)));
    assert_eq!(buffer, [0x41, 0x0A, 0xEE, 0xEE]);
}

#[test]
fn read_until_fills_the_buffer_when_no_delimiter_arrives() {
    let mut buffer = [0u8; 3];
    let mut script = Script::bytes(&[1, 2, 3, 4, 5]);
    let result = read_until(0x0A, &mut buffer, || script.transfer());
    assert!(matches!(result, Ok(3)));
    assert_eq!(buffer, [1, 2, 3]);
    assert_eq!(script.transfers, 3);
}

#[test]
fn read_until_counts_a_delimiter_in_the_last_position_once() {
    let mut buffer = [0u8; 3];
    let mut script = Script::bytes(&[1, 2, 0x0A, 4]);
    let result = read_until(0x0A, &mut buffer, || script.transfer());
    assert!(matches!(result, Ok(3)));
    assert_eq!(buffer, [1, 2, 0x0A]);
    assert_eq!(script.transfers, 3);
}

#[test]
fn read_until_stops_at_a_leading_delimiter() {
    let mut buffer = [7u8; 3];
    let mut script = Script::bytes(&[0x0A, 1, 2]);
    let result = read_until(0x0A, &mut buffer, || script.transfer());
    assert!(matches!(result, Ok(1)));
    assert_eq!(buffer, [0x0A, 7, 7]);
    assert_eq!(script.transfers, 1);
}

#[test]
fn read_until_stops_at_the_first_of_several_delimiters() {
    let mut buffer = [0u8; 6];
    let mut script = Script::bytes(&[b'a', b'b', b';', b'c', b';', b'd']);
    let result = read_until(b';', &mut buffer, || script.transfer());
    assert!(matches!(result, Ok(3)));
    assert_eq!(&buffer[0..3], b"ab;");
    assert_eq!(script.transfers, 3);
}

#[test]
fn read_until_into_an_empty_buffer_makes_no_transfer() {
    let mut buffer = [0u8; 0];
    let mut script = Script::bytes(&[1, 2, 3]);
    let result = read_until(0x0A, &mut buffer, || script.transfer());
    assert!(matches!(result, Ok(0)));
    assert_eq!(script.transfers, 0);
}

#[test]
fn read_until_takes_any_byte_value_as_delimiter() {
    for delimiter in [0x00u8, 0x0A, 0x7F, 0xFF] {
        let mut buffer = [0x55u8; 5];
        let mut script = Script::bytes(&[0x10, 0x20, delimiter, 0x30, 0x40]);
        let result = read_until(delimiter, &mut buffer, || script.transfer());
        assert!(matches!(result, Ok(3)));
        assert_eq!(buffer, [0x10, 0x20, delimiter, 0x55, 0x55]);
        assert_eq!(script.transfers, 3);
    }
}

#[test]
fn read_until_returns_the_error_of_the_failing_transfer() {
    let mut buffer = [0u8; 4];
    let mut script = Script::new(vec![Ok(1), Ok(2), Err(Error::Timeout(7)), Ok(4)]);
    let result = read_until(0x0A, &mut buffer, || script.transfer());
    assert!(matches!(result, Err(Error::Timeout(7))));
    assert_eq!(script.transfers, 3);
    assert_eq!(buffer, [1, 2, 0, 0]);
}

#[test]
fn read_until_fails_at_once_when_the_first_transfer_fails() {
    let mut buffer = [9u8; 2];
    let mut script = Script::new(vec![Err(Error::Receive), Ok(1), Ok(2)]);
    let result = read_until(0x0A, &mut buffer, || script.transfer());
    assert!(matches!(result, Err(Error::Receive)));
    assert_eq!(script.transfers, 1);
    assert_eq!(buffer, [9, 9]);
}

#[test]
fn read_until_ignores_an_error_behind_the_delimiter() {
    let mut buffer = [0u8; 4];
    let mut script = Script::new(vec![Ok(1), Ok(0x0A), Err(Error::Receive)]);
    let result = read_until(0x0A, &mut buffer, || script.transfer());
    assert!(matches!(result, Ok(2)));
    assert_eq!(script.transfers, 2);
}

#[test]
fn read_until_reads_back_what_was_sent_up_to_the_delimiter() {
    let sent = b"AT+OK\r\ntrailing";
    let mut wire: Vec<u8> = Vec::new();
    wire.extend_from_slice(sent);
    let mut script = Script::bytes(&wire);
    let mut buffer = [0u8; 32];
    let result = read_until(b'\n', &mut buffer, || script.transfer());
    assert!(matches!(result, Ok(7)));
    assert_eq!(&buffer[0..7], &sent[0..7]);
    assert_eq!(buffer[6], b'\n');
}

#[test]
fn whole_read_fills_the_buffer_in_arrival_order() {
    for n in [0usize, 1, 2, 5, 64] {
        let bytes: Vec<u8> = (0..n).map(|i| (i * 7 + 3) as u8).collect();
        let mut buffer = vec![0u8; n];
        let mut script = Script::bytes(&bytes);
        let step = ReadOp::whole(&buffer);
        let result = drive(step, &mut buffer, &mut script);
        assert!(matches!(result, Ok(count) if count == n));
        assert_eq!(buffer, bytes);
        assert_eq!(script.transfers, n);
    }
}

#[test]
fn whole_read_does_not_stop_at_any_byte_value() {
    let bytes = [0x0A, 0x00, 0xFF, 0x0A];
    let mut buffer = [1u8; 4];
    let mut script = Script::bytes(&bytes);
    let step = ReadOp::whole(&buffer);
    let result = drive(step, &mut buffer, &mut script);
    assert!(matches!(result, Ok(4)));
    assert_eq!(buffer, bytes);
}

#[test]
fn whole_read_takes_no_more_than_the_buffer_holds() {
    let mut buffer = [0u8; 2];
    let mut script = Script::bytes(&[1, 2, 3, 4]);
    let step = ReadOp::whole(&buffer);
    let result = drive(step, &mut buffer, &mut script);
    assert!(matches!(result, Ok(2)));
    assert_eq!(buffer, [1, 2]);
    assert_eq!(script.transfers, 2);
}

#[test]
fn whole_read_returns_the_error_of_the_failing_transfer() {
    let mut buffer = [0u8; 4];
    let mut script = Script::new(vec![Ok(0x11), Err(Error::Timeout(3)), Ok(0x33)]);
    let step = ReadOp::whole(&buffer);
    let result = drive(step, &mut buffer, &mut script);
    assert!(matches!(result, Err(Error::Timeout(3))));
    assert_eq!(script.transfers, 2);
    assert_eq!(buffer, [0x11, 0, 0, 0]);
}

#[test]
fn stepwise_delimited_read_stops_behind_the_delimiter() {
    let mut buffer = [0u8; 4];
    let mut script = Script::bytes(&[0x41, 0x0A, 0x58, 0x59]);
    let step = ReadOp::until(0x0A, &buffer);
    let result = drive(step, &mut buffer, &mut script);
    assert!(matches!(result, Ok(2)));
    assert_eq!(&buffer[0..2], &[0x41, 0x0A]);
    assert_eq!(script.transfers, 2);
}

#[test]
fn stepwise_and_blocking_delimited_reads_agree() {
    let cases: [(&[u8], usize, u8); 6] = [
        (&[1, 2, 3, 4], 4, 3),
        (&[1, 2, 3, 4], 2, 3),
        (&[1, 2, 3, 4], 3, 3),
        (&[5, 5, 5, 5], 4, 5),
        (&[1, 2, 3, 4], 4, 9),
        (&[1, 2, 3, 4], 0, 1),
    ];
    for (bytes, capacity, delimiter) in cases {
        let mut blocking = vec![0xAAu8; capacity];
        let mut script = Script::bytes(bytes);
        let a = read_until(delimiter, &mut blocking, || script.transfer());
        let blocking_transfers = script.transfers;

        let mut stepwise = vec![0xAAu8; capacity];
        let mut script = Script::bytes(bytes);
        let step = ReadOp::until(delimiter, &stepwise);
        let b = drive(step, &mut stepwise, &mut script);

        match (a, b) {
            (Ok(x), Ok(y)) => assert_eq!(x, y),
            _ => panic!("both reads succeed on bytes alone"),
        }
        assert_eq!(blocking, stepwise);
        assert_eq!(blocking_transfers, script.transfers);
    }
}

#[test]
fn begin_is_done_at_once_for_an_empty_buffer() {
    let buffer = [0u8; 0];
    assert!(matches!(ReadOp::whole(&buffer), Step::Done(Ok(0))));
    assert!(matches!(ReadOp::until(0x0A, &buffer), Step::Done(Ok(0))));
}

#[test]
fn begin_wants_a_transfer_for_a_buffer_with_room() {
    let buffer = [0u8; 1];
    match ReadOp::whole(&buffer) {
        Step::Read(op) => assert_eq!(op.filled(), 0),
        Step::Done(_) => panic!("a buffer with room wants a transfer"),
    }
    match ReadOp::until(0x0A, &buffer) {
        Step::Read(op) => assert_eq!(op.filled(), 0),
        Step::Done(_) => panic!("a buffer with room wants a transfer"),
    }
}

#[test]
fn accept_stores_at_the_next_position_and_counts() {
    let mut buffer = [0u8; 3];
    let op = match ReadOp::until(b'\n', &buffer) {
        Step::Read(op) => op,
        Step::Done(_) => panic!("a buffer with room wants a transfer"),
    };
    let op = match op.accept(&mut buffer, Ok(b'x')) {
        Step::Read(op) => op,
        Step::Done(_) => panic!("one byte does not end this read"),
    };
    assert_eq!(op.filled(), 1);
    assert_eq!(buffer, [b'x', 0, 0]);
    let op = match op.accept(&mut buffer, Ok(b'y')) {
        Step::Read(op) => op,
        Step::Done(_) => panic!("two bytes do not end this read"),
    };
    assert_eq!(op.filled(), 2);
    assert_eq!(buffer, [b'x', b'y', 0]);
    assert!(matches!(op.accept(&mut buffer, Ok(b'z')), Step::Done(Ok(3))));
    assert_eq!(buffer, [b'x', b'y', b'z']);
}

#[test]
fn accept_hands_every_driver_error_through_unchanged() {
    let errors = || {
        vec![
            Error::TxBufferTooSmall,
            Error::RxBufferTooSmall,
            Error::TxBufferTooLong,
            Error::RxBufferTooLong,
            Error::Transmit,
            Error::Receive,
            Error::Timeout(usize::MAX),
            Error::BufferNotInRAM,
        ]
    };
    for (given, wanted) in errors().into_iter().zip(errors()) {
        let mut buffer = [0x5Au8; 2];
        let op = match ReadOp::whole(&buffer) {
            Step::Read(op) => op,
            Step::Done(_) => panic!("a buffer with room wants a transfer"),
        };
        match op.accept(&mut buffer, Err(given)) {
            Step::Done(Err(error)) => {
                assert_eq!(format!("{:?}", error), format!("{:?}", wanted))
            }
            _ => panic!("a failed transfer ends the read with its error"),
        }
        assert_eq!(buffer, [0x5A, 0x5A]);
    }
}
