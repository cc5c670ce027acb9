//! Byte-stream logic for a full-duplex UART peripheral, kept free of any
//! register access.
//!
//! The crate decides; the caller transfers. Every hardware interaction (a
//! readiness check, a one-byte receive, a buffer transmit) is carried out by
//! the code that owns the peripheral halves, which reports what the hardware
//! answered and is told what to do next:
//!
//! * [`transfer`] holds the readiness-gated transfer primitive: what one poll
//!   of a suspended read or write does with the readiness flag and with the
//!   result of the transfer that follows it.
//! * [`scan`] holds the multi-byte read: filling a destination buffer one
//!   received byte at a time, optionally stopping at a delimiter.
//! * [`laws`] states what holds of every run of a multi-byte read.
//! * [`driver`] names the peripheral driver's error type, which passes through
//!   this crate unchanged.

pub mod driver;
pub mod laws;
pub mod scan;
pub mod transfer;
