//! The error taxonomy every driver operation reports through.

use vstd::prelude::*;

verus! {

/// What can go wrong while driving the panel.
///
/// - `SomethingWrong` is the catch-all for protocol invariant violations,
///   such as a malformed byte rectangle handed to a draw.
/// - `DataTooLong` reports a pixel buffer whose length does not match the
///   declared rectangle: the expected byte count, then the actual one.
/// - `GpioError` wraps a digital-line I/O failure reported by the backend.
/// - `SpiIoError` wraps a byte-transport I/O failure reported by the backend.
#[derive(Debug, Clone)]
pub enum EpdError {
    SomethingWrong(String),
    DataTooLong(usize, usize),
    GpioError(String),
    SpiIoError(String),
}

pub type EpdResult<T> = Result<T, EpdError>;

} // verus!
